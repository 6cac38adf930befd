//! The upload side of the service: admission of guest uploads against a
//! link's validity and quota, the names uploaded files are stored under,
//! the referential guard on link deletion, and the strings the download
//! and review pages are built from.

use crate::models::{FileUpload, UploadLink};
use crate::text::push_char;
use vstd::prelude::*;
use vstd::string::{StrSliceExecFns, StringExecFns};

verus! {

/// Why an upload request fails. The first three are decisions of the
/// admission rules; the rest report I/O failures around an admitted upload.
#[derive(Clone, Copy, Debug, PartialEq, Eq, Structural)]
pub enum UploadError {
    /// No upload link carries the token.
    LinkNotFound,
    /// The link exists but is expired, switched off, or out of quota.
    LinkUnavailable,
    /// The file is larger than the link's unspent quota.
    QuotaExceeded,
    /// The request body could not be read.
    ReadFailed,
    /// The isolation directory could not be created.
    DirectoryFailed,
    /// The file could not be written to disk.
    WriteFailed,
    /// The upload's record could not be persisted.
    MetadataFailed,
    /// The request carried no file field.
    NoFilePart,
}

impl UploadError {
    /// The guest-facing message for this failure.
    pub open spec fn spec_message(self) -> Seq<char> {
        match self {
            UploadError::LinkNotFound => "Upload link not found"@,
            UploadError::LinkUnavailable => "Upload link has expired or is inactive"@,
            UploadError::QuotaExceeded => "File size exceeds remaining quota"@,
            UploadError::ReadFailed => "Failed to read uploaded file"@,
            UploadError::DirectoryFailed => "Failed to create upload directory"@,
            UploadError::WriteFailed => "Failed to save uploaded file"@,
            UploadError::MetadataFailed => "Failed to save upload information"@,
            UploadError::NoFilePart => "No file was uploaded"@,
        }
    }

    /// The guest-facing message for this failure.
    pub fn message(&self) -> (m: &'static str)
        ensures
            m@ == self.spec_message(),
    {
        match self {
            UploadError::LinkNotFound => "Upload link not found",
            UploadError::LinkUnavailable => "Upload link has expired or is inactive",
            UploadError::QuotaExceeded => "File size exceeds remaining quota",
            UploadError::ReadFailed => "Failed to read uploaded file",
            UploadError::DirectoryFailed => "Failed to create upload directory",
            UploadError::WriteFailed => "Failed to save uploaded file",
            UploadError::MetadataFailed => "Failed to save upload information",
            UploadError::NoFilePart => "No file was uploaded",
        }
    }
}

/// The first admission check on an upload request: the token must name a
/// link and the link must be usable at `now`.
pub fn validate_link_for_upload(link: Option<&UploadLink>, now: i64) -> (r: Result<
    (),
    UploadError,
>)
    ensures
        r == match link {
            None => Err::<(), UploadError>(UploadError::LinkNotFound),
            Some(l) => if l.spec_valid(now) {
                Ok::<(), UploadError>(())
            } else {
                Err::<(), UploadError>(UploadError::LinkUnavailable)
            },
        },
{
    match link {
        None => Err(UploadError::LinkNotFound),
        Some(l) => {
            if l.is_valid_at(now) {
                Ok(())
            } else {
                Err(UploadError::LinkUnavailable)
            }
        },
    }
}

/// The second admission check, once the file's size is known: the link must
/// admit a file of `file_size` bytes at `now`.
pub fn check_upload_size(link: &UploadLink, now: i64, file_size: i64) -> (r: Result<
    (),
    UploadError,
>)
    ensures
        r == if link.spec_accepts(now, file_size) {
            Ok::<(), UploadError>(())
        } else {
            Err::<(), UploadError>(UploadError::QuotaExceeded)
        },
{
    if link.can_accept_file_at(now, file_size) {
        Ok(())
    } else {
        Err(UploadError::QuotaExceeded)
    }
}

/// The whole admission decision for an upload of `file_size` bytes through
/// the link the token named (if any), at instant `now`.
pub fn admit_upload(link: Option<&UploadLink>, now: i64, file_size: i64) -> (r: Result<
    (),
    UploadError,
>)
    ensures
        r == match link {
            None => Err::<(), UploadError>(UploadError::LinkNotFound),
            Some(l) => if !l.spec_valid(now) {
                Err::<(), UploadError>(UploadError::LinkUnavailable)
            } else if !l.spec_accepts(now, file_size) {
                Err::<(), UploadError>(UploadError::QuotaExceeded)
            } else {
                Ok::<(), UploadError>(())
            },
        },
{
    match validate_link_for_upload(link, now) {
        Err(e) => Err(e),
        Ok(()) => match link {
            Some(l) => check_upload_size(l, now, file_size),
            None => Err(UploadError::LinkNotFound),
        },
    }
}

/// Why deleting an upload link is refused.
#[derive(Clone, Copy, Debug, PartialEq, Eq, Structural)]
pub enum DeleteLinkError {
    /// The link still owns uploaded files; they must be deleted first.
    HasUploads,
}

impl DeleteLinkError {
    /// The administrator-facing message for this refusal.
    pub fn message(&self) -> (m: &'static str)
        ensures
            m@
                == "Cannot delete link: it still has uploaded files. Please delete the files first."@,
    {
        "Cannot delete link: it still has uploaded files. Please delete the files first."
    }
}

/// The referential guard on link deletion: a link is deleted exactly when it
/// owns no uploaded files.
pub fn delete_link_decision(uploads_for_link: &Vec<FileUpload>) -> (r: Result<(), DeleteLinkError>)
    ensures
        r == if uploads_for_link@.len() == 0 {
            Ok::<(), DeleteLinkError>(())
        } else {
            Err::<(), DeleteLinkError>(DeleteLinkError::HasUploads)
        },
{
    if uploads_for_link.is_empty() {
        Ok(())
    } else {
        Err(DeleteLinkError::HasUploads)
    }
}

/// How many of `links` are usable at instant `now` (the dashboard's count of
/// active links).
pub fn count_valid_links(links: &Vec<UploadLink>, now: i64) -> (count: usize)
    ensures
        count == links@.filter(|l: UploadLink| l.spec_valid(now)).len(),
{
    let ghost pred = |l: UploadLink| l.spec_valid(now);
    let n = links.len();
    let mut count: usize = 0;
    let mut i: usize = 0;
    proof {
        reveal(Seq::filter);
        assert(links@.take(0) =~= Seq::<UploadLink>::empty());
    }
    while i < n
        invariant
            0 <= i <= n,
            n == links@.len(),
            pred == (|l: UploadLink| l.spec_valid(now)),
            count == links@.take(i as int).filter(pred).len(),
            count <= i,
        decreases n - i,
    {
        proof {
            reveal(Seq::filter);
            assert(links@.take(i + 1).drop_last() =~= links@.take(i as int));
            assert(links@.take(i + 1).last() == links@[i as int]);
        }
        if links[i].is_valid_at(now) {
            count = count + 1;
        }
        i = i + 1;
    }
    proof {
        assert(links@.take(n as int) =~= links@);
    }
    count
}

/// The first link of `links` carrying `id`, as the store would answer a
/// lookup by identifier.
pub open spec fn spec_find_link(links: Seq<UploadLink>, id: Seq<char>) -> Option<UploadLink>
    decreases links.len(),
{
    if links.len() == 0 {
        None
    } else if links.first().id@ == id {
        Some(links.first())
    } else {
        spec_find_link(links.drop_first(), id)
    }
}

/// Look a link up by identifier.
pub fn find_link_by_id<'a>(links: &'a Vec<UploadLink>, id: &str) -> (r: Option<&'a UploadLink>)
    ensures
        match r {
            Some(l) => spec_find_link(links@, id@) == Some(*l),
            None => spec_find_link(links@, id@) is None,
        },
{
    let n = links.len();
    let mut i: usize = 0;
    proof {
        assert(links@.skip(0) =~= links@);
    }
    while i < n
        invariant
            0 <= i <= n,
            n == links@.len(),
            spec_find_link(links@, id@) == spec_find_link(links@.skip(i as int), id@),
        decreases n - i,
    {
        if crate::text::str_eq(links[i].id.as_str(), id) {
            return Some(&links[i]);
        }
        proof {
            assert(links@.skip(i as int).drop_first() =~= links@.skip(i + 1));
        }
        i = i + 1;
    }
    None
}

/// The stand-in link shown for uploads whose link no longer exists.
pub fn placeholder_link(link_id: String, now: i64) -> (link: UploadLink)
    ensures
        link.id == link_id,
        link.token@ == "unknown"@,
        link.name@ == "Deleted Link"@,
        link.max_file_size == 0,
        link.remaining_quota == 0,
        link.expires_at is None,
        link.created_at == now,
        !link.is_active,
        link.wf(),
{
    UploadLink {
        id: link_id,
        token: String::from_str("unknown"),
        name: String::from_str("Deleted Link"),
        max_file_size: 0,
        remaining_quota: 0,
        expires_at: None,
        created_at: now,
        is_active: false,
    }
}

impl FileUpload {
    /// Where the file lives under the upload root:
    /// `upload_dir/guest_folder/stored_filename`.
    pub fn file_path(&self, upload_dir: &str) -> (r: String)
        ensures
            r@ == upload_dir@ + seq!['/'] + self.guest_folder@ + seq!['/']
                + self.stored_filename@,
    {
        let mut out = String::new();
        out.append(upload_dir);
        push_char(&mut out, '/');
        out.append(self.guest_folder.as_str());
        push_char(&mut out, '/');
        out.append(self.stored_filename.as_str());
        proof {
            assert(out@ =~= upload_dir@ + seq!['/'] + self.guest_folder@ + seq!['/']
                + self.stored_filename@);
        }
        out
    }
}

/// The Content-Disposition value a download answers with, carrying the
/// original filename.
pub fn content_disposition_header(filename: &str) -> (r: String)
    ensures
        r@ == "attachment; filename=\""@ + filename@ + "\""@,
{
    let mut out = String::new();
    out.append("attachment; filename=\"");
    out.append(filename);
    out.append("\"");
    proof {
        assert(out@ =~= "attachment; filename=\""@ + filename@ + "\""@);
    }
    out
}

/// The characters of `s` after the last occurrence of `c`; all of `s` when
/// `c` does not occur.
pub open spec fn spec_after_last(s: Seq<char>, c: char) -> Seq<char>
    decreases s.len(),
{
    if s.len() == 0 {
        s
    } else if s.last() == c {
        Seq::empty()
    } else {
        spec_after_last(s.drop_last(), c).push(s.last())
    }
}

/// When `c` does not occur in `s`, everything follows its last occurrence.
proof fn lemma_after_last_absent(s: Seq<char>, c: char)
    requires
        forall|j: int| 0 <= j < s.len() ==> s[j] != c,
    ensures
        spec_after_last(s, c) =~= s,
    decreases s.len(),
{
    if s.len() > 0 {
        lemma_after_last_absent(s.drop_last(), c);
    }
}

/// When the last occurrence of `c` in `s` stands at `p`, what follows it is
/// `s` past `p`.
proof fn lemma_after_last_at(s: Seq<char>, c: char, p: int)
    requires
        0 <= p < s.len(),
        s[p] == c,
        forall|j: int| p < j < s.len() ==> s[j] != c,
    ensures
        spec_after_last(s, c) =~= s.skip(p + 1),
    decreases s.len(),
{
    if p < s.len() - 1 {
        lemma_after_last_at(s.drop_last(), c, p);
        assert(s.drop_last().skip(p + 1).push(s.last()) =~= s.skip(p + 1));
    }
}

/// The extension of an uploaded filename: what follows the last '.' of the
/// final path component, where a '.' opening the component does not count.
/// Possibly empty, for a name ending in '.' or carrying no '.' at all.
pub open spec fn spec_file_extension(name: Seq<char>) -> Seq<char> {
    let comp = spec_after_last(name, '/');
    if exists|j: int| 1 <= j < comp.len() && comp[j] == '.' {
        spec_after_last(comp, '.')
    } else {
        Seq::empty()
    }
}

/// The name an uploaded file is stored under: the fresh opaque identifier,
/// keeping the original extension when there is one.
pub open spec fn spec_stored_filename(original: Seq<char>, fresh: Seq<char>) -> Seq<char> {
    let ext = spec_file_extension(original);
    if ext.len() == 0 {
        fresh
    } else {
        fresh + seq!['.'] + ext
    }
}

/// The position of the last '.' of `s` lying strictly after `start`, if any.
fn last_dot_after(s: &str, start: usize) -> (r: Option<usize>)
    requires
        start <= s@.len(),
    ensures
        match r {
            Some(d) => start < d < s@.len() && s@[d as int] == '.' && (forall|j: int|
                d < j < s@.len() ==> s@[j] != '.'),
            None => forall|j: int| start < j < s@.len() ==> s@[j] != '.',
        },
{
    let n = s.unicode_len();
    let mut k: usize = n;
    while k > 0 && k - 1 > start
        invariant
            k <= n,
            n == s@.len(),
            forall|j: int| k <= j < n ==> s@[j] != '.',
        decreases k,
    {
        if s.get_char(k - 1) == '.' {
            return Some(k - 1);
        }
        k = k - 1;
    }
    None
}

/// The name to store an upload under: `fresh`, with the original filename's
/// extension carried over when it has one.
pub fn stored_filename_for(original: &str, fresh: &str) -> (r: String)
    ensures
        r@ == spec_stored_filename(original@, fresh@),
{
    let n = original.unicode_len();
    let mut start: usize = n;
    while start > 0 && original.get_char(start - 1) != '/'
        invariant
            0 <= start <= n,
            n == original@.len(),
            forall|j: int| start <= j < n ==> original@[j] != '/',
        decreases start,
    {
        start = start - 1;
    }
    proof {
        if start == 0 {
            lemma_after_last_absent(original@, '/');
            assert(original@.skip(0) =~= original@);
        } else {
            lemma_after_last_at(original@, '/', start - 1);
        }
        assert(spec_after_last(original@, '/') =~= original@.skip(start as int));
    }
    let ghost comp = original@.skip(start as int);
    let mut out = String::new();
    out.append(fresh);
    match last_dot_after(original, start) {
        Some(d) => {
            proof {
                assert(comp[d - start] == original@[d as int]);
                assert(1 <= d - start < comp.len() && comp[d - start] == '.');
                assert(forall|j: int| d - start < j < comp.len() ==> comp[j] != '.');
                lemma_after_last_at(comp, '.', d - start);
                assert(comp.skip(d - start + 1) =~= original@.skip(d + 1));
                assert(spec_file_extension(original@) == original@.skip(d + 1));
            }
            if d + 1 < n {
                push_char(&mut out, '.');
                let ext = original.substring_char(d + 1, n);
                out.append(ext);
                proof {
                    assert(original@.subrange(d + 1, n as int) =~= original@.skip(d + 1));
                    assert(out@ =~= fresh@ + seq!['.'] + spec_file_extension(original@));
                }
            } else {
                proof {
                    assert(original@.skip(d + 1) =~= Seq::<char>::empty());
                    assert(out@ =~= fresh@);
                }
            }
        },
        None => {
            proof {
                assert(forall|j: int| 1 <= j < comp.len() ==> comp[j] == original@[
                    j + start
                ] && comp[j] != '.');
                assert(spec_file_extension(original@).len() == 0);
                assert(out@ =~= fresh@);
            }
        },
    }
    out
}

} // verus!
