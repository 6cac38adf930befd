//! The administrator's review of received files: uploads grouped by the
//! link they came through, groups ordered newest link first, and the files
//! of each group ordered newest upload first. A group whose link has been
//! deleted is shown under a stand-in link.

use crate::models::{FileUpload, UploadLink};
use crate::text::str_eq;
use crate::uploads::{find_link_by_id, placeholder_link, spec_find_link};
use vstd::prelude::*;
use vstd::relations::sorted_by;

verus! {

broadcast use {vstd::seq_lib::group_to_multiset_ensures, vstd::multiset::group_multiset_axioms};

/// One group of the review page: an upload link and the files received
/// through it.
pub struct UploadGroup {
    pub link: UploadLink,
    pub files: Vec<FileUpload>,
}

/// Newest upload first.
pub open spec fn spec_newer_file_first(a: FileUpload, b: FileUpload) -> bool {
    a.uploaded_at >= b.uploaded_at
}

/// Newest link first.
pub open spec fn spec_newer_group_first(a: UploadGroup, b: UploadGroup) -> bool {
    a.link.created_at >= b.link.created_at
}

/// The order files are listed in, as a relation.
pub open spec fn spec_file_order() -> spec_fn(FileUpload, FileUpload) -> bool {
    |a: FileUpload, b: FileUpload| spec_newer_file_first(a, b)
}

/// The order groups are listed in, as a relation.
pub open spec fn spec_group_order() -> spec_fn(UploadGroup, UploadGroup) -> bool {
    |a: UploadGroup, b: UploadGroup| spec_newer_group_first(a, b)
}

/// The files of `uploads` that came through the link carrying `id`.
pub open spec fn spec_uploads_for(uploads: Seq<FileUpload>, id: Seq<char>) -> Seq<FileUpload> {
    uploads.filter(|f: FileUpload| f.link_id@ == id)
}

/// Whether some entry of `ids` holds the characters `id`.
pub open spec fn spec_has_id(ids: Seq<String>, id: Seq<char>) -> bool {
    exists|j: int| 0 <= j < ids.len() && ids[j]@ == id
}

/// Whether some upload of `uploads` came through the link carrying `id`.
pub open spec fn spec_has_link_id(uploads: Seq<FileUpload>, id: Seq<char>) -> bool {
    exists|i: int| 0 <= i < uploads.len() && uploads[i].link_id@ == id
}

/// Whether some group of `groups` is for the link carrying `id`.
pub open spec fn spec_group_for(groups: Seq<UploadGroup>, id: Seq<char>) -> bool {
    exists|g: int| 0 <= g < groups.len() && groups[g].link.id@ == id
}

/// The link a group shows: the stored link with the group's identifier when
/// one exists, else the stand-in for a deleted link.
pub open spec fn spec_group_link_ok(links: Seq<UploadLink>, link: UploadLink, now: i64) -> bool {
    match spec_find_link(links, link.id@) {
        Some(l) => link == l,
        None => link.token@ == "unknown"@ && link.name@ == "Deleted Link"@ && link.max_file_size
            == 0 && link.remaining_quota == 0 && link.expires_at is None && link.created_at == now
            && !link.is_active,
    }
}

/// A link found by identifier carries that identifier.
proof fn lemma_find_link_id(links: Seq<UploadLink>, id: Seq<char>)
    ensures
        spec_find_link(links, id) matches Some(l) ==> l.id@ == id,
    decreases links.len(),
{
    if links.len() > 0 && links.first().id@ != id {
        lemma_find_link_id(links.drop_first(), id);
    }
}

/// Whether some entry of `ids` holds the characters of `id`.
fn contains_id(ids: &Vec<String>, id: &str) -> (r: bool)
    ensures
        r == spec_has_id(ids@, id@),
{
    let n = ids.len();
    let mut j: usize = 0;
    while j < n
        invariant
            0 <= j <= n,
            n == ids@.len(),
            forall|k: int| 0 <= k < j ==> ids@[k]@ != id@,
        decreases n - j,
    {
        if str_eq(ids[j].as_str(), id) {
            proof {
                assert(0 <= j < ids@.len() && ids@[j as int]@ == id@);
            }
            return true;
        }
        j = j + 1;
    }
    false
}

/// The distinct link identifiers of `uploads`: every upload's link is
/// listed, nothing else is, and no identifier twice.
fn distinct_link_ids(uploads: &Vec<FileUpload>) -> (ids: Vec<String>)
    ensures
        forall|a: int, b: int| 0 <= a < b < ids@.len() ==> ids@[a]@ != ids@[b]@,
        forall|i: int| 0 <= i < uploads@.len() ==> spec_has_id(
            ids@,
            (#[trigger] uploads@[i]).link_id@,
        ),
        forall|b: int| 0 <= b < ids@.len() ==> spec_has_link_id(uploads@, (#[trigger] ids@[b])@),
{
    let n = uploads.len();
    let mut ids: Vec<String> = Vec::new();
    let mut i: usize = 0;
    while i < n
        invariant
            0 <= i <= n,
            n == uploads@.len(),
            forall|a: int, b: int| 0 <= a < b < ids@.len() ==> ids@[a]@ != ids@[b]@,
            forall|a: int| 0 <= a < i ==> spec_has_id(ids@, (#[trigger] uploads@[a]).link_id@),
            forall|b: int| 0 <= b < ids@.len() ==> spec_has_link_id(
                uploads@,
                (#[trigger] ids@[b])@,
            ),
        decreases n - i,
    {
        let ghost old_ids = ids@;
        if !contains_id(&ids, uploads[i].link_id.as_str()) {
            ids.push(uploads[i].link_id.clone());
            proof {
                assert forall|a: int| 0 <= a < i implies spec_has_id(
                    ids@,
                    (#[trigger] uploads@[a]).link_id@,
                ) by {
                    let j = choose|j: int|
                        0 <= j < old_ids.len() && old_ids[j]@ == uploads@[a].link_id@;
                    assert(ids@[j]@ == uploads@[a].link_id@);
                }
                assert(ids@[ids@.len() - 1]@ == uploads@[i as int].link_id@);
            }
        } else {
            proof {
                assert(spec_has_id(ids@, uploads@[i as int].link_id@));
            }
        }
        i = i + 1;
    }
    ids
}

/// The files of `uploads` that came through the link carrying `id`.
fn uploads_with_link_id(uploads: &Vec<FileUpload>, id: &str) -> (r: Vec<FileUpload>)
    ensures
        r@ == spec_uploads_for(uploads@, id@),
{
    let ghost pred = |f: FileUpload| f.link_id@ == id@;
    let n = uploads.len();
    let mut r: Vec<FileUpload> = Vec::new();
    let mut i: usize = 0;
    proof {
        reveal(Seq::filter);
        assert(uploads@.take(0) =~= Seq::<FileUpload>::empty());
    }
    while i < n
        invariant
            0 <= i <= n,
            n == uploads@.len(),
            pred == (|f: FileUpload| f.link_id@ == id@),
            r@ == uploads@.take(i as int).filter(pred),
        decreases n - i,
    {
        proof {
            reveal(Seq::filter);
            assert(uploads@.take(i + 1).drop_last() =~= uploads@.take(i as int));
            assert(uploads@.take(i + 1).last() == uploads@[i as int]);
        }
        if str_eq(uploads[i].link_id.as_str(), id) {
            r.push(uploads[i].duplicate());
        }
        i = i + 1;
    }
    proof {
        assert(uploads@.take(n as int) =~= uploads@);
    }
    r
}

/// Order files newest first: repeatedly move the newest remaining file over.
/// The result is a sorted permutation of the input.
fn sort_files_newest_first(v: Vec<FileUpload>) -> (r: Vec<FileUpload>)
    ensures
        sorted_by(r@, spec_file_order()),
        r@.to_multiset() == v@.to_multiset(),
{
    let mut src = v;
    let mut out: Vec<FileUpload> = Vec::new();
    proof {
        assert(out@.to_multiset().add(src@.to_multiset()) =~= src@.to_multiset());
    }
    while src.len() > 0
        invariant
            out@.to_multiset().add(src@.to_multiset()) == v@.to_multiset(),
            sorted_by(out@, spec_file_order()),
            forall|i: int, j: int| 0 <= i < out@.len() && 0 <= j < src@.len()
                ==> spec_newer_file_first(out@[i], src@[j]),
        decreases src@.len(),
    {
        let mut mi: usize = 0;
        let mut k: usize = 1;
        while k < src.len()
            invariant
                0 < src@.len(),
                mi < src@.len(),
                1 <= k <= src@.len(),
                forall|j: int| 0 <= j < k ==> src@[mi as int].uploaded_at >= src@[j].uploaded_at,
            decreases src@.len() - k,
        {
            if src[k].uploaded_at > src[mi].uploaded_at {
                mi = k;
            }
            k = k + 1;
        }
        let ghost src_before = src@;
        let ghost out_before = out@;
        let x = src.remove(mi);
        proof {
            src_before.remove_ensures(mi as int);
            assert(src_before.contains(x));
        }
        out.push(x);
        proof {
            assert(out@ == out_before.push(x));
            assert(out@.to_multiset() =~= out_before.to_multiset().insert(x));
            assert(src@.to_multiset() =~= src_before.to_multiset().remove(x));
            assert(src_before.to_multiset().count(x) > 0);
            assert(out@.to_multiset().add(src@.to_multiset()) =~= out_before.to_multiset().add(
                src_before.to_multiset(),
            ));
            assert forall|i: int, j: int|
                0 <= i < out@.len() && 0 <= j < src@.len() implies spec_newer_file_first(
                out@[i],
                src@[j],
            ) by {
                assert(src@[j] == if j < mi {
                    src_before[j]
                } else {
                    src_before[j + 1]
                });
                if i < out@.len() - 1 {
                    assert(out@[i] == out_before[i]);
                } else {
                    assert(out@[i] == x);
                }
            }
            assert forall|i: int, j: int| 0 <= i < j < out@.len() implies spec_file_order()(
                out@[i],
                out@[j],
            ) by {
                if j < out@.len() - 1 {
                    assert(out_before[i] == out@[i] && out_before[j] == out@[j]);
                } else {
                    assert(out@[j] == x);
                }
            }
        }
    }
    proof {
        assert(src@.to_multiset().len() == 0);
        assert(out@.to_multiset().add(src@.to_multiset()) =~= out@.to_multiset());
    }
    out
}

/// Order groups newest link first. Group identifiers must be distinct; the
/// result is a sorted permutation holding exactly the input's groups, its
/// identifiers still distinct.
fn sort_groups_newest_first(v: Vec<UploadGroup>) -> (r: Vec<UploadGroup>)
    requires
        forall|i: int, j: int| 0 <= i < j < v@.len() ==> v@[i].link.id@ != v@[j].link.id@,
    ensures
        sorted_by(r@, spec_group_order()),
        r@.to_multiset() == v@.to_multiset(),
        forall|g: int| 0 <= g < r@.len() ==> v@.contains(#[trigger] r@[g]),
        forall|g: int| 0 <= g < v@.len() ==> r@.contains(#[trigger] v@[g]),
        forall|i: int, j: int| 0 <= i < j < r@.len() ==> r@[i].link.id@ != r@[j].link.id@,
{
    let mut src = v;
    let mut out: Vec<UploadGroup> = Vec::new();
    proof {
        assert(out@.to_multiset().add(src@.to_multiset()) =~= src@.to_multiset());
    }
    while src.len() > 0
        invariant
            out@.to_multiset().add(src@.to_multiset()) == v@.to_multiset(),
            sorted_by(out@, spec_group_order()),
            forall|i: int, j: int| 0 <= i < out@.len() && 0 <= j < src@.len()
                ==> spec_newer_group_first(out@[i], src@[j]),
            forall|i: int, j: int| 0 <= i < j < out@.len() ==> out@[i].link.id@
                != out@[j].link.id@,
            forall|i: int, j: int| 0 <= i < j < src@.len() ==> src@[i].link.id@
                != src@[j].link.id@,
            forall|i: int, j: int| 0 <= i < out@.len() && 0 <= j < src@.len() ==> out@[i].link.id@
                != src@[j].link.id@,
            forall|i: int| 0 <= i < out@.len() ==> v@.contains(#[trigger] out@[i]),
            forall|j: int| 0 <= j < src@.len() ==> v@.contains(#[trigger] src@[j]),
        decreases src@.len(),
    {
        let mut mi: usize = 0;
        let mut k: usize = 1;
        while k < src.len()
            invariant
                0 < src@.len(),
                mi < src@.len(),
                1 <= k <= src@.len(),
                forall|j: int| 0 <= j < k ==> src@[mi as int].link.created_at
                    >= src@[j].link.created_at,
            decreases src@.len() - k,
        {
            if src[k].link.created_at > src[mi].link.created_at {
                mi = k;
            }
            k = k + 1;
        }
        let ghost src_before = src@;
        let ghost out_before = out@;
        let x = src.remove(mi);
        proof {
            src_before.remove_ensures(mi as int);
            assert(src_before.contains(x));
        }
        out.push(x);
        proof {
            assert(out@ == out_before.push(x));
            assert(out@.to_multiset() =~= out_before.to_multiset().insert(x));
            assert(src@.to_multiset() =~= src_before.to_multiset().remove(x));
            assert(src_before.to_multiset().count(x) > 0);
            assert(out@.to_multiset().add(src@.to_multiset()) =~= out_before.to_multiset().add(
                src_before.to_multiset(),
            ));
            assert(forall|j: int| 0 <= j < src@.len() ==> src@[j] == if j < mi {
                src_before[j]
            } else {
                src_before[j + 1]
            });
            assert forall|i: int, j: int| 0 <= i < j < out@.len() implies spec_group_order()(
                out@[i],
                out@[j],
            ) by {
                if j < out@.len() - 1 {
                    assert(out_before[i] == out@[i] && out_before[j] == out@[j]);
                } else {
                    assert(out@[j] == x);
                }
            }
        }
    }
    proof {
        assert(src@.to_multiset().len() == 0);
        assert(out@.to_multiset().add(src@.to_multiset()) =~= out@.to_multiset());
        assert forall|g: int| 0 <= g < v@.len() implies out@.contains(#[trigger] v@[g]) by {
            assert(v@.contains(v@[g]));
            assert(v@.to_multiset().count(v@[g]) > 0);
            assert(out@.to_multiset().count(v@[g]) > 0);
        }
    }
    out
}

/// Group `uploads` by the link they came through, for the review page:
/// one group per link identifier, each group's files exactly the uploads of
/// that link (newest first), each group under its stored link or, when that
/// link is gone, under the stand-in; groups themselves newest link first.
pub fn group_uploads(links: &Vec<UploadLink>, uploads: &Vec<FileUpload>, now: i64) -> (groups: Vec<
    UploadGroup,
>)
    ensures
        sorted_by(groups@, spec_group_order()),
        forall|g: int| 0 <= g < groups@.len() ==> sorted_by(
            (#[trigger] groups@[g]).files@,
            spec_file_order(),
        ),
        forall|g: int| 0 <= g < groups@.len() ==> (#[trigger] groups@[g]).files@.to_multiset()
            == spec_uploads_for(uploads@, groups@[g].link.id@).to_multiset(),
        forall|g: int, h: int| 0 <= g < h < groups@.len() ==> groups@[g].link.id@
            != groups@[h].link.id@,
        forall|i: int| 0 <= i < uploads@.len() ==> spec_group_for(
            groups@,
            (#[trigger] uploads@[i]).link_id@,
        ),
        forall|g: int| 0 <= g < groups@.len() ==> spec_has_link_id(
            uploads@,
            (#[trigger] groups@[g]).link.id@,
        ),
        forall|g: int| 0 <= g < groups@.len() ==> spec_group_link_ok(
            links@,
            (#[trigger] groups@[g]).link,
            now,
        ),
{
    let ids = distinct_link_ids(uploads);
    let m = ids.len();
    let mut raw: Vec<UploadGroup> = Vec::new();
    let mut k: usize = 0;
    while k < m
        invariant
            0 <= k <= m,
            m == ids@.len(),
            raw@.len() == k,
            forall|a: int, b: int| 0 <= a < b < ids@.len() ==> ids@[a]@ != ids@[b]@,
            forall|b: int| 0 <= b < ids@.len() ==> spec_has_link_id(
                uploads@,
                (#[trigger] ids@[b])@,
            ),
            forall|g: int| 0 <= g < k ==> (#[trigger] raw@[g]).link.id@ == ids@[g]@,
            forall|g: int| 0 <= g < k ==> sorted_by((#[trigger] raw@[g]).files@, spec_file_order()),
            forall|g: int| 0 <= g < k ==> (#[trigger] raw@[g]).files@.to_multiset()
                == spec_uploads_for(uploads@, raw@[g].link.id@).to_multiset(),
            forall|g: int| 0 <= g < k ==> spec_group_link_ok(links@, (#[trigger] raw@[g]).link, now),
        decreases m - k,
    {
        let files = uploads_with_link_id(uploads, ids[k].as_str());
        let files = sort_files_newest_first(files);
        let link = match find_link_by_id(links, ids[k].as_str()) {
            Some(l) => {
                proof {
                    lemma_find_link_id(links@, ids@[k as int]@);
                }
                l.duplicate()
            },
            None => placeholder_link(ids[k].clone(), now),
        };
        proof {
            assert(link.id@ == ids@[k as int]@);
            assert(spec_group_link_ok(links@, link, now));
        }
        raw.push(UploadGroup { link, files });
        k = k + 1;
    }
    proof {
        assert forall|i: int, j: int| 0 <= i < j < raw@.len() implies raw@[i].link.id@
            != raw@[j].link.id@ by {
            assert(raw@[i].link.id@ == ids@[i]@ && raw@[j].link.id@ == ids@[j]@);
        }
    }
    let groups = sort_groups_newest_first(raw);
    proof {
        assert forall|g: int| 0 <= g < groups@.len() implies sorted_by(
            (#[trigger] groups@[g]).files@,
            spec_file_order(),
        ) && groups@[g].files@.to_multiset() == spec_uploads_for(
            uploads@,
            groups@[g].link.id@,
        ).to_multiset() && spec_has_link_id(uploads@, groups@[g].link.id@) && spec_group_link_ok(
            links@,
            groups@[g].link,
            now,
        ) by {
            assert(raw@.contains(groups@[g]));
            let i = choose|i: int| 0 <= i < raw@.len() && raw@[i] == groups@[g];
            assert(raw@[i].link.id@ == ids@[i]@);
        }
        assert forall|i: int| 0 <= i < uploads@.len() implies spec_group_for(
            groups@,
            (#[trigger] uploads@[i]).link_id@,
        ) by {
            let j = choose|j: int| 0 <= j < ids@.len() && ids@[j]@ == uploads@[i].link_id@;
            assert(raw@[j].link.id@ == uploads@[i].link_id@);
            assert(groups@.contains(raw@[j]));
            let g = choose|g: int| 0 <= g < groups@.len() && groups@[g] == raw@[j];
            assert(groups@[g].link.id@ == uploads@[i].link_id@);
        }
    }
    groups
}

} // verus!
