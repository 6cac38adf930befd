//! The data each page of the service is rendered from. Rendering HTML is
//! the outer layer's affair; these are the values it shows, and the one
//! computation a page performs — the review page's running total — is
//! proved here.

use crate::listing::UploadGroup;
use crate::models::{FileUpload, UploadLink};
use crate::size_format::{format_file_size, spec_format_file_size};
use vstd::prelude::*;

verus! {

/// The landing page.
pub struct IndexTemplate;

/// The guest upload page: the link it serves and the outcome of the last
/// attempt, if any.
pub struct UploadTemplate {
    pub link: UploadLink,
    pub error: Option<String>,
    pub success: Option<String>,
}

/// The login page.
pub struct LoginTemplate {
    pub error: Option<String>,
}

/// The dashboard: whom it greets and its two counts.
pub struct AdminDashboardTemplate {
    pub username: String,
    pub active_links: usize,
    pub total_uploads: usize,
}

/// The link list page.
pub struct AdminLinksTemplate {
    pub links: Vec<UploadLink>,
    pub username: String,
    pub error: Option<String>,
}

/// The link creation page.
pub struct CreateLinkTemplate {
    pub error: Option<String>,
    pub username: String,
}

/// The uploads review page: received files grouped by link.
pub struct AdminUploadsTemplate {
    pub grouped_uploads: Vec<UploadGroup>,
    pub username: String,
}

/// The password change page.
pub struct ChangePasswordTemplate {
    pub error: Option<String>,
    pub success: Option<String>,
    pub username: String,
}

/// The size of a list of files, in bytes.
pub open spec fn spec_files_total(files: Seq<FileUpload>) -> int
    decreases files.len(),
{
    if files.len() == 0 {
        0
    } else {
        spec_files_total(files.drop_last()) + files.last().file_size
    }
}

/// The size of all files of all groups, in bytes.
pub open spec fn spec_groups_total(groups: Seq<UploadGroup>) -> int
    decreases groups.len(),
{
    if groups.len() == 0 {
        0
    } else {
        spec_groups_total(groups.drop_last()) + spec_files_total(groups.last().files@)
    }
}

/// Every file of every group has a non-negative size.
pub open spec fn spec_sizes_nonneg(groups: Seq<UploadGroup>) -> bool {
    forall|g: int, i: int|
        0 <= g < groups.len() && 0 <= i < (#[trigger] groups[g]).files@.len() ==> (
        #[trigger] groups[g].files@[i]).file_size >= 0
}

/// A list of files of non-negative sizes has a non-negative total.
proof fn lemma_files_total_nonneg(files: Seq<FileUpload>)
    requires
        forall|i: int| 0 <= i < files.len() ==> (#[trigger] files[i]).file_size >= 0,
    ensures
        spec_files_total(files) >= 0,
    decreases files.len(),
{
    if files.len() > 0 {
        lemma_files_total_nonneg(files.drop_last());
    }
}

/// With non-negative sizes, a prefix never outweighs the whole list.
proof fn lemma_files_total_prefix(files: Seq<FileUpload>, i: int)
    requires
        forall|j: int| 0 <= j < files.len() ==> (#[trigger] files[j]).file_size >= 0,
        0 <= i <= files.len(),
    ensures
        spec_files_total(files.take(i)) <= spec_files_total(files),
    decreases files.len() - i,
{
    if i < files.len() {
        assert(files.take(i + 1).drop_last() =~= files.take(i));
        lemma_files_total_prefix(files, i + 1);
    } else {
        assert(files.take(i) =~= files);
    }
}

/// With non-negative sizes, every group total is non-negative.
proof fn lemma_groups_total_nonneg(groups: Seq<UploadGroup>)
    requires
        spec_sizes_nonneg(groups),
    ensures
        spec_groups_total(groups) >= 0,
    decreases groups.len(),
{
    if groups.len() > 0 {
        assert(spec_sizes_nonneg(groups.drop_last()));
        lemma_groups_total_nonneg(groups.drop_last());
        lemma_files_total_nonneg(groups.last().files@);
    }
}

/// With non-negative sizes, a prefix of groups never outweighs the whole.
proof fn lemma_groups_total_prefix(groups: Seq<UploadGroup>, g: int)
    requires
        spec_sizes_nonneg(groups),
        0 <= g <= groups.len(),
    ensures
        spec_groups_total(groups.take(g)) <= spec_groups_total(groups),
    decreases groups.len() - g,
{
    if g < groups.len() {
        assert(groups.take(g + 1).drop_last() =~= groups.take(g));
        lemma_files_total_nonneg(groups[g].files@);
        lemma_groups_total_prefix(groups, g + 1);
    } else {
        assert(groups.take(g) =~= groups);
    }
}

impl AdminUploadsTemplate {
    /// The bytes received over all listed uploads.
    pub fn total_size(&self) -> (total: i64)
        requires
            spec_sizes_nonneg(self.grouped_uploads@),
            spec_groups_total(self.grouped_uploads@) <= i64::MAX,
        ensures
            total == spec_groups_total(self.grouped_uploads@),
            total >= 0,
    {
        let ghost all = self.grouped_uploads@;
        let n = self.grouped_uploads.len();
        let mut total: i64 = 0;
        let mut g: usize = 0;
        proof {
            assert(all.take(0) =~= Seq::<UploadGroup>::empty());
        }
        while g < n
            invariant
                0 <= g <= n,
                n == all.len(),
                all == self.grouped_uploads@,
                spec_sizes_nonneg(all),
                spec_groups_total(all) <= i64::MAX,
                total == spec_groups_total(all.take(g as int)),
                total >= 0,
            decreases n - g,
        {
            let files = &self.grouped_uploads[g].files;
            let m = files.len();
            let mut i: usize = 0;
            proof {
                assert(files@.take(0) =~= Seq::<FileUpload>::empty());
                lemma_groups_total_nonneg(all.take(g as int));
            }
            while i < m
                invariant
                    0 <= i <= m,
                    0 <= g < n,
                    n == all.len(),
                    all == self.grouped_uploads@,
                    m == files@.len(),
                    files@ == all[g as int].files@,
                    spec_sizes_nonneg(all),
                    spec_groups_total(all) <= i64::MAX,
                    total == spec_groups_total(all.take(g as int)) + spec_files_total(
                        files@.take(i as int),
                    ),
                    total >= 0,
                decreases m - i,
            {
                proof {
                    assert(files@.take(i + 1).drop_last() =~= files@.take(i as int));
                    assert(files@.take(i + 1).last() == files@[i as int]);
                    assert(all.take(g + 1).drop_last() =~= all.take(g as int));
                    assert(all.take(g + 1).last() == all[g as int]);
                    lemma_files_total_prefix(files@, i + 1);
                    lemma_groups_total_prefix(all, g + 1);
                    assert(spec_groups_total(all.take(g as int)) + spec_files_total(
                        files@.take(i + 1),
                    ) <= spec_groups_total(all.take(g + 1)));
                }
                total = total + files[i].file_size;
                i = i + 1;
            }
            proof {
                assert(files@.take(m as int) =~= files@);
                assert(all.take(g + 1).drop_last() =~= all.take(g as int));
                assert(all.take(g + 1).last() == all[g as int]);
            }
            g = g + 1;
        }
        proof {
            assert(all.take(n as int) =~= all);
        }
        total
    }

    /// The total size, rendered for display.
    pub fn formatted_total_size(&self) -> (r: String)
        requires
            spec_sizes_nonneg(self.grouped_uploads@),
            spec_groups_total(self.grouped_uploads@) <= i64::MAX,
        ensures
            r@ == spec_format_file_size(spec_groups_total(self.grouped_uploads@)),
    {
        format_file_size(self.total_size())
    }
}

} // verus!
