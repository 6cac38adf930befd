//! The review page: grouping, ordering, placeholders, totals, the deletion
//! guard, and the names and paths uploads are served under.

use needadrop::listing::group_uploads;
use needadrop::models::{FileUpload, UploadLink};
use needadrop::templates::AdminUploadsTemplate;
use needadrop::uploads::{
    content_disposition_header, count_valid_links, delete_link_decision, find_link_by_id,
    stored_filename_for, DeleteLinkError,
};

const NOW: i64 = 1_700_000_000_000;

fn link(id: &str, created_at: i64) -> UploadLink {
    UploadLink {
        id: id.to_string(),
        token: format!("tok-{}", id),
        name: format!("name-{}", id),
        max_file_size: 1000,
        remaining_quota: 1000,
        expires_at: None,
        created_at,
        is_active: true,
    }
}

fn upload(id: &str, link_id: &str, size: i64, uploaded_at: i64) -> FileUpload {
    FileUpload {
        id: id.to_string(),
        link_id: link_id.to_string(),
        original_filename: format!("{}.txt", id),
        stored_filename: format!("{}.stored", id),
        file_size: size,
        mime_type: "text/plain".to_string(),
        uploaded_at,
        guest_folder: format!("folder-{}", id),
    }
}

#[test]
fn uploads_are_grouped_by_link_newest_first() {
    let links = vec![link("a", 100), link("b", 200)];
    let uploads = vec![
        upload("u1", "a", 10, 1000),
        upload("u2", "b", 20, 3000),
        upload("u3", "a", 30, 2000),
    ];
    let groups = group_uploads(&links, &uploads, NOW);
    assert_eq!(groups.len(), 2);
    // link "b" was created later, so its group comes first
    assert_eq!(groups[0].link.id, "b");
    assert_eq!(groups[1].link.id, "a");
    assert_eq!(groups[0].files.len(), 1);
    assert_eq!(groups[0].files[0].id, "u2");
    // within a group the newest upload comes first
    assert_eq!(groups[1].files.len(), 2);
    assert_eq!(groups[1].files[0].id, "u3");
    assert_eq!(groups[1].files[1].id, "u1");
    // the stored link rides along whole
    assert_eq!(groups[0].link.name, "name-b");
    assert_eq!(groups[0].link.token, "tok-b");
}

#[test]
fn a_deleted_link_gets_a_placeholder() {
    let links = vec![link("a", 100)];
    let uploads = vec![upload("u1", "gone", 10, 1000)];
    let groups = group_uploads(&links, &uploads, NOW);
    assert_eq!(groups.len(), 1);
    let g = &groups[0];
    assert_eq!(g.link.id, "gone");
    assert_eq!(g.link.token, "unknown");
    assert_eq!(g.link.name, "Deleted Link");
    assert_eq!(g.link.max_file_size, 0);
    assert_eq!(g.link.remaining_quota, 0);
    assert_eq!(g.link.expires_at, None);
    assert_eq!(g.link.created_at, NOW);
    assert!(!g.link.is_active);
    assert_eq!(g.files.len(), 1);
}

#[test]
fn no_uploads_means_no_groups() {
    let links = vec![link("a", 100)];
    let groups = group_uploads(&links, &vec![], NOW);
    assert!(groups.is_empty());
}

#[test]
fn review_page_totals() {
    let links = vec![link("a", 100), link("b", 200)];
    let uploads = vec![
        upload("u1", "a", 1000, 1000),
        upload("u2", "b", 500, 3000),
        upload("u3", "a", 36, 2000),
    ];
    let page = AdminUploadsTemplate {
        grouped_uploads: group_uploads(&links, &uploads, NOW),
        username: "admin".to_string(),
    };
    assert_eq!(page.total_size(), 1536);
    assert_eq!(page.formatted_total_size(), "1.5 KB");
}

#[test]
fn deletion_is_blocked_by_remaining_uploads() {
    let occupied = vec![upload("u1", "a", 10, 1000)];
    assert_eq!(delete_link_decision(&occupied), Err(DeleteLinkError::HasUploads));
    assert_eq!(delete_link_decision(&vec![]), Ok(()));
    assert_eq!(
        DeleteLinkError::HasUploads.message(),
        "Cannot delete link: it still has uploaded files. Please delete the files first."
    );
}

#[test]
fn dashboard_counts_only_valid_links() {
    let links = vec![
        link("a", 100),
        UploadLink { is_active: false, ..link("b", 100) },
        UploadLink { remaining_quota: 0, ..link("c", 100) },
        UploadLink { expires_at: Some(NOW - 1), ..link("d", 100) },
        link("e", 100),
    ];
    assert_eq!(count_valid_links(&links, NOW), 2);
}

#[test]
fn links_are_found_by_identifier() {
    let links = vec![link("a", 100), link("b", 200)];
    assert_eq!(find_link_by_id(&links, "b").map(|l| l.created_at), Some(200));
    assert!(find_link_by_id(&links, "zzz").is_none());
}

#[test]
fn stored_names_keep_the_extension() {
    assert_eq!(stored_filename_for("photo.jpg", "fresh"), "fresh.jpg");
    assert_eq!(stored_filename_for("archive.tar.gz", "fresh"), "fresh.gz");
    assert_eq!(stored_filename_for("noext", "fresh"), "fresh");
    assert_eq!(stored_filename_for(".bashrc", "fresh"), "fresh");
    assert_eq!(stored_filename_for("trailing.", "fresh"), "fresh");
    assert_eq!(stored_filename_for("dir/report.pdf", "fresh"), "fresh.pdf");
    assert_eq!(stored_filename_for("a.b/c", "fresh"), "fresh");
    assert_eq!(stored_filename_for("", "fresh"), "fresh");
}

#[test]
fn files_are_served_from_their_guest_folder() {
    let u = upload("u1", "a", 10, 1000);
    assert_eq!(u.file_path("uploads"), "uploads/folder-u1/u1.stored");
    assert_eq!(
        content_disposition_header("report final.pdf"),
        "attachment; filename=\"report final.pdf\""
    );
}
