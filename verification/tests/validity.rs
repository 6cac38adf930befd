//! Link validity and admission predicates, over all combinations of the
//! three conditions.

use needadrop::models::UploadLink;

fn link(active: bool, quota: i64, expires_at: Option<i64>) -> UploadLink {
    UploadLink {
        id: "link-1".to_string(),
        token: "tok-1".to_string(),
        name: "test".to_string(),
        max_file_size: 1000,
        remaining_quota: quota,
        expires_at,
        created_at: 50,
        is_active: active,
    }
}

const NOW: i64 = 100;

#[test]
fn expiry_is_only_about_the_expiry_field() {
    assert!(!link(true, 10, None).is_expired_at(NOW));
    assert!(!link(true, 10, Some(NOW)).is_expired_at(NOW));
    assert!(!link(true, 10, Some(NOW + 1)).is_expired_at(NOW));
    assert!(link(true, 10, Some(NOW - 1)).is_expired_at(NOW));
}

#[test]
fn validity_needs_all_three_conditions() {
    let past = Some(NOW - 1);
    let future = Some(NOW + 1);
    // all combinations of (active, quota > 0, unexpired)
    assert!(link(true, 10, future).is_valid_at(NOW));
    assert!(link(true, 10, None).is_valid_at(NOW));
    assert!(!link(false, 10, future).is_valid_at(NOW));
    assert!(!link(true, 0, future).is_valid_at(NOW));
    assert!(!link(true, 10, past).is_valid_at(NOW));
    assert!(!link(false, 0, future).is_valid_at(NOW));
    assert!(!link(false, 10, past).is_valid_at(NOW));
    assert!(!link(true, 0, past).is_valid_at(NOW));
    assert!(!link(false, 0, past).is_valid_at(NOW));
    // zero quota alone invalidates even a fresh, active link
    assert!(!link(true, 0, None).is_valid_at(NOW));
    // inactive alone invalidates
    assert!(!link(false, 1000, None).is_valid_at(NOW));
}

#[test]
fn admission_boundary_is_exact() {
    let l = link(true, 100, None);
    assert!(l.can_accept_file_at(NOW, 99));
    assert!(l.can_accept_file_at(NOW, 100)); // boundary: size == remaining_quota
    assert!(!l.can_accept_file_at(NOW, 101)); // one past the boundary
}

#[test]
fn admission_needs_a_valid_link() {
    // an invalid link accepts nothing, whatever the size
    assert!(!link(false, 100, None).can_accept_file_at(NOW, 10));
    assert!(!link(true, 100, Some(NOW - 1)).can_accept_file_at(NOW, 10));
    // quota zero: the boundary size == remaining_quota == 0 is still refused,
    // because the link itself is not valid
    assert!(!link(true, 0, None).can_accept_file_at(NOW, 0));
}

#[test]
fn wall_clock_validity_agrees_for_unexpiring_links() {
    // the wall-clock variants decide from the same fields when no expiry is set
    assert!(link(true, 10, None).is_valid());
    assert!(!link(false, 10, None).is_valid());
    assert!(!link(true, 0, None).is_valid());
    assert!(!link(true, 10, None).is_expired());
    // an expiry far in the past is past for the real clock too
    assert!(link(true, 10, Some(1)).is_expired());
    assert!(!link(true, 10, Some(i64::MAX)).is_expired());
    assert!(link(true, 10, None).can_accept_file(10));
    assert!(!link(true, 10, None).can_accept_file(11));
}
