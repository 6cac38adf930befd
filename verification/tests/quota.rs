//! Quota bookkeeping: the round trip from minting through an accepted
//! upload, the conditional decrement, and the admission errors.

use needadrop::models::{expiry_from_hours, UploadLink};
use needadrop::uploads::{admit_upload, check_upload_size, validate_link_for_upload, UploadError};

const NOW: i64 = 1_700_000_000_000;

fn fresh(max: i64, expires_at: Option<i64>) -> UploadLink {
    UploadLink::new(
        "id-1".to_string(),
        "tok-1".to_string(),
        "drop".to_string(),
        max,
        expires_at,
        NOW,
    )
}

#[test]
fn minting_fills_the_quota() {
    let l = fresh(123_456, None);
    assert_eq!(l.remaining_quota, 123_456);
    assert_eq!(l.max_file_size, 123_456);
    assert!(l.is_active);
}

#[test]
fn quota_round_trip() {
    // a link minted with budget M has M unspent; after one accepted upload
    // of s bytes it has M - s unspent
    let m = 1_000_000;
    let s = 123_456;
    let mut l = fresh(m, None);
    assert_eq!(l.remaining_quota, m);
    assert!(l.try_consume_quota(NOW, s));
    assert_eq!(l.remaining_quota, m - s);
    assert_eq!(l.max_file_size, m);
}

#[test]
fn decrement_happens_only_on_admission() {
    let mut l = fresh(100, None);
    assert!(!l.try_consume_quota(NOW, 101));
    assert_eq!(l.remaining_quota, 100);
    let mut expired = fresh(100, Some(NOW - 1));
    assert!(!expired.try_consume_quota(NOW, 10));
    assert_eq!(expired.remaining_quota, 100);
}

#[test]
fn two_uploads_cannot_overdraw() {
    // remaining_quota = 100, two requests of 60 bytes each: at most one
    // succeeds and the quota never goes negative
    let mut l = fresh(100, None);
    let first = l.try_consume_quota(NOW, 60);
    let second = l.try_consume_quota(NOW, 60);
    assert!(first);
    assert!(!second);
    assert_eq!(l.remaining_quota, 40);
    assert!(l.remaining_quota >= 0);
}

#[test]
fn admission_errors_name_their_cause() {
    assert_eq!(admit_upload(None, NOW, 10), Err(UploadError::LinkNotFound));
    let inactive = UploadLink { is_active: false, ..fresh(100, None) };
    assert_eq!(admit_upload(Some(&inactive), NOW, 10), Err(UploadError::LinkUnavailable));
    let expired = fresh(100, Some(NOW - 1));
    assert_eq!(admit_upload(Some(&expired), NOW, 10), Err(UploadError::LinkUnavailable));
    let spent = UploadLink { remaining_quota: 0, ..fresh(100, None) };
    assert_eq!(admit_upload(Some(&spent), NOW, 1), Err(UploadError::LinkUnavailable));
    let l = fresh(100, None);
    assert_eq!(admit_upload(Some(&l), NOW, 101), Err(UploadError::QuotaExceeded));
    assert_eq!(admit_upload(Some(&l), NOW, 100), Ok(()));
    assert_eq!(validate_link_for_upload(None, NOW), Err(UploadError::LinkNotFound));
    assert_eq!(validate_link_for_upload(Some(&l), NOW), Ok(()));
    assert_eq!(check_upload_size(&l, NOW, 100), Ok(()));
    assert_eq!(check_upload_size(&l, NOW, 101), Err(UploadError::QuotaExceeded));
}

#[test]
fn one_megabyte_link_scenario() {
    // a link minted at one megabyte, no expiry: a 2,000,000-byte file is
    // rejected over quota, then a 500,000-byte file is accepted and
    // 548,576 bytes remain
    let mut l = fresh(1_048_576, None);
    assert_eq!(admit_upload(Some(&l), NOW, 2_000_000), Err(UploadError::QuotaExceeded));
    assert!(!l.try_consume_quota(NOW, 2_000_000));
    assert_eq!(l.remaining_quota, 1_048_576);
    assert_eq!(admit_upload(Some(&l), NOW, 500_000), Ok(()));
    assert!(l.try_consume_quota(NOW, 500_000));
    assert_eq!(l.remaining_quota, 548_576);
}

#[test]
fn upload_error_messages() {
    assert_eq!(UploadError::LinkNotFound.message(), "Upload link not found");
    assert_eq!(UploadError::LinkUnavailable.message(), "Upload link has expired or is inactive");
    assert_eq!(UploadError::QuotaExceeded.message(), "File size exceeds remaining quota");
    assert_eq!(UploadError::ReadFailed.message(), "Failed to read uploaded file");
    assert_eq!(UploadError::DirectoryFailed.message(), "Failed to create upload directory");
    assert_eq!(UploadError::WriteFailed.message(), "Failed to save uploaded file");
    assert_eq!(UploadError::MetadataFailed.message(), "Failed to save upload information");
    assert_eq!(UploadError::NoFilePart.message(), "No file was uploaded");
}

#[test]
fn expiry_from_hours_rules() {
    assert_eq!(expiry_from_hours(NOW, None), None);
    assert_eq!(expiry_from_hours(NOW, Some(0)), None);
    assert_eq!(expiry_from_hours(NOW, Some(-3)), None);
    assert_eq!(expiry_from_hours(NOW, Some(1)), Some(NOW + 3_600_000));
    assert_eq!(expiry_from_hours(NOW, Some(48)), Some(NOW + 48 * 3_600_000));
}
