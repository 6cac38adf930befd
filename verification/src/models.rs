//! Data model of the file drop service: administrator accounts, upload
//! links with their quota bookkeeping, and uploaded-file records.
//!
//! Timestamps are milliseconds since the Unix epoch; sizes are byte counts.

use vstd::prelude::*;

verus! {

/// An administrator account. The password is held only as a salted one-way
/// hash, never in the clear.
pub struct Admin {
    pub id: String,
    pub username: String,
    pub password_hash: String,
    /// Milliseconds since the Unix epoch.
    pub created_at: i64,
}

/// A single-purpose upload link minted by an administrator.
///
/// The link carries a byte budget: `max_file_size` is the total quota it was
/// created with and `remaining_quota` is what is still unspent. A link can be
/// deactivated without being deleted, and can optionally expire.
pub struct UploadLink {
    pub id: String,
    /// Opaque token used in public URLs.
    pub token: String,
    /// Human-readable name chosen by the administrator.
    pub name: String,
    /// Total quota in bytes.
    pub max_file_size: i64,
    /// Bytes of quota still unspent.
    pub remaining_quota: i64,
    /// Expiry instant, in milliseconds since the Unix epoch; `None` means the
    /// link never expires.
    pub expires_at: Option<i64>,
    /// Milliseconds since the Unix epoch.
    pub created_at: i64,
    /// Whether the administrator has the link switched on.
    pub is_active: bool,
}

/// A file received through an upload link.
pub struct FileUpload {
    pub id: String,
    /// The upload link this file arrived through.
    pub link_id: String,
    /// Filename as the guest submitted it.
    pub original_filename: String,
    /// Opaque, collision-resistant name the file is stored under.
    pub stored_filename: String,
    /// Size in bytes.
    pub file_size: i64,
    pub mime_type: String,
    /// Milliseconds since the Unix epoch.
    pub uploaded_at: i64,
    /// Opaque per-upload isolation directory.
    pub guest_folder: String,
}

/// Relies on `chrono::Utc::now` for the current wall-clock time, read as
/// milliseconds since the Unix epoch. Nothing is assumed about the value.
#[verifier::external_body]
pub(crate) fn now_millis() -> i64 {
    chrono::Utc::now().timestamp_millis()
}

impl UploadLink {
    /// The quota bookkeeping is coherent: what is unspent is between nothing
    /// and the budget the link was created with.
    pub open spec fn wf(self) -> bool {
        0 <= self.remaining_quota <= self.max_file_size
    }

    /// Whether the link has expired at instant `now`: true exactly when an
    /// expiry is set and `now` lies beyond it.
    pub open spec fn spec_expired(self, now: i64) -> bool {
        match self.expires_at {
            Some(t) => now > t,
            None => false,
        }
    }

    /// Whether the link can be used at instant `now`: it is switched on, has
    /// not expired, and still has quota to spend.
    pub open spec fn spec_valid(self, now: i64) -> bool {
        self.is_active && !self.spec_expired(now) && self.remaining_quota > 0
    }

    /// Whether the link admits a file of `size` bytes at instant `now`: it is
    /// usable and the file fits in the unspent quota.
    pub open spec fn spec_accepts(self, now: i64, size: i64) -> bool {
        self.spec_valid(now) && size <= self.remaining_quota
    }

    /// The link after `size` bytes of quota have been spent.
    pub open spec fn spec_consumed(self, size: i64) -> UploadLink {
        UploadLink { remaining_quota: (self.remaining_quota - size) as i64, ..self }
    }

    /// A fresh link: its unspent quota equals the budget it was created
    /// with, and it starts out active.
    pub open spec fn spec_new(
        id: String,
        token: String,
        name: String,
        max_file_size: i64,
        expires_at: Option<i64>,
        created_at: i64,
    ) -> UploadLink {
        UploadLink {
            id,
            token,
            name,
            max_file_size,
            remaining_quota: max_file_size,
            expires_at,
            created_at,
            is_active: true,
        }
    }

    /// Mint a link with a byte budget of `max_file_size`.
    pub fn new(
        id: String,
        token: String,
        name: String,
        max_file_size: i64,
        expires_at: Option<i64>,
        created_at: i64,
    ) -> (link: UploadLink)
        requires
            max_file_size >= 0,
        ensures
            link == UploadLink::spec_new(id, token, name, max_file_size, expires_at, created_at),
            link.wf(),
            link.remaining_quota == max_file_size,
    {
        UploadLink {
            id,
            token,
            name,
            max_file_size,
            remaining_quota: max_file_size,
            expires_at,
            created_at,
            is_active: true,
        }
    }

    /// Whether the link has expired at instant `now`.
    pub fn is_expired_at(&self, now: i64) -> (expired: bool)
        ensures
            expired == self.spec_expired(now),
    {
        match self.expires_at {
            Some(t) => now > t,
            None => false,
        }
    }

    /// Whether the link can be used at instant `now`.
    pub fn is_valid_at(&self, now: i64) -> (valid: bool)
        ensures
            valid == self.spec_valid(now),
    {
        self.is_active && !self.is_expired_at(now) && self.remaining_quota > 0
    }

    /// Whether the link admits a file of `size` bytes at instant `now`.
    pub fn can_accept_file_at(&self, now: i64, size: i64) -> (ok: bool)
        ensures
            ok == self.spec_accepts(now, size),
    {
        self.is_valid_at(now) && size <= self.remaining_quota
    }

    /// Whether the link has expired at the present wall-clock time. A link
    /// without an expiry never expires.
    pub fn is_expired(&self) -> (expired: bool)
        ensures
            self.expires_at is None ==> !expired,
    {
        let now = now_millis();
        self.is_expired_at(now)
    }

    /// Whether the link can be used at the present wall-clock time.
    pub fn is_valid(&self) -> (valid: bool)
        ensures
            valid ==> self.is_active && self.remaining_quota > 0,
            self.expires_at is None ==> valid == (self.is_active && self.remaining_quota > 0),
    {
        let now = now_millis();
        self.is_valid_at(now)
    }

    /// Whether the link admits a file of `size` bytes at the present
    /// wall-clock time.
    pub fn can_accept_file(&self, size: i64) -> (ok: bool)
        ensures
            ok ==> self.is_active && self.remaining_quota > 0 && size <= self.remaining_quota,
            self.expires_at is None ==> ok == (self.is_active && 0 < self.remaining_quota
                && size <= self.remaining_quota),
    {
        let now = now_millis();
        self.can_accept_file_at(now, size)
    }

    /// Spend `size` bytes of quota if, and only if, the link admits a file of
    /// that size at instant `now`. The check and the decrement are one
    /// operation, so no admission can ever drive the unspent quota negative.
    pub fn try_consume_quota(&mut self, now: i64, size: i64) -> (ok: bool)
        requires
            old(self).wf(),
            size >= 0,
        ensures
            ok == old(self).spec_accepts(now, size),
            ok ==> *final(self) == old(self).spec_consumed(size),
            !ok ==> *final(self) == *old(self),
            final(self).wf(),
    {
        if self.can_accept_file_at(now, size) {
            self.remaining_quota = self.remaining_quota - size;
            true
        } else {
            false
        }
    }
}

/// When a freshly minted link expires: the given number of hours past `now`
/// when a positive number of hours was asked for, never otherwise.
pub open spec fn spec_expiry_from_hours(now: i64, hours: Option<i32>) -> Option<i64> {
    match hours {
        Some(h) => if h > 0 {
            Some((now + h * 3600000) as i64)
        } else {
            None
        },
        None => None,
    }
}

/// Turn the expiry field of the link creation form into an expiry instant.
pub fn expiry_from_hours(now: i64, hours: Option<i32>) -> (r: Option<i64>)
    requires
        match hours {
            Some(h) => h > 0 ==> now + h * 3600000 <= i64::MAX,
            None => true,
        },
    ensures
        r == spec_expiry_from_hours(now, hours),
{
    match hours {
        Some(h) => {
            if h > 0 {
                Some(now + (h as i64) * 3600000)
            } else {
                None
            }
        },
        None => None,
    }
}

impl UploadLink {
    /// An identical copy.
    pub fn duplicate(&self) -> (r: UploadLink)
        ensures
            r == *self,
    {
        UploadLink {
            id: self.id.clone(),
            token: self.token.clone(),
            name: self.name.clone(),
            max_file_size: self.max_file_size,
            remaining_quota: self.remaining_quota,
            expires_at: self.expires_at,
            created_at: self.created_at,
            is_active: self.is_active,
        }
    }
}

impl FileUpload {
    /// An identical copy.
    pub fn duplicate(&self) -> (r: FileUpload)
        ensures
            r == *self,
    {
        FileUpload {
            id: self.id.clone(),
            link_id: self.link_id.clone(),
            original_filename: self.original_filename.clone(),
            stored_filename: self.stored_filename.clone(),
            file_size: self.file_size,
            mime_type: self.mime_type.clone(),
            uploaded_at: self.uploaded_at,
            guest_folder: self.guest_folder.clone(),
        }
    }
}

/// A link is never usable with its quota exhausted, nor while switched off,
/// nor past its expiry — whatever the other two conditions say.
pub proof fn lemma_validity_requirements(link: UploadLink, now: i64)
    ensures
        link.remaining_quota == 0 ==> !link.spec_valid(now),
        !link.is_active ==> !link.spec_valid(now),
        (link.expires_at matches Some(t) && now > t) ==> !link.spec_valid(now),
{
}

/// A file larger than the unspent quota is never admitted; a file exactly as
/// large as the unspent quota is admitted whenever the link is usable.
pub proof fn lemma_admission_boundary(link: UploadLink, now: i64, size: i64)
    ensures
        size > link.remaining_quota ==> !link.spec_accepts(now, size),
        link.spec_valid(now) ==> link.spec_accepts(now, link.remaining_quota),
{
}

/// Quota round trip: a link minted with budget `m` has `m` unspent, and after
/// one admitted upload of `s` bytes it has `m - s` unspent.
pub proof fn lemma_quota_round_trip(
    id: String,
    token: String,
    name: String,
    m: i64,
    expires_at: Option<i64>,
    created_at: i64,
    s: i64,
)
    requires
        0 <= s <= m,
    ensures
        UploadLink::spec_new(id, token, name, m, expires_at, created_at).remaining_quota == m,
        UploadLink::spec_new(id, token, name, m, expires_at, created_at).spec_consumed(
            s,
        ).remaining_quota == m - s,
{
}

/// Two uploads that together overrun the unspent quota are never both
/// admitted: once the first has spent its bytes, the second is refused at any
/// later instant, and the quota left behind is never negative.
pub proof fn lemma_quota_never_overdrawn(
    link: UploadLink,
    now1: i64,
    now2: i64,
    a: i64,
    b: i64,
)
    requires
        link.wf(),
        0 <= a,
        0 <= b,
        a + b > link.remaining_quota,
        link.spec_accepts(now1, a),
    ensures
        !link.spec_consumed(a).spec_accepts(now2, b),
        link.spec_consumed(a).remaining_quota >= 0,
{
}

} // verus!
