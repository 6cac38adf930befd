//! Authentication: the server-held session store, credential checks, and
//! the session cookie values the service sends.
//!
//! Sessions are keyed by an opaque bearer token and live until explicit
//! logout or process restart; there is no expiry. The store is modelled as a
//! map from token to administrator identity, and every operation is proved
//! against that map.

use crate::models::Admin;
use crate::text::{spec_trim, str_eq, trim_str};
use vstd::prelude::*;
use vstd::string::{StrSliceExecFns, StringExecFns, StringSliceAdditionalSpecFns};

verus! {

/// Session data held for an authenticated administrator.
pub struct Session {
    /// Identifier of the authenticated administrator.
    pub admin_id: String,
    /// Username of the authenticated administrator, for display.
    pub username: String,
}

/// The mathematical content of a `Session`.
pub ghost struct SessionV {
    pub admin_id: Seq<char>,
    pub username: Seq<char>,
}

impl View for Session {
    type V = SessionV;

    open spec fn view(&self) -> SessionV {
        SessionV { admin_id: self.admin_id@, username: self.username@ }
    }
}

impl Session {
    /// An identical copy.
    pub fn duplicate(&self) -> (r: Session)
        ensures
            r@ == self@,
    {
        Session { admin_id: self.admin_id.clone(), username: self.username.clone() }
    }
}

/// What `bcrypt::verify` answers for a password and a stored hash: a fixed
/// function of the two and nothing else.
pub uninterp spec fn bcrypt_matches(password: Seq<char>, hash: Seq<char>) -> bool;

/// Relies on `bcrypt::verify`: whether `password` matches the salted one-way
/// hash `hash`. The answer depends on the two arguments alone; a malformed
/// hash verifies as `false` rather than as an error.
#[verifier::external_body]
pub fn verify_password(password: &str, hash: &str) -> (r: bool)
    ensures
        r == bcrypt_matches(password@, hash@),
{
    bcrypt::verify(password, hash).unwrap_or(false)
}

/// Relies on `bcrypt::hash`: hash a password under a freshly drawn random
/// salt at the default cost. The salt makes the result random; all that is
/// relied on is that a successful hash is the 60-character bcrypt format.
#[verifier::external_body]
pub(crate) fn hash_password(password: &str) -> (r: Option<String>)
    ensures
        r matches Some(h) ==> h@.len() == 60,
{
    bcrypt::hash(password, bcrypt::DEFAULT_COST).ok()
}

/// Relies on `uuid::Uuid::new_v4` and its hyphenated rendering: a freshly
/// drawn random identifier, always 36 characters long.
#[verifier::external_body]
fn fresh_session_id() -> (r: String)
    ensures
        r@.len() == 36,
{
    uuid::Uuid::new_v4().to_string()
}

/// The server-held mapping from opaque bearer tokens to administrator
/// identities. Constructed once at process start and handed to every
/// request handler; its view is the map of live sessions.
pub struct SessionStore {
    entries: Vec<(String, Session)>,
}

impl SessionStore {
    /// The map an entry list denotes: later entries shadow earlier ones.
    spec fn spec_entries_map(s: Seq<(String, Session)>) -> Map<Seq<char>, SessionV>
        decreases s.len(),
    {
        if s.len() == 0 {
            Map::empty()
        } else {
            Self::spec_entries_map(s.drop_last()).insert(s.last().0@, s.last().1@)
        }
    }

    /// No two entries share a token.
    spec fn spec_keys_distinct(s: Seq<(String, Session)>) -> bool {
        forall|i: int, j: int| 0 <= i < j < s.len() ==> s[i].0@ != s[j].0@
    }

    /// The store is well formed: no two entries share a token. Holds of a
    /// fresh store and is preserved by every operation.
    pub closed spec fn wf(&self) -> bool {
        Self::spec_keys_distinct(self.entries@)
    }

    /// A token absent from every entry is absent from the map.
    proof fn lemma_absent_key(s: Seq<(String, Session)>, k: Seq<char>)
        requires
            forall|i: int| 0 <= i < s.len() ==> s[i].0@ != k,
        ensures
            !Self::spec_entries_map(s).contains_key(k),
        decreases s.len(),
    {
        if s.len() > 0 {
            Self::lemma_absent_key(s.drop_last(), k);
        }
    }

    /// With distinct tokens, entry `i` is what the map holds for its token.
    proof fn lemma_entry_value(s: Seq<(String, Session)>, i: int)
        requires
            Self::spec_keys_distinct(s),
            0 <= i < s.len(),
        ensures
            Self::spec_entries_map(s).contains_key(s[i].0@),
            Self::spec_entries_map(s)[s[i].0@] == s[i].1@,
        decreases s.len(),
    {
        if i < s.len() - 1 {
            Self::lemma_entry_value(s.drop_last(), i);
        }
    }

    /// With distinct tokens, dropping entry `i` removes exactly its token
    /// from the map.
    proof fn lemma_remove_entry(s: Seq<(String, Session)>, i: int)
        requires
            Self::spec_keys_distinct(s),
            0 <= i < s.len(),
        ensures
            Self::spec_entries_map(s.remove(i)) =~= Self::spec_entries_map(s).remove(s[i].0@),
        decreases s.len(),
    {
        if i == s.len() - 1 {
            assert(s.remove(i) =~= s.drop_last());
            Self::lemma_absent_key(s.drop_last(), s[i].0@);
        } else {
            assert(s.remove(i).drop_last() =~= s.drop_last().remove(i));
            Self::lemma_remove_entry(s.drop_last(), i);
            assert(s.remove(i).last() == s.last());
        }
    }

    /// An empty store: no live sessions.
    pub fn new() -> (store: SessionStore)
        ensures
            store@ == Map::<Seq<char>, SessionV>::empty(),
            store.wf(),
    {
        SessionStore { entries: Vec::new() }
    }

    /// The index of the entry holding `token`, if one does.
    fn find_index(&self, token: &str) -> (r: Option<usize>)
        ensures
            match r {
                Some(i) => i < self.entries@.len() && self.entries@[i as int].0@ == token@,
                None => forall|j: int| 0 <= j < self.entries@.len() ==> self.entries@[j].0@
                    != token@,
            },
    {
        let n = self.entries.len();
        let mut i: usize = 0;
        while i < n
            invariant
                0 <= i <= n,
                n == self.entries@.len(),
                forall|j: int| 0 <= j < i ==> self.entries@[j].0@ != token@,
            decreases n - i,
        {
            if str_eq(self.entries[i].0.as_str(), token) {
                return Some(i);
            }
            i = i + 1;
        }
        None
    }

    /// Hold `session` under `token`, replacing what the token held before.
    fn put(&mut self, token: String, session: Session)
        requires
            old(self).wf(),
        ensures
            final(self).wf(),
            final(self)@ =~= old(self)@.insert(token@, session@),
    {
        let found = self.find_index(token.as_str());
        match found {
            Some(i) => {
                proof {
                    Self::lemma_remove_entry(self.entries@, i as int);
                }
                self.entries.remove(i);
                proof {
                    assert(Self::spec_keys_distinct(self.entries@));
                    Self::lemma_absent_key(self.entries@, token@);
                }
                self.entries.push((token, session));
                proof {
                    assert(self.entries@.drop_last() =~= old(self).entries@.remove(i as int));
                }
            },
            None => {
                self.entries.push((token, session));
                proof {
                    assert(self.entries@.drop_last() =~= old(self).entries@);
                }
            },
        }
    }

    /// Open a session for an authenticated administrator: draw a fresh
    /// opaque token, record the identity under it, and return the token for
    /// the session cookie.
    pub fn create_session(&mut self, admin_id: String, username: String) -> (session_id: String)
        requires
            old(self).wf(),
        ensures
            final(self).wf(),
            final(self)@ =~= old(self)@.insert(
                session_id@,
                SessionV { admin_id: admin_id@, username: username@ },
            ),
            session_id@.len() == 36,
    {
        let session_id = fresh_session_id();
        let token = session_id.clone();
        self.put(token, Session { admin_id, username });
        session_id
    }

    /// Look a bearer token up: the identity it names, if it names one.
    pub fn get_session(&self, session_id: &str) -> (r: Option<Session>)
        requires
            self.wf(),
        ensures
            match r {
                Some(session) => self@.contains_key(session_id@) && session@ == self@[session_id@],
                None => !self@.contains_key(session_id@),
            },
    {
        match self.find_index(session_id) {
            Some(i) => {
                proof {
                    Self::lemma_entry_value(self.entries@, i as int);
                }
                Some(self.entries[i].1.duplicate())
            },
            None => {
                proof {
                    Self::lemma_absent_key(self.entries@, session_id@);
                }
                None
            },
        }
    }

    /// Drop a session (logout). Harmless if the token names none.
    pub fn remove_session(&mut self, session_id: &str)
        requires
            old(self).wf(),
        ensures
            final(self).wf(),
            final(self)@ =~= old(self)@.remove(session_id@),
    {
        match self.find_index(session_id) {
            Some(i) => {
                proof {
                    Self::lemma_remove_entry(self.entries@, i as int);
                }
                self.entries.remove(i);
            },
            None => {
                proof {
                    Self::lemma_absent_key(self.entries@, session_id@);
                }
            },
        }
    }
}

impl View for SessionStore {
    type V = Map<Seq<char>, SessionV>;

    closed spec fn view(&self) -> Map<Seq<char>, SessionV> {
        Self::spec_entries_map(self.entries@)
    }
}

/// Decide a login attempt: the looked-up account (if the username named
/// one) and the submitted password. On success a session is opened and its
/// token returned; on failure the store is untouched and nothing leaks about
/// which of the two checks failed.
pub fn handle_login_attempt(
    store: &mut SessionStore,
    admin: Option<&Admin>,
    password: &str,
) -> (r: Option<String>)
    requires
        old(store).wf(),
    ensures
        final(store).wf(),
        r is Some <==> (admin matches Some(a) && bcrypt_matches(password@, a.password_hash@)),
        r matches Some(sid) ==> sid@.len() == 36 && (admin matches Some(a) && final(store)@
            =~= old(store)@.insert(sid@, SessionV { admin_id: a.id@, username: a.username@ })),
        r is None ==> final(store)@ == old(store)@,
{
    match admin {
        Some(a) => {
            if verify_password(password, a.password_hash.as_str()) {
                let sid = store.create_session(a.id.clone(), a.username.clone());
                Some(sid)
            } else {
                None
            }
        },
        None => None,
    }
}

/// Why a password change was refused.
#[derive(Clone, Copy, Debug, PartialEq, Eq, Structural)]
pub enum PasswordChangeError {
    /// The new password and its confirmation differ.
    MismatchedConfirmation,
    /// The new password is shorter than six bytes.
    TooShort,
    /// The current password does not match the stored hash.
    WrongCurrentPassword,
    /// Hashing the new password failed.
    HashingFailed,
}

/// Decide a password change: confirmation must match, the new password must
/// be at least six bytes, and the current password must verify against the
/// stored hash; then the new password is hashed for storage.
pub fn change_password(current: &str, new: &str, confirm: &str, stored_hash: &str) -> (r: Result<
    String,
    PasswordChangeError,
>)
    ensures
        (new@ != confirm@) <==> r == Err::<String, PasswordChangeError>(PasswordChangeError::MismatchedConfirmation),
        (new@ == confirm@ && new.spec_bytes().len() < 6) <==> r == Err::<String, PasswordChangeError>(
            PasswordChangeError::TooShort,
        ),
        (new@ == confirm@ && new.spec_bytes().len() >= 6 && !bcrypt_matches(
            current@,
            stored_hash@,
        )) <==> r == Err::<String, PasswordChangeError>(PasswordChangeError::WrongCurrentPassword),
        r matches Ok(h) ==> new@ == confirm@ && new.spec_bytes().len() >= 6 && bcrypt_matches(
            current@,
            stored_hash@,
        ) && h@.len() == 60,
        (new@ == confirm@ && new.spec_bytes().len() >= 6 && bcrypt_matches(
            current@,
            stored_hash@,
        )) ==> (r is Ok || r == Err::<String, PasswordChangeError>(PasswordChangeError::HashingFailed)),
{
    if !str_eq(new, confirm) {
        Err(PasswordChangeError::MismatchedConfirmation)
    } else if new.as_bytes().len() < 6 {
        Err(PasswordChangeError::TooShort)
    } else if !verify_password(current, stored_hash) {
        Err(PasswordChangeError::WrongCurrentPassword)
    } else {
        match hash_password(new) {
            Some(h) => Ok(h),
            None => Err(PasswordChangeError::HashingFailed),
        }
    }
}

/// The cookie name looked for in the Cookie header, with its equals sign.
pub open spec fn spec_session_cookie_prefix() -> Seq<char> {
    seq!['s', 'e', 's', 's', 'i', 'o', 'n', '_', 'i', 'd', '=']
}

/// What one `;`-separated piece of a Cookie header yields: after trimming,
/// a piece that starts with "session_id=" yields what follows that prefix.
pub open spec fn spec_cookie_piece_value(piece: Seq<char>) -> Option<Seq<char>> {
    let t = spec_trim(piece);
    if t.len() >= 11 && t.take(11) == spec_session_cookie_prefix() {
        Some(t.skip(11))
    } else {
        None
    }
}

/// The index of the first ';' in `s`, or `s.len()` if there is none.
pub open spec fn spec_first_semi(s: Seq<char>) -> nat
    decreases s.len(),
{
    if s.len() == 0 {
        0
    } else if s[0] == ';' {
        0
    } else {
        1 + spec_first_semi(s.drop_first())
    }
}

/// `spec_first_semi` answers `k` exactly when no ';' stands before `k` and
/// one stands at `k` (or `k` is the end).
proof fn lemma_first_semi_characterize(s: Seq<char>, k: int)
    requires
        0 <= k <= s.len(),
        forall|j: int| 0 <= j < k ==> s[j] != ';',
        k < s.len() ==> s[k] == ';',
    ensures
        spec_first_semi(s) == k,
    decreases s.len(),
{
    if k > 0 {
        assert(forall|j: int| 0 <= j < k - 1 ==> s.drop_first()[j] != ';');
        lemma_first_semi_characterize(s.drop_first(), k - 1);
    }
}

/// The session token a Cookie header names: the value of the first
/// `;`-separated piece whose trimmed form starts with "session_id=".
pub open spec fn spec_extract_session_id(s: Seq<char>) -> Option<Seq<char>>
    decreases s.len(),
{
    let i = spec_first_semi(s) as int;
    if i < s.len() {
        match spec_cookie_piece_value(s.take(i)) {
            Some(v) => Some(v),
            None => spec_extract_session_id(s.skip(i + 1)),
        }
    } else {
        spec_cookie_piece_value(s)
    }
}

/// The character at position `j` of "session_id=".
fn session_prefix_char(j: usize) -> (c: char)
    requires
        j < 11,
    ensures
        c == spec_session_cookie_prefix()[j as int],
{
    match j {
        0 => 's',
        1 => 'e',
        2 => 's',
        3 => 's',
        4 => 'i',
        5 => 'o',
        6 => 'n',
        7 => '_',
        8 => 'i',
        9 => 'd',
        _ => '=',
    }
}

/// The session token one `;`-separated piece of a Cookie header names, if
/// its trimmed form starts with "session_id=".
fn cookie_piece_value<'a>(piece: &'a str) -> (r: Option<&'a str>)
    ensures
        match r {
            Some(v) => spec_cookie_piece_value(piece@) == Some(v@),
            None => spec_cookie_piece_value(piece@) is None,
        },
{
    let t = trim_str(piece);
    let tn = t.unicode_len();
    if tn < 11 {
        return None;
    }
    let mut j: usize = 0;
    while j < 11
        invariant
            0 <= j <= 11,
            t@ == spec_trim(piece@),
            tn == t@.len(),
            tn >= 11,
            forall|k: int| 0 <= k < j ==> t@[k] == spec_session_cookie_prefix()[k],
        decreases 11 - j,
    {
        if t.get_char(j) != session_prefix_char(j) {
            proof {
                assert(spec_trim(piece@).take(11)[j as int] == spec_trim(piece@)[j as int]);
                assert(spec_trim(piece@).take(11) != spec_session_cookie_prefix());
            }
            return None;
        }
        j = j + 1;
    }
    proof {
        assert(t@.take(11) =~= spec_session_cookie_prefix());
    }
    Some(t.substring_char(11, tn))
}

/// Find the session token in a raw Cookie header: pieces are separated by
/// ';', each piece is trimmed, and the first piece of the form
/// "session_id=VALUE" yields VALUE.
pub fn extract_session_id_from_cookies<'a>(cookies: &'a str) -> (r: Option<&'a str>)
    ensures
        match r {
            Some(v) => spec_extract_session_id(cookies@) == Some(v@),
            None => spec_extract_session_id(cookies@) is None,
        },
{
    let n = cookies.unicode_len();
    let mut start: usize = 0;
    proof {
        assert(cookies@.skip(0) =~= cookies@);
    }
    loop
        invariant
            0 <= start <= n,
            n == cookies@.len(),
            spec_extract_session_id(cookies@) == spec_extract_session_id(
                cookies@.skip(start as int),
            ),
        decreases n - start,
    {
        let mut end: usize = start;
        while end < n && cookies.get_char(end) != ';'
            invariant
                start <= end <= n,
                n == cookies@.len(),
                forall|j: int| start <= j < end ==> cookies@[j] != ';',
            decreases n - end,
        {
            end = end + 1;
        }
        let ghost rest = cookies@.skip(start as int);
        proof {
            assert(forall|j: int| 0 <= j < end - start ==> rest[j] != ';');
            lemma_first_semi_characterize(rest, end - start);
        }
        let piece = cookies.substring_char(start, end);
        proof {
            assert(piece@ =~= rest.take(end - start));
            if end == n {
                assert(rest.take(end - start) =~= rest);
            }
        }
        match cookie_piece_value(piece) {
            Some(v) => {
                return Some(v);
            },
            None => {
                if end == n {
                    return None;
                }
                proof {
                    assert(rest.skip(end - start + 1) =~= cookies@.skip(end + 1));
                }
                start = end + 1;
            },
        }
    }
}

/// The decision of the guard in front of every administrator route.
pub enum AuthDecision {
    /// A live session vouches for the request; its identity is attached.
    Authorized(Session),
    /// No live session: send the client to the login page.
    RedirectToLogin,
}

/// Run the authentication gate for an administrator route: take the bearer
/// token from the Cookie header, if one is named there, and look it up in
/// the session store. An absent header, an absent cookie and an unknown
/// token all redirect to the login page.
pub fn authorize(store: &SessionStore, cookie_header: Option<&str>) -> (r: AuthDecision)
    requires
        store.wf(),
    ensures
        match cookie_header {
            None => r is RedirectToLogin,
            Some(h) => match spec_extract_session_id(h@) {
                None => r is RedirectToLogin,
                Some(sid) => if store@.contains_key(sid) {
                    r matches AuthDecision::Authorized(s) && s@ == store@[sid]
                } else {
                    r is RedirectToLogin
                },
            },
        },
{
    match cookie_header {
        None => AuthDecision::RedirectToLogin,
        Some(h) => match extract_session_id_from_cookies(h) {
            None => AuthDecision::RedirectToLogin,
            Some(sid) => match store.get_session(sid) {
                Some(session) => AuthDecision::Authorized(session),
                None => AuthDecision::RedirectToLogin,
            },
        },
    }
}

/// The `Set-Cookie` value that installs a session token: host-wide path,
/// unreadable from script, never sent cross-site.
pub fn session_cookie_header(session_id: &str) -> (r: String)
    ensures
        r@ == "session_id="@ + session_id@ + "; Path=/; HttpOnly; SameSite=Strict"@,
{
    let mut out = String::new();
    out.append("session_id=");
    out.append(session_id);
    out.append("; Path=/; HttpOnly; SameSite=Strict");
    proof {
        assert(out@ =~= "session_id="@ + session_id@ + "; Path=/; HttpOnly; SameSite=Strict"@);
    }
    out
}

/// The `Set-Cookie` value that clears the session cookie on logout.
pub fn logout_cookie_header() -> (r: &'static str)
    ensures
        r@ == "session_id=; Path=/; HttpOnly; SameSite=Strict; Max-Age=0"@,
{
    "session_id=; Path=/; HttpOnly; SameSite=Strict; Max-Age=0"
}

} // verus!
