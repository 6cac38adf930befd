//! Session lifecycle, cookie parsing, and the login gate, run against the
//! real bcrypt and uuid implementations.

use needadrop::auth::{
    authorize, change_password, extract_session_id_from_cookies, handle_login_attempt,
    logout_cookie_header, session_cookie_header, verify_password, AuthDecision,
    PasswordChangeError, SessionStore,
};
use needadrop::models::Admin;

fn admin_with_password(password: &str) -> Admin {
    Admin {
        id: "admin-1".to_string(),
        username: "admin".to_string(),
        password_hash: bcrypt::hash(password, 4).unwrap(),
        created_at: 0,
    }
}

#[test]
fn cookie_extraction_finds_the_session_cookie() {
    assert_eq!(
        extract_session_id_from_cookies("user_pref=dark; session_id=uuid-here; lang=en"),
        Some("uuid-here")
    );
    assert_eq!(extract_session_id_from_cookies("session_id=abc"), Some("abc"));
    assert_eq!(extract_session_id_from_cookies("  session_id=abc  "), Some("abc"));
    assert_eq!(extract_session_id_from_cookies("session_id="), Some(""));
    assert_eq!(extract_session_id_from_cookies(""), None);
    assert_eq!(extract_session_id_from_cookies("lang=en; theme=dark"), None);
    assert_eq!(extract_session_id_from_cookies("xsession_id=abc"), None);
    // the first matching piece wins
    assert_eq!(extract_session_id_from_cookies("session_id=first; session_id=second"), Some("first"));
    // pieces are trimmed before matching
    assert_eq!(extract_session_id_from_cookies("a=b;\tsession_id=tok"), Some("tok"));
}

#[test]
fn cookie_extraction_matches_the_split_trim_strip_chain() {
    fn by_chain(cookies: &str) -> Option<&str> {
        cookies.split(';').find_map(|cookie| {
            let cookie = cookie.trim();
            if cookie.starts_with("session_id=") {
                cookie.strip_prefix("session_id=")
            } else {
                None
            }
        })
    }
    for s in [
        "",
        ";",
        ";;",
        "session_id=abc",
        " session_id=abc ",
        "\u{2028}session_id=tok\u{3000}",
        "a=b; session_id=tok; c=d",
        "a=b;session_id=tok",
        "session_id =tok",
        "session_id= tok ",
        "SESSION_ID=tok",
        "xsession_id=tok",
        "session_id",
        "session_id=",
        "session_id=a;session_id=b",
        "a=session_id=b",
        "séssion_id=tok; session_id=ö",
    ] {
        assert_eq!(extract_session_id_from_cookies(s), by_chain(s), "input {:?}", s);
    }
}

#[test]
fn sessions_live_from_login_to_logout() {
    let mut store = SessionStore::new();
    let sid = store.create_session("admin-1".to_string(), "admin".to_string());
    assert_eq!(sid.len(), 36);
    let s = store.get_session(&sid).expect("fresh session must be found");
    assert_eq!(s.admin_id, "admin-1");
    assert_eq!(s.username, "admin");
    assert!(store.get_session("no-such-token").is_none());
    store.remove_session(&sid);
    assert!(store.get_session(&sid).is_none());
    // removing again is harmless
    store.remove_session(&sid);
}

#[test]
fn login_scenario() {
    // wrong password: no session is created; correct password: a session is
    // created, its cookie authorizes /admin, and no cookie redirects to login
    let admin = admin_with_password("hunter2~secret");
    let mut store = SessionStore::new();

    let refused = handle_login_attempt(&mut store, Some(&admin), "wrong-password");
    assert!(refused.is_none());

    let unknown_user = handle_login_attempt(&mut store, None, "hunter2~secret");
    assert!(unknown_user.is_none());

    let sid = handle_login_attempt(&mut store, Some(&admin), "hunter2~secret")
        .expect("correct password must open a session");
    let cookie = session_cookie_header(&sid);
    assert_eq!(cookie, format!("session_id={}; Path=/; HttpOnly; SameSite=Strict", sid));

    let header = format!("theme=dark; session_id={}", sid);
    match authorize(&store, Some(&header)) {
        AuthDecision::Authorized(s) => {
            assert_eq!(s.admin_id, "admin-1");
            assert_eq!(s.username, "admin");
        }
        AuthDecision::RedirectToLogin => panic!("a live session must authorize"),
    }
    assert!(matches!(authorize(&store, None), AuthDecision::RedirectToLogin));
    assert!(matches!(authorize(&store, Some("lang=en")), AuthDecision::RedirectToLogin));
    assert!(matches!(
        authorize(&store, Some("session_id=unknown-token")),
        AuthDecision::RedirectToLogin
    ));
}

#[test]
fn logout_cookie_clears_the_session() {
    assert_eq!(
        logout_cookie_header(),
        "session_id=; Path=/; HttpOnly; SameSite=Strict; Max-Age=0"
    );
}

#[test]
fn password_verification_uses_the_stored_hash() {
    let hash = bcrypt::hash("open sesame", 4).unwrap();
    assert!(verify_password("open sesame", &hash));
    assert!(!verify_password("open Sesame", &hash));
    assert!(!verify_password("open sesame", "not a bcrypt hash"));
}

#[test]
fn change_password_decisions() {
    let stored = bcrypt::hash("current-pw", 4).unwrap();
    assert_eq!(
        change_password("current-pw", "new-password", "other", &stored),
        Err(PasswordChangeError::MismatchedConfirmation)
    );
    assert_eq!(
        change_password("current-pw", "short", "short", &stored),
        Err(PasswordChangeError::TooShort)
    );
    assert_eq!(
        change_password("wrong-pw", "new-password", "new-password", &stored),
        Err(PasswordChangeError::WrongCurrentPassword)
    );
    let new_hash = change_password("current-pw", "new-password", "new-password", &stored)
        .expect("a well-formed change must succeed");
    assert_eq!(new_hash.len(), 60);
    assert!(verify_password("new-password", &new_hash));
    assert!(!verify_password("current-pw", &new_hash));
}
