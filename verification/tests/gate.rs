use microblog::auth::parse_token;
use microblog::errors::AppError;
use microblog::store::Store;

fn store_with_session() -> (Store, u64, u64) {
    let mut store = Store::new();
    let uid = store
        .register(String::from("alice@example.com"), String::from("Alice"), "secret1")
        .unwrap()
        .id;
    let sid = store.create_session(uid).unwrap();
    (store, uid, sid)
}

#[test]
fn parse_token_accepts_decimal_ids_only() {
    assert_eq!(parse_token("0"), Some(0));
    assert_eq!(parse_token("42"), Some(42));
    assert_eq!(parse_token("18446744073709551615"), Some(u64::MAX));
    assert_eq!(parse_token(""), None);
    assert_eq!(parse_token("abc"), None);
    assert_eq!(parse_token("12x"), None);
    assert_eq!(parse_token("-1"), None);
    assert_eq!(parse_token(" 1"), None);
    assert_eq!(parse_token("18446744073709551616"), None);
    assert_eq!(parse_token("99999999999999999999999999"), None);
}

#[test]
fn read_gate_degrades_to_anonymous() {
    let (store, uid, sid) = store_with_session();
    let token = format!("{}", sid);

    let (viewer, invalidate) = store.authorize_read(Some(token.as_str()));
    assert_eq!(viewer.unwrap().id, uid);
    assert!(!invalidate);

    let (viewer, invalidate) = store.authorize_read(None);
    assert!(viewer.is_none());
    assert!(!invalidate);

    // A presented token that resolves to nothing raises the invalidate
    // signal but is not an error.
    let (viewer, invalidate) = store.authorize_read(Some("999"));
    assert!(viewer.is_none());
    assert!(invalidate);

    let (viewer, invalidate) = store.authorize_read(Some("not-a-token"));
    assert!(viewer.is_none());
    assert!(invalidate);
}

#[test]
fn write_gate_requires_a_live_session() {
    let (store, uid, sid) = store_with_session();
    let token = format!("{}", sid);

    let identity = store.authorize_write(Some(token.as_str())).unwrap();
    assert_eq!(identity.id, uid);
    assert_eq!(identity.name, "Alice");

    assert_eq!(store.authorize_write(None).unwrap_err(), AppError::Unauthorized);
    assert_eq!(store.authorize_write(Some("999")).unwrap_err(), AppError::Unauthorized);
    assert_eq!(store.authorize_write(Some("junk")).unwrap_err(), AppError::Unauthorized);
}

#[test]
fn deleted_session_resolves_to_nothing_and_fails_the_gate() {
    let (mut store, _uid, sid) = store_with_session();
    let token = format!("{}", sid);

    assert!(store.resolve_session(sid).is_some());
    store.delete_session(sid);
    assert!(store.resolve_session(sid).is_none());
    assert_eq!(
        store.authorize_write(Some(token.as_str())).unwrap_err(),
        AppError::Unauthorized
    );

    // Idempotent: deleting again is not an error.
    store.delete_session(sid);
    assert!(store.resolve_session(sid).is_none());
}

#[test]
fn sessions_are_independent() {
    let (mut store, uid, sid1) = store_with_session();
    let sid2 = store.create_session(uid).unwrap();
    assert_ne!(sid1, sid2);

    store.delete_session(sid1);
    assert!(store.resolve_session(sid1).is_none());
    assert_eq!(store.resolve_session(sid2).unwrap().id, uid);
}

#[test]
fn requests_through_the_service_respect_the_gate() {
    let (mut store, _uid, sid) = store_with_session();
    let token = format!("{}", sid);

    // Anonymous and stale-token writes are rejected and change nothing.
    assert_eq!(
        store.submit_post(None, String::from("hi")).unwrap_err(),
        AppError::Unauthorized
    );
    assert_eq!(
        store.submit_post(Some("999"), String::from("hi")).unwrap_err(),
        AppError::Unauthorized
    );
    assert!(store.list_posts(None).is_empty());

    let pid = store
        .submit_post(Some(token.as_str()), String::from("hi"))
        .unwrap();

    assert_eq!(
        store.submit_like(None, pid).unwrap_err(),
        AppError::Unauthorized
    );
    let liked = store.submit_like(Some(token.as_str()), pid).unwrap();
    assert_eq!(liked.likes_count, 1);
    assert!(liked.liked);

    assert_eq!(
        store.submit_unlike(None, pid).unwrap_err(),
        AppError::Unauthorized
    );
    let unliked = store.submit_unlike(Some(token.as_str()), pid).unwrap();
    assert_eq!(unliked.likes_count, 0);
    assert!(!unliked.liked);
}

#[test]
fn login_and_logout_round_trip() {
    let mut store = Store::new();
    store
        .register(String::from("alice@example.com"), String::from("Alice"), "secret1")
        .unwrap();

    assert!(store
        .login(&String::from("alice@example.com"), "wrong")
        .is_none());
    assert!(store.login(&String::from("who@example.com"), "secret1").is_none());

    let sid = store
        .login(&String::from("alice@example.com"), "secret1")
        .expect("correct credentials log in");
    let token = format!("{}", sid);
    assert!(store.authorize_write(Some(token.as_str())).is_ok());

    store.logout(Some(token.as_str())).unwrap();
    assert_eq!(
        store.authorize_write(Some(token.as_str())).unwrap_err(),
        AppError::Unauthorized
    );
    assert_eq!(
        store.logout(Some(token.as_str())).unwrap_err(),
        AppError::Unauthorized
    );
    assert_eq!(store.logout(None).unwrap_err(), AppError::Unauthorized);
}

#[test]
fn viewing_pages_with_and_without_a_session() {
    let (mut store, uid, sid) = store_with_session();
    let token = format!("{}", sid);
    let pid = store.create_post(uid, String::from("hello page")).unwrap();
    store.like(uid, pid).unwrap();

    let page = store.view_posts(Some(token.as_str()));
    assert_eq!(page.viewer.as_ref().unwrap().id, uid);
    assert!(!page.invalidate);
    assert_eq!(page.posts.len(), 1);
    assert!(page.posts[0].liked);

    let anon = store.view_posts(None);
    assert!(anon.viewer.is_none());
    assert!(!anon.invalidate);
    assert!(!anon.posts[0].liked);
    assert_eq!(anon.posts[0].likes_count, 1);

    // A stale token still renders the page anonymously but asks the
    // cookie layer to clear itself.
    let stale = store.view_posts(Some("404"));
    assert!(stale.viewer.is_none());
    assert!(stale.invalidate);

    let one = store.view_post(Some(token.as_str()), pid).unwrap();
    assert!(one.liked);
    assert_eq!(one.author, "Alice");
    let missing = store.view_post(Some(token.as_str()), pid + 1);
    assert_eq!(missing.unwrap_err(), AppError::NotFound);
}
