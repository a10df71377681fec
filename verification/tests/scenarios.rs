use microblog::errors::AppError;
use microblog::store::Store;

#[test]
fn full_happy_path() {
    let mut store = Store::new();

    let alice = store
        .register(
            String::from("alice@example.com"),
            String::from("Alice"),
            "secret1",
        )
        .expect("registration must succeed on a fresh email");

    let login = store.verify_login(&String::from("alice@example.com"), "secret1");
    assert!(login.is_some());
    let alice_id = login.unwrap().id;
    assert_eq!(alice_id, alice.id);

    let token = store.create_session(alice_id).expect("user exists");
    let identity = store.resolve_session(token).expect("session is active");
    assert_eq!(identity.id, alice_id);
    assert_eq!(identity.email, "alice@example.com");
    assert_eq!(identity.name, "Alice");

    let post_id = store
        .create_post(alice_id, String::from("hello"))
        .expect("author exists and body has content");
    let fresh = store.get_post(Some(alice_id), post_id).unwrap();
    assert_eq!(fresh.likes_count, 0);
    assert_eq!(fresh.comments_count, 0);
    assert_eq!(fresh.body, "hello");
    assert_eq!(fresh.author, "Alice");
    assert!(!fresh.liked);

    let liked = store.like(alice_id, post_id).unwrap();
    assert_eq!(liked.likes_count, 1);
    assert!(liked.liked);

    let unliked = store.unlike(alice_id, post_id).unwrap();
    assert_eq!(unliked.likes_count, 0);
    assert!(!unliked.liked);
}

#[test]
fn login_failure_shapes_are_identical() {
    let mut store = Store::new();
    store
        .register(
            String::from("alice@example.com"),
            String::from("Alice"),
            "secret1",
        )
        .unwrap();

    let unknown_email = store.verify_login(&String::from("nobody@example.com"), "secret1");
    let wrong_password = store.verify_login(&String::from("alice@example.com"), "wrong");
    assert!(unknown_email.is_none());
    assert!(wrong_password.is_none());
}

#[test]
fn duplicate_email_is_rejected_and_no_row_added() {
    let mut store = Store::new();
    store
        .register(String::from("a@b.c"), String::from("First"), "pw1")
        .unwrap();
    let second = store.register(String::from("a@b.c"), String::from("Second"), "pw2");
    assert_eq!(second.unwrap_err(), AppError::DuplicateEmail);

    // The first row is untouched and still the only one with the email.
    assert!(store.email_exists(&String::from("a@b.c")));
    let login = store.verify_login(&String::from("a@b.c"), "pw1");
    assert!(login.is_some());
    assert!(store.verify_login(&String::from("a@b.c"), "pw2").is_none());
}

#[test]
fn like_twice_keeps_one_row() {
    let mut store = Store::new();
    let uid = store
        .register(String::from("u@e.x"), String::from("U"), "pw")
        .unwrap()
        .id;
    let pid = store.create_post(uid, String::from("a post")).unwrap();

    assert!(store.like(uid, pid).is_ok());
    let second = store.like(uid, pid);
    assert_eq!(second.unwrap_err(), AppError::AlreadyLiked);

    let view = store.get_post(Some(uid), pid).unwrap();
    assert_eq!(view.likes_count, 1);
    assert!(view.liked);

    // One unlike removes the single row; a second unlike is a no-op.
    assert_eq!(store.unlike(uid, pid).unwrap().likes_count, 0);
    let again = store.unlike(uid, pid).unwrap();
    assert_eq!(again.likes_count, 0);
    assert!(!again.liked);
}

#[test]
fn like_then_unlike_restores_count_with_other_likes_present() {
    let mut store = Store::new();
    let a = store
        .register(String::from("a@e.x"), String::from("A"), "pw")
        .unwrap()
        .id;
    let b = store
        .register(String::from("b@e.x"), String::from("B"), "pw")
        .unwrap()
        .id;
    let pid = store.create_post(a, String::from("shared post")).unwrap();

    store.like(b, pid).unwrap();
    let before = store.get_post(Some(a), pid).unwrap().likes_count;
    assert_eq!(before, 1);

    store.like(a, pid).unwrap();
    let after = store.unlike(a, pid).unwrap();
    assert_eq!(after.likes_count, before);
    assert!(!after.liked);

    // The other user's like is untouched.
    let b_view = store.get_post(Some(b), pid).unwrap();
    assert_eq!(b_view.likes_count, 1);
    assert!(b_view.liked);
}

#[test]
fn anonymous_views_never_show_liked() {
    let mut store = Store::new();
    let uid = store
        .register(String::from("u@e.x"), String::from("U"), "pw")
        .unwrap()
        .id;
    let p1 = store.create_post(uid, String::from("one")).unwrap();
    let p2 = store.create_post(uid, String::from("two")).unwrap();
    store.like(uid, p1).unwrap();
    store.like(uid, p2).unwrap();

    for post in store.list_posts(None) {
        assert!(!post.liked);
        assert_eq!(post.likes_count, 1);
    }
    assert!(!store.get_post(None, p1).unwrap().liked);
    assert!(!store.get_post(None, p2).unwrap().liked);
}

#[test]
fn posts_are_listed_in_ascending_id_order() {
    let mut store = Store::new();
    let uid = store
        .register(String::from("u@e.x"), String::from("U"), "pw")
        .unwrap()
        .id;
    for body in ["first", "second", "third"] {
        store.create_post(uid, String::from(body)).unwrap();
    }
    let posts = store.list_posts(Some(uid));
    assert_eq!(posts.len(), 3);
    assert!(posts[0].id < posts[1].id && posts[1].id < posts[2].id);
    assert_eq!(posts[0].body, "first");
    assert_eq!(posts[2].body, "third");
}

#[test]
fn comments_are_counted_and_joined_with_authors() {
    let mut store = Store::new();
    let a = store
        .register(String::from("a@e.x"), String::from("Author"), "pw")
        .unwrap()
        .id;
    let c = store
        .register(String::from("c@e.x"), String::from("Commenter"), "pw")
        .unwrap()
        .id;
    let pid = store.create_post(a, String::from("discuss")).unwrap();
    let other = store.create_post(a, String::from("quiet")).unwrap();

    store.add_comment(c, pid, String::from("nice")).unwrap();
    store.add_comment(a, pid, String::from("thanks")).unwrap();

    let view = store.get_post(None, pid).unwrap();
    assert_eq!(view.comments_count, 2);
    assert_eq!(store.get_post(None, other).unwrap().comments_count, 0);

    let comments = store.comments(pid).unwrap();
    assert_eq!(comments.len(), 2);
    assert_eq!(comments[0].body, "nice");
    assert_eq!(comments[0].author, "Commenter");
    assert_eq!(comments[1].body, "thanks");
    assert_eq!(comments[1].author, "Author");
    assert_eq!(store.comments(9999).unwrap_err(), AppError::NotFound);
}

#[test]
fn empty_or_whitespace_bodies_are_rejected() {
    let mut store = Store::new();
    let uid = store
        .register(String::from("u@e.x"), String::from("U"), "pw")
        .unwrap()
        .id;
    assert_eq!(
        store.create_post(uid, String::new()).unwrap_err(),
        AppError::EmptyBody
    );
    assert_eq!(
        store.create_post(uid, String::from(" \t\r\n ")).unwrap_err(),
        AppError::EmptyBody
    );
    assert!(store.list_posts(None).is_empty());
}

#[test]
fn missing_references_fail_with_not_found() {
    let mut store = Store::new();
    assert_eq!(store.get_post(None, 1).unwrap_err(), AppError::NotFound);
    assert_eq!(store.create_session(42).unwrap_err(), AppError::NotFound);
    assert_eq!(
        store.create_post(42, String::from("body")).unwrap_err(),
        AppError::NotFound
    );
    assert_eq!(store.like(42, 1).unwrap_err(), AppError::NotFound);
    assert_eq!(store.unlike(42, 1).unwrap_err(), AppError::NotFound);
    assert_eq!(
        store.add_comment(42, 1, String::from("hi")).unwrap_err(),
        AppError::NotFound
    );
}
