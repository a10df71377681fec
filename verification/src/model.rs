//! The mathematical model of the store.
//!
//! `StoreModel` is the abstract state every contract in this crate speaks
//! of: five relations (users, sessions, posts, likes, comments) as
//! sequences of rows, plus the id counters. Each operation of the store is
//! mirrored here by a transition function (`register_t`, `like_t`, ...)
//! and an outcome function (`register_err`, `like_err`, ...), and the
//! executable methods ensure that the new state and the returned value are
//! exactly what these functions say.

use vstd::prelude::*;
use crate::errors::AppError;

verus! {

/// One row of the users relation: identity plus the stored credential hash.
pub ghost struct UserModel {
    pub id: u64,
    pub email: Seq<char>,
    pub name: Seq<char>,
    pub credential: u64,
}

/// One row of the sessions relation: an issued token mapped to its user.
pub ghost struct SessionModel {
    pub id: u64,
    pub user_id: u64,
}

/// One row of the posts relation.
pub ghost struct PostModel {
    pub id: u64,
    pub author_id: u64,
    pub body: Seq<char>,
}

/// One row of the likes relation; the `(user_id, post_id)` pair is unique.
pub ghost struct LikeModel {
    pub id: u64,
    pub user_id: u64,
    pub post_id: u64,
}

/// One row of the comments relation (an aggregate source for post views).
pub ghost struct CommentModel {
    pub id: u64,
    pub post_id: u64,
    pub author_id: u64,
    pub body: Seq<char>,
}

/// The abstract state of the whole store.
#[verifier::ext_equal]
pub ghost struct StoreModel {
    pub users: Seq<UserModel>,
    pub sessions: Seq<SessionModel>,
    pub posts: Seq<PostModel>,
    pub likes: Seq<LikeModel>,
    pub comments: Seq<CommentModel>,
    pub next_user_id: u64,
    pub next_session_id: u64,
    pub next_post_id: u64,
    pub next_like_id: u64,
    pub next_comment_id: u64,
}

/// How many like rows reference post `pid`.
pub open spec fn count_likes(s: Seq<LikeModel>, pid: u64) -> nat
    decreases s.len(),
{
    if s.len() == 0 {
        0
    } else {
        count_likes(s.drop_last(), pid) + (if s.last().post_id == pid {
            1nat
        } else {
            0nat
        })
    }
}

/// How many like rows carry exactly the pair `(uid, pid)`.
pub open spec fn count_pair(s: Seq<LikeModel>, uid: u64, pid: u64) -> nat
    decreases s.len(),
{
    if s.len() == 0 {
        0
    } else {
        count_pair(s.drop_last(), uid, pid) + (if s.last().user_id == uid && s.last().post_id
            == pid {
            1nat
        } else {
            0nat
        })
    }
}

/// How many comment rows reference post `pid`.
pub open spec fn count_comments(s: Seq<CommentModel>, pid: u64) -> nat
    decreases s.len(),
{
    if s.len() == 0 {
        0
    } else {
        count_comments(s.drop_last(), pid) + (if s.last().post_id == pid {
            1nat
        } else {
            0nat
        })
    }
}

/// How many user rows carry a given email.
pub open spec fn count_email(s: Seq<UserModel>, email: Seq<char>) -> nat
    decreases s.len(),
{
    if s.len() == 0 {
        0
    } else {
        count_email(s.drop_last(), email) + (if s.last().email == email {
            1nat
        } else {
            0nat
        })
    }
}

/// The comment rows that reference post `pid`, in stored order.
pub open spec fn comments_of(s: Seq<CommentModel>, pid: u64) -> Seq<CommentModel>
    decreases s.len(),
{
    if s.len() == 0 {
        Seq::empty()
    } else {
        let rest = comments_of(s.drop_last(), pid);
        if s.last().post_id == pid {
            rest.push(s.last())
        } else {
            rest
        }
    }
}

/// The like rows left after removing every row for the pair `(uid, pid)`.
pub open spec fn without_pair(s: Seq<LikeModel>, uid: u64, pid: u64) -> Seq<LikeModel>
    decreases s.len(),
{
    if s.len() == 0 {
        Seq::empty()
    } else {
        let rest = without_pair(s.drop_last(), uid, pid);
        if s.last().user_id == uid && s.last().post_id == pid {
            rest
        } else {
            rest.push(s.last())
        }
    }
}

/// The session rows left after removing every row with id `sid`.
pub open spec fn without_session(s: Seq<SessionModel>, sid: u64) -> Seq<SessionModel>
    decreases s.len(),
{
    if s.len() == 0 {
        Seq::empty()
    } else {
        let rest = without_session(s.drop_last(), sid);
        if s.last().id == sid {
            rest
        } else {
            rest.push(s.last())
        }
    }
}

/// What removing a session id leaves behind: no row with that id, only
/// rows of the original, distinctness kept, and every other id kept.
pub proof fn lemma_without_session(s: Seq<SessionModel>, sid: u64)
    ensures
        forall|i: int|
            0 <= i < without_session(s, sid).len() ==> (#[trigger] without_session(s, sid)[i]).id
                != sid,
        forall|i: int|
            #![trigger without_session(s, sid)[i]]
            0 <= i < without_session(s, sid).len() ==> exists|j: int|
                0 <= j < s.len() && #[trigger] s[j] == without_session(s, sid)[i],
        (forall|i: int, j: int|
            0 <= i < j < s.len() ==> (#[trigger] s[i]).id != (#[trigger] s[j]).id) ==> (forall|
            i: int,
            j: int,
        |
            0 <= i < j < without_session(s, sid).len() ==> (#[trigger] without_session(s, sid)[i]).id
                != (#[trigger] without_session(s, sid)[j]).id),
    decreases s.len(),
{
    let res = without_session(s, sid);
    if s.len() == 0 {
    } else {
        let rest = s.drop_last();
        let rrest = without_session(rest, sid);
        lemma_without_session(rest, sid);
        let last = s.last();
        assert(forall|i: int| 0 <= i < rest.len() ==> #[trigger] rest[i] == s[i]);
        assert forall|i: int|
            #![trigger res[i]]
            0 <= i < res.len() implies exists|j: int| 0 <= j < s.len() && #[trigger] s[j]
            == res[i] by {
            if last.id != sid && i == res.len() - 1 {
                assert(s[s.len() - 1] == res[i]);
            } else {
                assert(rrest[i] == res[i]);
                let j = choose|j: int| 0 <= j < rest.len() && #[trigger] rest[j] == rrest[i];
                assert(s[j] == res[i]);
            }
        }
        if forall|i: int, j: int|
            0 <= i < j < s.len() ==> (#[trigger] s[i]).id != (#[trigger] s[j]).id {
            assert(forall|i: int, j: int|
                0 <= i < j < rest.len() ==> (#[trigger] rest[i]).id != (#[trigger] rest[j]).id);
            assert forall|i: int, j: int| 0 <= i < j < res.len() implies (#[trigger] res[i]).id != (
            #[trigger] res[j]).id by {
                if last.id != sid && j == res.len() - 1 {
                    assert(rrest[i] == res[i]);
                    let k = choose|k: int| 0 <= k < rest.len() && #[trigger] rest[k] == rrest[i];
                    assert(s[k].id != s[s.len() - 1].id);
                } else {
                    assert(rrest[i] == res[i] && rrest[j] == res[j]);
                }
            }
        }
    }
}

/// Removing one session id keeps every other session id present.
pub proof fn lemma_without_session_keeps(s: Seq<SessionModel>, sid: u64, x: u64)
    requires
        x != sid,
        exists|i: int| 0 <= i < s.len() && (#[trigger] s[i]).id == x,
    ensures
        exists|i: int|
            0 <= i < without_session(s, sid).len() && (#[trigger] without_session(s, sid)[i]).id
                == x,
    decreases s.len(),
{
    let res = without_session(s, sid);
    let i = choose|i: int| 0 <= i < s.len() && (#[trigger] s[i]).id == x;
    let rest = s.drop_last();
    let rrest = without_session(rest, sid);
    let last = s.last();
    if i == s.len() - 1 {
        assert(last.id == x);
        assert(res[res.len() - 1].id == x);
    } else {
        assert(rest[i].id == x);
        lemma_without_session_keeps(rest, sid, x);
        let k = choose|k: int| 0 <= k < rrest.len() && (#[trigger] rrest[k]).id == x;
        assert(res[k].id == x);
    }
}

impl StoreModel {
    // ----- queries: users -----

    pub open spec fn has_user(self, id: u64) -> bool {
        exists|i: int| 0 <= i < self.users.len() && (#[trigger] self.users[i]).id == id
    }

    pub open spec fn user_index(self, id: u64) -> int {
        choose|i: int| 0 <= i < self.users.len() && (#[trigger] self.users[i]).id == id
    }

    /// The unique user row with id `id` (meaningful when `has_user(id)`).
    pub open spec fn user_at(self, id: u64) -> UserModel {
        self.users[self.user_index(id)]
    }

    pub open spec fn email_taken(self, email: Seq<char>) -> bool {
        exists|i: int| 0 <= i < self.users.len() && (#[trigger] self.users[i]).email == email
    }

    /// Whether row `i` matches the given login credentials.
    pub open spec fn login_matches(self, i: int, email: Seq<char>, credential: u64) -> bool {
        &&& 0 <= i < self.users.len()
        &&& self.users[i].email == email
        &&& self.users[i].credential == credential
    }

    /// The user a login resolves to: the id of the row whose email and
    /// credential hash both match, or nothing. A wrong password and an
    /// unknown email are indistinguishable here by construction.
    pub open spec fn login_user(self, email: Seq<char>, credential: u64) -> Option<u64> {
        if exists|i: int| #[trigger] self.login_matches(i, email, credential) {
            Some(self.users[choose|i: int| #[trigger] self.login_matches(i, email, credential)].id)
        } else {
            None
        }
    }

    // ----- queries: sessions -----

    pub open spec fn has_session(self, sid: u64) -> bool {
        exists|i: int| 0 <= i < self.sessions.len() && (#[trigger] self.sessions[i]).id == sid
    }

    pub open spec fn session_index(self, sid: u64) -> int {
        choose|i: int| 0 <= i < self.sessions.len() && (#[trigger] self.sessions[i]).id == sid
    }

    /// The user an active session belongs to (meaningful when `has_session`).
    pub open spec fn session_user(self, sid: u64) -> u64 {
        self.sessions[self.session_index(sid)].user_id
    }

    /// The session state machine: a session id either resolves to exactly
    /// one user (active) or to nothing (absent or revoked).
    pub open spec fn resolve(self, sid: u64) -> Option<u64> {
        if self.has_session(sid) {
            Some(self.session_user(sid))
        } else {
            None
        }
    }

    // ----- queries: posts, likes, comments -----

    pub open spec fn has_post(self, pid: u64) -> bool {
        exists|i: int| 0 <= i < self.posts.len() && (#[trigger] self.posts[i]).id == pid
    }

    pub open spec fn post_index(self, pid: u64) -> int {
        choose|i: int| 0 <= i < self.posts.len() && (#[trigger] self.posts[i]).id == pid
    }

    /// The unique post row with id `pid` (meaningful when `has_post(pid)`).
    pub open spec fn post_at(self, pid: u64) -> PostModel {
        self.posts[self.post_index(pid)]
    }

    /// Whether a like row exists for the pair `(uid, pid)`.
    pub open spec fn liked(self, uid: u64, pid: u64) -> bool {
        exists|i: int|
            0 <= i < self.likes.len() && (#[trigger] self.likes[i]).user_id == uid
                && self.likes[i].post_id == pid
    }

    /// Whether the requesting viewer has liked `pid`; an anonymous viewer
    /// never has.
    pub open spec fn viewer_liked(self, viewer: Option<u64>, pid: u64) -> bool {
        match viewer {
            Some(uid) => self.liked(uid, pid),
            None => false,
        }
    }

    /// The aggregate like count of post `pid`: the number of like rows.
    pub open spec fn likes_count(self, pid: u64) -> nat {
        count_likes(self.likes, pid)
    }

    /// The aggregate comment count of post `pid`.
    pub open spec fn comments_count(self, pid: u64) -> nat {
        count_comments(self.comments, pid)
    }

    // ----- transitions -----

    /// Registration: appends a user row with a fresh id, unless the email
    /// is already taken, in which case the state is unchanged.
    pub open spec fn register_t(self, email: Seq<char>, name: Seq<char>, credential: u64) -> StoreModel {
        if self.email_taken(email) {
            self
        } else {
            StoreModel {
                users: self.users.push(
                    (UserModel {
                        id: self.next_user_id,
                        email: email,
                        name: name,
                        credential: credential,
                    }),
                ),
                next_user_id: (self.next_user_id + 1) as u64,
                ..self
            }
        }
    }

    pub open spec fn register_err(self, email: Seq<char>) -> Option<AppError> {
        if self.email_taken(email) {
            Some(AppError::DuplicateEmail)
        } else {
            None
        }
    }

    /// Session creation: appends a session row with a fresh id for an
    /// existing user; an unknown user leaves the state unchanged.
    pub open spec fn create_session_t(self, user_id: u64) -> StoreModel {
        if self.has_user(user_id) {
            StoreModel {
                sessions: self.sessions.push(
                    (SessionModel { id: self.next_session_id, user_id: user_id }),
                ),
                next_session_id: (self.next_session_id + 1) as u64,
                ..self
            }
        } else {
            self
        }
    }

    pub open spec fn create_session_err(self, user_id: u64) -> Option<AppError> {
        if self.has_user(user_id) {
            None
        } else {
            Some(AppError::NotFound)
        }
    }

    /// Session deletion: removes every session row with id `sid`; deleting
    /// an absent session changes nothing (the operation is idempotent).
    pub open spec fn delete_session_t(self, sid: u64) -> StoreModel {
        StoreModel { sessions: without_session(self.sessions, sid), ..self }
    }

    /// Whether a post body is acceptable: non-empty after trimming ASCII
    /// whitespace, i.e. it contains at least one non-whitespace character.
    pub open spec fn body_has_content(body: Seq<char>) -> bool {
        exists|i: int| 0 <= i < body.len() && !is_space_char(#[trigger] body[i])
    }

    /// Post creation: appends a post row with a fresh id for an existing
    /// author and a body with content; otherwise the state is unchanged.
    pub open spec fn create_post_t(self, author_id: u64, body: Seq<char>) -> StoreModel {
        if Self::body_has_content(body) && self.has_user(author_id) {
            StoreModel {
                posts: self.posts.push(
                    (PostModel { id: self.next_post_id, author_id: author_id, body: body }),
                ),
                next_post_id: (self.next_post_id + 1) as u64,
                ..self
            }
        } else {
            self
        }
    }

    pub open spec fn create_post_err(self, author_id: u64, body: Seq<char>) -> Option<AppError> {
        if !Self::body_has_content(body) {
            Some(AppError::EmptyBody)
        } else if !self.has_user(author_id) {
            Some(AppError::NotFound)
        } else {
            None
        }
    }

    /// Like: appends one like row for `(uid, pid)` with a fresh id when
    /// both exist and the pair is not yet present; otherwise the state is
    /// unchanged. Liking twice is an explicit rejection, never a second row.
    pub open spec fn like_t(self, uid: u64, pid: u64) -> StoreModel {
        if self.has_user(uid) && self.has_post(pid) && !self.liked(uid, pid) {
            StoreModel {
                likes: self.likes.push(
                    (LikeModel { id: self.next_like_id, user_id: uid, post_id: pid }),
                ),
                next_like_id: (self.next_like_id + 1) as u64,
                ..self
            }
        } else {
            self
        }
    }

    pub open spec fn like_err(self, uid: u64, pid: u64) -> Option<AppError> {
        if !(self.has_user(uid) && self.has_post(pid)) {
            Some(AppError::NotFound)
        } else if self.liked(uid, pid) {
            Some(AppError::AlreadyLiked)
        } else {
            None
        }
    }

    /// Unlike: removes the like row for `(uid, pid)` if present; removing
    /// an absent like changes nothing. Fails only when the post itself is
    /// absent (no projection could be returned).
    pub open spec fn unlike_t(self, uid: u64, pid: u64) -> StoreModel {
        if self.has_post(pid) {
            StoreModel { likes: without_pair(self.likes, uid, pid), ..self }
        } else {
            self
        }
    }

    pub open spec fn unlike_err(self, uid: u64, pid: u64) -> Option<AppError> {
        if self.has_post(pid) {
            None
        } else {
            Some(AppError::NotFound)
        }
    }

    /// Comment creation: appends a comment row for an existing author and
    /// post; otherwise the state is unchanged.
    pub open spec fn add_comment_t(self, author_id: u64, pid: u64, body: Seq<char>) -> StoreModel {
        if self.has_user(author_id) && self.has_post(pid) {
            StoreModel {
                comments: self.comments.push(
                    (CommentModel {
                        id: self.next_comment_id,
                        post_id: pid,
                        author_id: author_id,
                        body: body,
                    }),
                ),
                next_comment_id: (self.next_comment_id + 1) as u64,
                ..self
            }
        } else {
            self
        }
    }

    pub open spec fn add_comment_err(self, author_id: u64, pid: u64) -> Option<AppError> {
        if self.has_user(author_id) && self.has_post(pid) {
            None
        } else {
            Some(AppError::NotFound)
        }
    }

    // ----- well-formedness -----

    /// User rows have pairwise distinct ids and emails, all below the
    /// counter.
    pub open spec fn users_wf(self) -> bool {
        &&& forall|i: int, j: int|
            0 <= i < j < self.users.len() ==> (#[trigger] self.users[i]).id != (
            #[trigger] self.users[j]).id
        &&& forall|i: int, j: int|
            0 <= i < j < self.users.len() ==> (#[trigger] self.users[i]).email != (
            #[trigger] self.users[j]).email
        &&& forall|i: int| 0 <= i < self.users.len() ==> (#[trigger] self.users[i]).id < self.next_user_id
    }

    /// Session rows have distinct ids below the counter and reference
    /// existing users.
    pub open spec fn sessions_wf(self) -> bool {
        &&& forall|i: int, j: int|
            0 <= i < j < self.sessions.len() ==> (#[trigger] self.sessions[i]).id != (
            #[trigger] self.sessions[j]).id
        &&& forall|i: int|
            0 <= i < self.sessions.len() ==> (#[trigger] self.sessions[i]).id < self.next_session_id
        &&& forall|i: int|
            0 <= i < self.sessions.len() ==> self.has_user((#[trigger] self.sessions[i]).user_id)
    }

    /// Post rows are in strictly increasing id order (so listing is stable
    /// and ids unique), ids are below the counter, and authors exist.
    pub open spec fn posts_wf(self) -> bool {
        &&& forall|i: int, j: int|
            0 <= i < j < self.posts.len() ==> (#[trigger] self.posts[i]).id < (
            #[trigger] self.posts[j]).id
        &&& forall|i: int| 0 <= i < self.posts.len() ==> (#[trigger] self.posts[i]).id < self.next_post_id
        &&& forall|i: int|
            0 <= i < self.posts.len() ==> self.has_user((#[trigger] self.posts[i]).author_id)
    }

    /// Like rows have distinct ids below the counter, pairwise distinct
    /// `(user_id, post_id)` pairs, and reference existing users and posts.
    pub open spec fn likes_wf(self) -> bool {
        &&& forall|i: int, j: int|
            0 <= i < j < self.likes.len() ==> (#[trigger] self.likes[i]).id != (
            #[trigger] self.likes[j]).id
        &&& forall|i: int| 0 <= i < self.likes.len() ==> (#[trigger] self.likes[i]).id < self.next_like_id
        &&& forall|i: int, j: int|
            0 <= i < j < self.likes.len() ==> !((#[trigger] self.likes[i]).user_id == (
            #[trigger] self.likes[j]).user_id && self.likes[i].post_id == self.likes[j].post_id)
        &&& forall|i: int|
            0 <= i < self.likes.len() ==> self.has_user((#[trigger] self.likes[i]).user_id)
        &&& forall|i: int|
            0 <= i < self.likes.len() ==> self.has_post((#[trigger] self.likes[i]).post_id)
    }

    /// Comment rows have distinct ids below the counter and reference
    /// existing users and posts.
    pub open spec fn comments_wf(self) -> bool {
        &&& forall|i: int, j: int|
            0 <= i < j < self.comments.len() ==> (#[trigger] self.comments[i]).id != (
            #[trigger] self.comments[j]).id
        &&& forall|i: int|
            0 <= i < self.comments.len() ==> (#[trigger] self.comments[i]).id < self.next_comment_id
        &&& forall|i: int|
            0 <= i < self.comments.len() ==> self.has_user((#[trigger] self.comments[i]).author_id)
        &&& forall|i: int|
            0 <= i < self.comments.len() ==> self.has_post((#[trigger] self.comments[i]).post_id)
    }

    /// The store invariant every operation preserves.
    pub open spec fn wf(self) -> bool {
        &&& self.users_wf()
        &&& self.sessions_wf()
        &&& self.posts_wf()
        &&& self.likes_wf()
        &&& self.comments_wf()
    }

    /// The empty store.
    pub open spec fn empty() -> StoreModel {
        StoreModel {
            users: Seq::empty(),
            sessions: Seq::empty(),
            posts: Seq::empty(),
            likes: Seq::empty(),
            comments: Seq::empty(),
            next_user_id: 1,
            next_session_id: 1,
            next_post_id: 1,
            next_like_id: 1,
            next_comment_id: 1,
        }
    }
}

/// ASCII whitespace, the characters trimming removes from a post body.
pub open spec fn is_space_char(c: char) -> bool {
    c == ' ' || c == '\t' || c == '\n' || c == '\r'
}

/// A like row for the pair exists exactly when the pair's row count is
/// positive.
pub proof fn lemma_count_pair_iff(s: Seq<LikeModel>, uid: u64, pid: u64)
    ensures
        (exists|i: int|
            0 <= i < s.len() && (#[trigger] s[i]).user_id == uid && s[i].post_id == pid)
            <==> count_pair(s, uid, pid) >= 1,
    decreases s.len(),
{
    if s.len() > 0 {
        let rest = s.drop_last();
        lemma_count_pair_iff(rest, uid, pid);
        assert(forall|i: int| 0 <= i < rest.len() ==> #[trigger] rest[i] == s[i]);
        let last = s.last();
        if last.user_id == uid && last.post_id == pid {
            assert(s[s.len() - 1].user_id == uid && s[s.len() - 1].post_id == pid);
        } else {
            if exists|i: int|
                0 <= i < s.len() && (#[trigger] s[i]).user_id == uid && s[i].post_id == pid {
                let i = choose|i: int|
                    0 <= i < s.len() && (#[trigger] s[i]).user_id == uid && s[i].post_id == pid;
                assert(rest[i].user_id == uid && rest[i].post_id == pid);
            }
            if count_pair(s, uid, pid) >= 1 {
                let i = choose|i: int|
                    0 <= i < rest.len() && (#[trigger] rest[i]).user_id == uid && rest[i].post_id
                        == pid;
                assert(s[i].user_id == uid && s[i].post_id == pid);
            }
        }
    }
}

/// Pairwise-distinct pairs bound each pair's row count by one.
pub proof fn lemma_count_pair_at_most_one(s: Seq<LikeModel>, uid: u64, pid: u64)
    requires
        forall|i: int, j: int|
            0 <= i < j < s.len() ==> !((#[trigger] s[i]).user_id == (#[trigger] s[j]).user_id
                && s[i].post_id == s[j].post_id),
    ensures
        count_pair(s, uid, pid) <= 1,
    decreases s.len(),
{
    if s.len() > 0 {
        let rest = s.drop_last();
        assert(forall|i: int| 0 <= i < rest.len() ==> #[trigger] rest[i] == s[i]);
        lemma_count_pair_at_most_one(rest, uid, pid);
        let last = s.last();
        if last.user_id == uid && last.post_id == pid {
            lemma_count_pair_iff(rest, uid, pid);
            if count_pair(rest, uid, pid) >= 1 {
                let i = choose|i: int|
                    0 <= i < rest.len() && (#[trigger] rest[i]).user_id == uid && rest[i].post_id
                        == pid;
                assert(!(s[i].user_id == s[s.len() - 1].user_id && s[i].post_id == s[s.len()
                    - 1].post_id));
            }
        }
    }
}

/// What removing a pair's rows leaves behind: no row for the pair, only
/// rows of the original, per-post counts reduced by exactly the pair's
/// rows, and distinctness kept.
pub proof fn lemma_without_pair(s: Seq<LikeModel>, uid: u64, pid: u64)
    ensures
        forall|i: int|
            0 <= i < without_pair(s, uid, pid).len() ==> !((#[trigger] without_pair(
                s,
                uid,
                pid,
            )[i]).user_id == uid && without_pair(s, uid, pid)[i].post_id == pid),
        forall|i: int|
            #![trigger without_pair(s, uid, pid)[i]]
            0 <= i < without_pair(s, uid, pid).len() ==> exists|j: int|
                0 <= j < s.len() && #[trigger] s[j] == without_pair(s, uid, pid)[i],
        forall|q: u64|
            #[trigger] count_likes(without_pair(s, uid, pid), q) + (if q == pid {
                count_pair(s, uid, pid)
            } else {
                0nat
            }) == count_likes(s, q),
        (forall|i: int, j: int|
            0 <= i < j < s.len() ==> (#[trigger] s[i]).id != (#[trigger] s[j]).id) ==> (forall|
            i: int,
            j: int,
        |
            0 <= i < j < without_pair(s, uid, pid).len() ==> (#[trigger] without_pair(
                s,
                uid,
                pid,
            )[i]).id != (#[trigger] without_pair(s, uid, pid)[j]).id),
        (forall|i: int, j: int|
            0 <= i < j < s.len() ==> !((#[trigger] s[i]).user_id == (#[trigger] s[j]).user_id
                && s[i].post_id == s[j].post_id)) ==> (forall|i: int, j: int|
            0 <= i < j < without_pair(s, uid, pid).len() ==> !((#[trigger] without_pair(
                s,
                uid,
                pid,
            )[i]).user_id == (#[trigger] without_pair(s, uid, pid)[j]).user_id && without_pair(
                s,
                uid,
                pid,
            )[i].post_id == without_pair(s, uid, pid)[j].post_id)),
    decreases s.len(),
{
    let res = without_pair(s, uid, pid);
    if s.len() == 0 {
    } else {
        let rest = s.drop_last();
        let rrest = without_pair(rest, uid, pid);
        lemma_without_pair(rest, uid, pid);
        let last = s.last();
        let matched = last.user_id == uid && last.post_id == pid;
        assert(forall|i: int| 0 <= i < rest.len() ==> #[trigger] rest[i] == s[i]);
        assert forall|i: int|
            #![trigger res[i]]
            0 <= i < res.len() implies exists|j: int| 0 <= j < s.len() && #[trigger] s[j]
            == res[i] by {
            if !matched && i == res.len() - 1 {
                assert(s[s.len() - 1] == res[i]);
            } else {
                assert(rrest[i] == res[i]);
                let j = choose|j: int| 0 <= j < rest.len() && #[trigger] rest[j] == rrest[i];
                assert(s[j] == res[i]);
            }
        }
        assert forall|q: u64|
            #[trigger] count_likes(res, q) + (if q == pid {
                count_pair(s, uid, pid)
            } else {
                0nat
            }) == count_likes(s, q) by {
            assert(count_likes(rrest, q) + (if q == pid {
                count_pair(rest, uid, pid)
            } else {
                0nat
            }) == count_likes(rest, q));
            if !matched {
                assert(res.drop_last() =~= rrest);
            }
        }
        if forall|i: int, j: int|
            0 <= i < j < s.len() ==> (#[trigger] s[i]).id != (#[trigger] s[j]).id {
            assert(forall|i: int, j: int|
                0 <= i < j < rest.len() ==> (#[trigger] rest[i]).id != (#[trigger] rest[j]).id);
            assert forall|i: int, j: int| 0 <= i < j < res.len() implies (#[trigger] res[i]).id != (
            #[trigger] res[j]).id by {
                if !matched && j == res.len() - 1 {
                    assert(rrest[i] == res[i]);
                    let k = choose|k: int| 0 <= k < rest.len() && #[trigger] rest[k] == rrest[i];
                    assert(s[k].id != s[s.len() - 1].id);
                } else {
                    assert(rrest[i] == res[i] && rrest[j] == res[j]);
                }
            }
        }
        if forall|i: int, j: int|
            0 <= i < j < s.len() ==> !((#[trigger] s[i]).user_id == (#[trigger] s[j]).user_id
                && s[i].post_id == s[j].post_id) {
            assert(forall|i: int, j: int|
                0 <= i < j < rest.len() ==> !((#[trigger] rest[i]).user_id == (
                #[trigger] rest[j]).user_id && rest[i].post_id == rest[j].post_id));
            assert forall|i: int, j: int| 0 <= i < j < res.len() implies !((
            #[trigger] res[i]).user_id == (#[trigger] res[j]).user_id && res[i].post_id
                == res[j].post_id) by {
                if !matched && j == res.len() - 1 {
                    assert(rrest[i] == res[i]);
                    let k = choose|k: int| 0 <= k < rest.len() && #[trigger] rest[k] == rrest[i];
                    assert(!(s[k].user_id == s[s.len() - 1].user_id && s[k].post_id == s[s.len()
                        - 1].post_id));
                } else {
                    assert(rrest[i] == res[i] && rrest[j] == res[j]);
                }
            }
        }
    }
}

/// An email no user row carries has a zero row count.
pub proof fn lemma_count_email_zero(s: Seq<UserModel>, email: Seq<char>)
    requires
        forall|i: int| 0 <= i < s.len() ==> (#[trigger] s[i]).email != email,
    ensures
        count_email(s, email) == 0,
    decreases s.len(),
{
    if s.len() > 0 {
        let rest = s.drop_last();
        assert(forall|i: int| 0 <= i < rest.len() ==> #[trigger] rest[i] == s[i]);
        lemma_count_email_zero(rest, email);
        assert(s[s.len() - 1].email != email);
    }
}

/// A post no like row references has a zero like count.
pub proof fn lemma_count_likes_zero(s: Seq<LikeModel>, pid: u64)
    requires
        forall|i: int| 0 <= i < s.len() ==> (#[trigger] s[i]).post_id != pid,
    ensures
        count_likes(s, pid) == 0,
    decreases s.len(),
{
    if s.len() > 0 {
        let rest = s.drop_last();
        assert(forall|i: int| 0 <= i < rest.len() ==> #[trigger] rest[i] == s[i]);
        lemma_count_likes_zero(rest, pid);
        assert(s[s.len() - 1].post_id != pid);
    }
}

/// A post no comment row references has a zero comment count.
pub proof fn lemma_count_comments_zero(s: Seq<CommentModel>, pid: u64)
    requires
        forall|i: int| 0 <= i < s.len() ==> (#[trigger] s[i]).post_id != pid,
    ensures
        count_comments(s, pid) == 0,
    decreases s.len(),
{
    if s.len() > 0 {
        let rest = s.drop_last();
        assert(forall|i: int| 0 <= i < rest.len() ==> #[trigger] rest[i] == s[i]);
        lemma_count_comments_zero(rest, pid);
        assert(s[s.len() - 1].post_id != pid);
    }
}

/// Removing a pair that has no rows changes nothing.
pub proof fn lemma_without_pair_absent(s: Seq<LikeModel>, uid: u64, pid: u64)
    requires
        forall|i: int|
            0 <= i < s.len() ==> !((#[trigger] s[i]).user_id == uid && s[i].post_id == pid),
    ensures
        without_pair(s, uid, pid) == s,
    decreases s.len(),
{
    if s.len() > 0 {
        let rest = s.drop_last();
        assert(forall|i: int| 0 <= i < rest.len() ==> #[trigger] rest[i] == s[i]);
        lemma_without_pair_absent(rest, uid, pid);
        assert(!(s[s.len() - 1].user_id == uid && s[s.len() - 1].post_id == pid));
        assert(without_pair(s, uid, pid) =~= s);
    }
}

/// The comment rows selected for a post: as many as the count says, all
/// for that post, and all rows of the original.
pub proof fn lemma_comments_of(s: Seq<CommentModel>, pid: u64)
    ensures
        comments_of(s, pid).len() == count_comments(s, pid),
        forall|i: int|
            0 <= i < comments_of(s, pid).len() ==> (#[trigger] comments_of(s, pid)[i]).post_id
                == pid,
        forall|i: int|
            #![trigger comments_of(s, pid)[i]]
            0 <= i < comments_of(s, pid).len() ==> exists|j: int|
                0 <= j < s.len() && #[trigger] s[j] == comments_of(s, pid)[i],
    decreases s.len(),
{
    let res = comments_of(s, pid);
    if s.len() > 0 {
        let rest = s.drop_last();
        let rrest = comments_of(rest, pid);
        lemma_comments_of(rest, pid);
        assert(forall|i: int| 0 <= i < rest.len() ==> #[trigger] rest[i] == s[i]);
        assert forall|i: int|
            #![trigger res[i]]
            0 <= i < res.len() implies exists|j: int| 0 <= j < s.len() && #[trigger] s[j]
            == res[i] by {
            if s.last().post_id == pid && i == res.len() - 1 {
                assert(s[s.len() - 1] == res[i]);
            } else {
                assert(rrest[i] == res[i]);
                let j = choose|j: int| 0 <= j < rest.len() && #[trigger] rest[j] == rrest[i];
                assert(s[j] == res[i]);
            }
        }
    }
}

/// Two states with the same user rows agree on which users exist.
pub proof fn lemma_same_users_has(m1: StoreModel, m2: StoreModel, id: u64)
    requires
        m1.users == m2.users,
        m1.has_user(id),
    ensures
        m2.has_user(id),
{
    let i = choose|i: int| 0 <= i < m1.users.len() && (#[trigger] m1.users[i]).id == id;
    assert(m2.users[i].id == id);
}

/// Two states with the same post rows agree on which posts exist.
pub proof fn lemma_same_posts_has(m1: StoreModel, m2: StoreModel, pid: u64)
    requires
        m1.posts == m2.posts,
        m1.has_post(pid),
    ensures
        m2.has_post(pid),
{
    let i = choose|i: int| 0 <= i < m1.posts.len() && (#[trigger] m1.posts[i]).id == pid;
    assert(m2.posts[i].id == pid);
}

impl StoreModel {
    /// In a well-formed store, `user_index` is the one index carrying a
    /// given user id.
    pub proof fn lemma_user_index(self, id: u64)
        requires
            self.users_wf(),
            self.has_user(id),
        ensures
            0 <= self.user_index(id) < self.users.len(),
            self.user_at(id).id == id,
            forall|i: int|
                0 <= i < self.users.len() && (#[trigger] self.users[i]).id == id ==> i
                    == self.user_index(id),
    {
        let k = self.user_index(id);
        assert(0 <= k < self.users.len() && self.users[k].id == id);
        assert forall|i: int|
            0 <= i < self.users.len() && (#[trigger] self.users[i]).id == id implies i == k by {
            if i != k {
                if i < k {
                    assert(self.users[i].id != self.users[k].id);
                } else {
                    assert(self.users[k].id != self.users[i].id);
                }
            }
        }
    }

    /// In a well-formed store, `session_index` is the one index carrying a
    /// given session id.
    pub proof fn lemma_session_index(self, sid: u64)
        requires
            self.sessions_wf(),
            self.has_session(sid),
        ensures
            0 <= self.session_index(sid) < self.sessions.len(),
            self.sessions[self.session_index(sid)].id == sid,
            forall|i: int|
                0 <= i < self.sessions.len() && (#[trigger] self.sessions[i]).id == sid ==> i
                    == self.session_index(sid),
    {
        let k = self.session_index(sid);
        assert(0 <= k < self.sessions.len() && self.sessions[k].id == sid);
        assert forall|i: int|
            0 <= i < self.sessions.len() && (#[trigger] self.sessions[i]).id == sid implies i
            == k by {
            if i < k {
                assert(self.sessions[i].id != self.sessions[k].id);
            } else if k < i {
                assert(self.sessions[k].id != self.sessions[i].id);
            }
        }
    }

    /// In a well-formed store, `post_index` is the one index carrying a
    /// given post id.
    pub proof fn lemma_post_index(self, pid: u64)
        requires
            self.posts_wf(),
            self.has_post(pid),
        ensures
            0 <= self.post_index(pid) < self.posts.len(),
            self.post_at(pid).id == pid,
            forall|i: int|
                0 <= i < self.posts.len() && (#[trigger] self.posts[i]).id == pid ==> i
                    == self.post_index(pid),
    {
        let k = self.post_index(pid);
        assert(0 <= k < self.posts.len() && self.posts[k].id == pid);
        assert forall|i: int|
            0 <= i < self.posts.len() && (#[trigger] self.posts[i]).id == pid implies i == k by {
            if i < k {
                assert(self.posts[i].id < self.posts[k].id);
            } else if k < i {
                assert(self.posts[k].id < self.posts[i].id);
            }
        }
    }

    /// Creating a session preserves the store invariant, and the fresh
    /// session resolves to the user it was created for.
    pub proof fn lemma_create_session_wf(self, user_id: u64)
        requires
            self.wf(),
            self.next_session_id < u64::MAX,
        ensures
            self.create_session_t(user_id).wf(),
            self.has_user(user_id) ==> self.create_session_t(user_id).resolve(self.next_session_id)
                == Some(user_id),
    {
        if self.has_user(user_id) {
            let m2 = self.create_session_t(user_id);
            let n = self.sessions.len() as int;
            assert(m2.sessions[n].id == self.next_session_id);
            assert forall|i: int, j: int| 0 <= i < j < m2.sessions.len() implies (
            #[trigger] m2.sessions[i]).id != (#[trigger] m2.sessions[j]).id by {
                if j == n {
                    assert(self.sessions[i].id < self.next_session_id);
                }
            }
            assert forall|i: int| 0 <= i < m2.sessions.len() implies m2.has_user(
                (#[trigger] m2.sessions[i]).user_id,
            ) by {
                if i < n {
                    assert(self.has_user(self.sessions[i].user_id));
                    lemma_same_users_has(self, m2, self.sessions[i].user_id);
                } else {
                    lemma_same_users_has(self, m2, user_id);
                }
            }
            assert(m2.sessions_wf());
            assert forall|i: int| 0 <= i < m2.posts.len() implies m2.has_user(
                (#[trigger] m2.posts[i]).author_id,
            ) by {
                lemma_same_users_has(self, m2, self.posts[i].author_id);
            }
            assert forall|i: int| 0 <= i < m2.likes.len() implies m2.has_user(
                (#[trigger] m2.likes[i]).user_id,
            ) && m2.has_post(m2.likes[i].post_id) by {
                lemma_same_users_has(self, m2, self.likes[i].user_id);
                lemma_same_posts_has(self, m2, self.likes[i].post_id);
            }
            assert forall|i: int| 0 <= i < m2.comments.len() implies m2.has_user(
                (#[trigger] m2.comments[i]).author_id,
            ) && m2.has_post(m2.comments[i].post_id) by {
                lemma_same_users_has(self, m2, self.comments[i].author_id);
                lemma_same_posts_has(self, m2, self.comments[i].post_id);
            }
            assert(m2.has_session(self.next_session_id));
            m2.lemma_session_index(self.next_session_id);
            assert(m2.session_index(self.next_session_id) == n);
            assert(m2.session_user(self.next_session_id) == user_id);
        }
    }

    /// Deleting a session preserves the store invariant, removes the given
    /// session, and keeps every other session.
    pub proof fn lemma_delete_session_wf(self, sid: u64)
        requires
            self.wf(),
        ensures
            self.delete_session_t(sid).wf(),
            !self.delete_session_t(sid).has_session(sid),
            forall|x: u64|
                x != sid ==> (self.delete_session_t(sid).has_session(x) <==> #[trigger] self.has_session(
                    x,
                )),
    {
        lemma_without_session(self.sessions, sid);
        let m2 = self.delete_session_t(sid);
        let res = without_session(self.sessions, sid);
        assert forall|i: int, j: int| 0 <= i < j < res.len() implies (#[trigger] res[i]).id != (
        #[trigger] res[j]).id by {}
        assert forall|i: int| 0 <= i < res.len() implies (#[trigger] res[i]).id
            < self.next_session_id && m2.has_user(res[i].user_id) by {
            let j = choose|j: int| 0 <= j < self.sessions.len() && #[trigger] self.sessions[j]
                == res[i];
            assert(self.sessions[j].id < self.next_session_id);
            assert(self.has_user(self.sessions[j].user_id));
            lemma_same_users_has(self, m2, self.sessions[j].user_id);
        }
        assert(m2.sessions_wf());
        assert forall|i: int| 0 <= i < m2.posts.len() implies m2.has_user(
            (#[trigger] m2.posts[i]).author_id,
        ) by {
            lemma_same_users_has(self, m2, self.posts[i].author_id);
        }
        assert forall|i: int| 0 <= i < m2.likes.len() implies m2.has_user(
            (#[trigger] m2.likes[i]).user_id,
        ) && m2.has_post(m2.likes[i].post_id) by {
            lemma_same_users_has(self, m2, self.likes[i].user_id);
            lemma_same_posts_has(self, m2, self.likes[i].post_id);
        }
        assert forall|i: int| 0 <= i < m2.comments.len() implies m2.has_user(
            (#[trigger] m2.comments[i]).author_id,
        ) && m2.has_post(m2.comments[i].post_id) by {
            lemma_same_users_has(self, m2, self.comments[i].author_id);
            lemma_same_posts_has(self, m2, self.comments[i].post_id);
        }
        if m2.has_session(sid) {
            let i = choose|i: int|
                0 <= i < m2.sessions.len() && (#[trigger] m2.sessions[i]).id == sid;
            assert(res[i].id != sid);
        }
        assert forall|x: u64| x != sid implies (m2.has_session(x) <==> self.has_session(x)) by {
            if self.has_session(x) {
                lemma_without_session_keeps(self.sessions, sid, x);
                let k = choose|k: int|
                    0 <= k < without_session(self.sessions, sid).len() && (
                    #[trigger] without_session(self.sessions, sid)[k]).id == x;
                assert(m2.sessions[k].id == x);
            }
            if m2.has_session(x) {
                let i = choose|i: int|
                    0 <= i < m2.sessions.len() && (#[trigger] m2.sessions[i]).id == x;
                let j = choose|j: int|
                    0 <= j < self.sessions.len() && #[trigger] self.sessions[j] == res[i];
                assert(self.sessions[j].id == x);
            }
        }
    }

    /// Carries the session and comment table invariants to a state that
    /// kept those tables and all referenced users and posts.
    pub proof fn lemma_refs_transfer(self, m2: StoreModel)
        requires
            self.wf(),
            m2.sessions == self.sessions,
            m2.comments == self.comments,
            m2.next_session_id == self.next_session_id,
            m2.next_comment_id == self.next_comment_id,
            forall|id: u64| #[trigger] self.has_user(id) ==> m2.has_user(id),
            forall|p: u64| #[trigger] self.has_post(p) ==> m2.has_post(p),
        ensures
            m2.sessions_wf(),
            m2.comments_wf(),
    {
        assert forall|i: int| 0 <= i < m2.sessions.len() implies m2.has_user(
            (#[trigger] m2.sessions[i]).user_id,
        ) by {
            assert(self.has_user(self.sessions[i].user_id));
        }
        assert forall|i: int| 0 <= i < m2.comments.len() implies m2.has_user(
            (#[trigger] m2.comments[i]).author_id,
        ) && m2.has_post(m2.comments[i].post_id) by {
            assert(self.has_user(self.comments[i].author_id));
            assert(self.has_post(self.comments[i].post_id));
        }
    }

    /// A like preserves the store invariant; on success the pair becomes
    /// liked, the post's count grows by one, and other posts' counts are
    /// untouched.
    pub proof fn lemma_like_wf(self, uid: u64, pid: u64)
        requires
            self.wf(),
            self.next_like_id < u64::MAX,
        ensures
            self.like_t(uid, pid).wf(),
            self.has_user(uid) && self.has_post(pid) && !self.liked(uid, pid) ==> {
                let m2 = self.like_t(uid, pid);
                &&& m2.liked(uid, pid)
                &&& m2.likes_count(pid) == self.likes_count(pid) + 1
                &&& forall|q: u64|
                    q != pid ==> #[trigger] m2.likes_count(q) == self.likes_count(q)
            },
    {
        if self.has_user(uid) && self.has_post(pid) && !self.liked(uid, pid) {
            let m2 = self.like_t(uid, pid);
            let n = self.likes.len() as int;
            assert(m2.likes[n] == (LikeModel {
                id: self.next_like_id,
                user_id: uid,
                post_id: pid,
            }));
            assert(forall|i: int| 0 <= i < n ==> #[trigger] m2.likes[i] == self.likes[i]);
            assert forall|id: u64| self.has_user(id) implies m2.has_user(id) by {
                lemma_same_users_has(self, m2, id);
            }
            assert forall|p: u64| self.has_post(p) implies m2.has_post(p) by {
                lemma_same_posts_has(self, m2, p);
            }
            self.lemma_refs_transfer(m2);
            assert forall|i: int, j: int| 0 <= i < j < m2.likes.len() implies (
            #[trigger] m2.likes[i]).id != (#[trigger] m2.likes[j]).id by {
                if j == n {
                    assert(self.likes[i].id < self.next_like_id);
                }
            }
            assert forall|i: int, j: int| 0 <= i < j < m2.likes.len() implies !((
            #[trigger] m2.likes[i]).user_id == (#[trigger] m2.likes[j]).user_id
                && m2.likes[i].post_id == m2.likes[j].post_id) by {
                if j == n {
                    if m2.likes[i].user_id == uid && m2.likes[i].post_id == pid {
                        assert(self.liked(uid, pid));
                    }
                }
            }
            assert forall|i: int| 0 <= i < m2.likes.len() implies m2.has_user(
                (#[trigger] m2.likes[i]).user_id,
            ) && m2.has_post(m2.likes[i].post_id) by {
                if i < n {
                    assert(self.has_user(self.likes[i].user_id));
                    assert(self.has_post(self.likes[i].post_id));
                }
            }
            assert(m2.likes_wf());
            assert(m2.liked(uid, pid));
            assert(m2.likes.drop_last() =~= self.likes);
            assert(m2.likes_count(pid) == self.likes_count(pid) + 1);
            assert forall|q: u64| q != pid implies #[trigger] m2.likes_count(q)
                == self.likes_count(q) by {
                assert(m2.likes.drop_last() =~= self.likes);
            }
        }
    }

    /// An unlike preserves the store invariant; afterwards the pair is not
    /// liked, the post's count has shrunk by exactly the pair's rows, other
    /// posts' counts are untouched, and an unlike of a pair that was never
    /// liked changes nothing at all.
    pub proof fn lemma_unlike_wf(self, uid: u64, pid: u64)
        requires
            self.wf(),
        ensures
            self.unlike_t(uid, pid).wf(),
            !self.unlike_t(uid, pid).liked(uid, pid),
            self.liked(uid, pid) ==> count_pair(self.likes, uid, pid) == 1,
            self.has_post(pid) ==> self.unlike_t(uid, pid).likes_count(pid) + count_pair(
                self.likes,
                uid,
                pid,
            ) == self.likes_count(pid),
            self.has_post(pid) ==> forall|q: u64|
                q != pid ==> #[trigger] self.unlike_t(uid, pid).likes_count(q) == self.likes_count(
                    q,
                ),
            !self.liked(uid, pid) ==> self.unlike_t(uid, pid) == self,
    {
        let m2 = self.unlike_t(uid, pid);
        lemma_without_pair(self.likes, uid, pid);
        lemma_count_pair_iff(self.likes, uid, pid);
        lemma_count_pair_at_most_one(self.likes, uid, pid);
        if !self.liked(uid, pid) {
            assert forall|i: int| 0 <= i < self.likes.len() implies !((
            #[trigger] self.likes[i]).user_id == uid && self.likes[i].post_id == pid) by {}
            lemma_without_pair_absent(self.likes, uid, pid);
            assert(m2 =~= self);
        }
        if self.liked(uid, pid) {
            assert(self.has_post(pid)) by {
                let i = choose|i: int|
                    0 <= i < self.likes.len() && (#[trigger] self.likes[i]).user_id == uid
                        && self.likes[i].post_id == pid;
                assert(self.has_post(self.likes[i].post_id));
            }
        }
        if self.has_post(pid) {
            let res = without_pair(self.likes, uid, pid);
            assert forall|id: u64| self.has_user(id) implies m2.has_user(id) by {
                lemma_same_users_has(self, m2, id);
            }
            assert forall|p: u64| self.has_post(p) implies m2.has_post(p) by {
                lemma_same_posts_has(self, m2, p);
            }
            self.lemma_refs_transfer(m2);
            assert forall|i: int| 0 <= i < res.len() implies (#[trigger] res[i]).id
                < self.next_like_id && m2.has_user(res[i].user_id) && m2.has_post(
                res[i].post_id,
            ) by {
                let j = choose|j: int| 0 <= j < self.likes.len() && #[trigger] self.likes[j]
                    == res[i];
                assert(self.likes[j].id < self.next_like_id);
                assert(self.has_user(self.likes[j].user_id));
                assert(self.has_post(self.likes[j].post_id));
            }
            assert(m2.likes_wf());
            if m2.liked(uid, pid) {
                let i = choose|i: int|
                    0 <= i < m2.likes.len() && (#[trigger] m2.likes[i]).user_id == uid
                        && m2.likes[i].post_id == pid;
                assert(!(res[i].user_id == uid && res[i].post_id == pid));
            }
        }
    }

    /// Creating a post preserves the store invariant; on success the new
    /// post exists with a fresh id, no likes, and no comments.
    pub proof fn lemma_create_post_wf(self, author_id: u64, body: Seq<char>)
        requires
            self.wf(),
            self.next_post_id < u64::MAX,
        ensures
            self.create_post_t(author_id, body).wf(),
            Self::body_has_content(body) && self.has_user(author_id) ==> {
                let m2 = self.create_post_t(author_id, body);
                &&& m2.has_post(self.next_post_id)
                &&& m2.post_at(self.next_post_id) == (PostModel {
                    id: self.next_post_id,
                    author_id: author_id,
                    body: body,
                })
                &&& m2.likes_count(self.next_post_id) == 0
                &&& m2.comments_count(self.next_post_id) == 0
                &&& !self.has_post(self.next_post_id)
            },
    {
        if Self::body_has_content(body) && self.has_user(author_id) {
            let m2 = self.create_post_t(author_id, body);
            let n = self.posts.len() as int;
            assert(m2.posts[n] == (PostModel {
                id: self.next_post_id,
                author_id: author_id,
                body: body,
            }));
            assert(forall|i: int| 0 <= i < n ==> #[trigger] m2.posts[i] == self.posts[i]);
            assert forall|id: u64| self.has_user(id) implies m2.has_user(id) by {
                lemma_same_users_has(self, m2, id);
            }
            assert forall|p: u64| self.has_post(p) implies m2.has_post(p) by {
                let i = choose|i: int|
                    0 <= i < self.posts.len() && (#[trigger] self.posts[i]).id == p;
                assert(m2.posts[i].id == p);
            }
            self.lemma_refs_transfer(m2);
            assert forall|i: int, j: int| 0 <= i < j < m2.posts.len() implies (
            #[trigger] m2.posts[i]).id < (#[trigger] m2.posts[j]).id by {
                if j == n {
                    assert(self.posts[i].id < self.next_post_id);
                }
            }
            assert forall|i: int| 0 <= i < m2.posts.len() implies m2.has_user(
                (#[trigger] m2.posts[i]).author_id,
            ) by {
                if i < n {
                    assert(self.has_user(self.posts[i].author_id));
                    lemma_same_users_has(self, m2, self.posts[i].author_id);
                } else {
                    lemma_same_users_has(self, m2, author_id);
                }
            }
            assert(m2.posts_wf());
            assert forall|i: int| 0 <= i < m2.likes.len() implies m2.has_user(
                (#[trigger] m2.likes[i]).user_id,
            ) && m2.has_post(m2.likes[i].post_id) by {
                assert(self.has_user(self.likes[i].user_id));
                assert(self.has_post(self.likes[i].post_id));
            }
            if self.has_post(self.next_post_id) {
                let i = choose|i: int|
                    0 <= i < self.posts.len() && (#[trigger] self.posts[i]).id
                        == self.next_post_id;
                assert(self.posts[i].id < self.next_post_id);
            }
            assert(m2.has_post(self.next_post_id));
            m2.lemma_post_index(self.next_post_id);
            assert(m2.post_index(self.next_post_id) == n);
            assert forall|i: int| 0 <= i < self.likes.len() implies (
            #[trigger] self.likes[i]).post_id != self.next_post_id by {
                assert(self.has_post(self.likes[i].post_id));
                let k = choose|k: int|
                    0 <= k < self.posts.len() && (#[trigger] self.posts[k]).id
                        == self.likes[i].post_id;
                assert(self.posts[k].id < self.next_post_id);
            }
            assert forall|i: int| 0 <= i < self.comments.len() implies (
            #[trigger] self.comments[i]).post_id != self.next_post_id by {
                assert(self.has_post(self.comments[i].post_id));
                let k = choose|k: int|
                    0 <= k < self.posts.len() && (#[trigger] self.posts[k]).id
                        == self.comments[i].post_id;
                assert(self.posts[k].id < self.next_post_id);
            }
            lemma_count_likes_zero(self.likes, self.next_post_id);
            lemma_count_comments_zero(self.comments, self.next_post_id);
            assert(m2.likes_count(self.next_post_id) == 0);
            assert(m2.comments_count(self.next_post_id) == 0);
        }
    }

    /// Adding a comment preserves the store invariant; on success the
    /// post's comment count grows by one and other posts' are untouched.
    pub proof fn lemma_add_comment_wf(self, author_id: u64, pid: u64, body: Seq<char>)
        requires
            self.wf(),
            self.next_comment_id < u64::MAX,
        ensures
            self.add_comment_t(author_id, pid, body).wf(),
            self.has_user(author_id) && self.has_post(pid) ==> {
                let m2 = self.add_comment_t(author_id, pid, body);
                &&& m2.comments_count(pid) == self.comments_count(pid) + 1
                &&& forall|q: u64|
                    q != pid ==> #[trigger] m2.comments_count(q) == self.comments_count(q)
            },
    {
        if self.has_user(author_id) && self.has_post(pid) {
            let m2 = self.add_comment_t(author_id, pid, body);
            let n = self.comments.len() as int;
            assert(forall|i: int| 0 <= i < n ==> #[trigger] m2.comments[i] == self.comments[i]);
            assert forall|i: int, j: int| 0 <= i < j < m2.comments.len() implies (
            #[trigger] m2.comments[i]).id != (#[trigger] m2.comments[j]).id by {
                if j == n {
                    assert(self.comments[i].id < self.next_comment_id);
                }
            }
            assert forall|i: int| 0 <= i < m2.comments.len() implies m2.has_user(
                (#[trigger] m2.comments[i]).author_id,
            ) && m2.has_post(m2.comments[i].post_id) by {
                if i < n {
                    assert(self.has_user(self.comments[i].author_id));
                    assert(self.has_post(self.comments[i].post_id));
                }
                lemma_same_users_has(self, m2, m2.comments[i].author_id);
                lemma_same_posts_has(self, m2, m2.comments[i].post_id);
            }
            assert(m2.comments_wf());
            assert forall|i: int| 0 <= i < m2.sessions.len() implies m2.has_user(
                (#[trigger] m2.sessions[i]).user_id,
            ) by {
                assert(self.has_user(self.sessions[i].user_id));
                lemma_same_users_has(self, m2, self.sessions[i].user_id);
            }
            assert forall|i: int| 0 <= i < m2.posts.len() implies m2.has_user(
                (#[trigger] m2.posts[i]).author_id,
            ) by {
                assert(self.has_user(self.posts[i].author_id));
                lemma_same_users_has(self, m2, self.posts[i].author_id);
            }
            assert forall|i: int| 0 <= i < m2.likes.len() implies m2.has_user(
                (#[trigger] m2.likes[i]).user_id,
            ) && m2.has_post(m2.likes[i].post_id) by {
                assert(self.has_user(self.likes[i].user_id));
                assert(self.has_post(self.likes[i].post_id));
                lemma_same_users_has(self, m2, self.likes[i].user_id);
                lemma_same_posts_has(self, m2, self.likes[i].post_id);
            }
            assert(m2.comments.drop_last() =~= self.comments);
            assert(m2.comments_count(pid) == self.comments_count(pid) + 1);
            assert forall|q: u64| q != pid implies #[trigger] m2.comments_count(q)
                == self.comments_count(q) by {
                assert(m2.comments.drop_last() =~= self.comments);
            }
        }
    }

    /// Registration preserves the store invariant and every existing user,
    /// and makes the new email taken.
    pub proof fn lemma_register_wf(self, email: Seq<char>, name: Seq<char>, credential: u64)
        requires
            self.wf(),
            self.next_user_id < u64::MAX,
        ensures
            self.register_t(email, name, credential).wf(),
            forall|id: u64|
                self.register_t(email, name, credential).has_user(id) <==> (#[trigger] self.has_user(
                    id,
                ) || (!self.email_taken(email) && id == self.next_user_id)),
            self.register_t(email, name, credential).email_taken(email),
    {
        if self.email_taken(email) {
        } else {
            let m2 = self.register_t(email, name, credential);
            let n = self.users.len() as int;
            assert(m2.users[n].id == self.next_user_id);
            assert(m2.users[n].email == email);
            assert forall|id: u64| self.has_user(id) implies m2.has_user(id) by {
                let i = choose|i: int|
                    0 <= i < self.users.len() && (#[trigger] self.users[i]).id == id;
                assert(m2.users[i].id == id);
            }
            assert forall|id: u64| m2.has_user(id) implies self.has_user(id) || id
                == self.next_user_id by {
                let i = choose|i: int| 0 <= i < m2.users.len() && (#[trigger] m2.users[i]).id == id;
                if i < n {
                    assert(self.users[i].id == id);
                }
            }
            assert(m2.has_user(self.next_user_id));
            assert(m2.email_taken(email));
            assert forall|i: int, j: int| 0 <= i < j < m2.users.len() implies (
            #[trigger] m2.users[i]).id != (#[trigger] m2.users[j]).id by {
                if j == n {
                    assert(self.users[i].id < self.next_user_id);
                }
            }
            assert forall|i: int, j: int| 0 <= i < j < m2.users.len() implies (
            #[trigger] m2.users[i]).email != (#[trigger] m2.users[j]).email by {
                if j == n {
                    if m2.users[i].email == email {
                        assert(self.email_taken(email));
                    }
                }
            }
            assert(m2.users_wf());
            assert forall|i: int| 0 <= i < m2.sessions.len() implies m2.has_user(
                (#[trigger] m2.sessions[i]).user_id,
            ) by {
                assert(self.has_user(self.sessions[i].user_id));
            }
            assert forall|i: int| 0 <= i < m2.posts.len() implies m2.has_user(
                (#[trigger] m2.posts[i]).author_id,
            ) by {
                assert(self.has_user(self.posts[i].author_id));
            }
            assert forall|i: int| 0 <= i < m2.likes.len() implies m2.has_user(
                (#[trigger] m2.likes[i]).user_id,
            ) by {
                assert(self.has_user(self.likes[i].user_id));
            }
            assert forall|i: int| 0 <= i < m2.comments.len() implies m2.has_user(
                (#[trigger] m2.comments[i]).author_id,
            ) by {
                assert(self.has_user(self.comments[i].author_id));
            }
        }
    }
}

} // verus!
