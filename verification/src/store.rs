//! The executable store and its row and projection types.
//!
//! `Store` holds the five relations as vectors of plain rows; its view is
//! the abstract `StoreModel` that every contract speaks of.

use vstd::prelude::*;
use crate::model::{CommentModel, LikeModel, PostModel, SessionModel, StoreModel, UserModel};

verus! {

/// A stored user row; the credential is kept only as a hash.
#[derive(Debug)]
pub struct UserRow {
    pub id: u64,
    pub email: String,
    pub name: String,
    pub credential: u64,
}

/// A stored session row: an issued token id and the user it authenticates.
#[derive(Clone, Copy, Debug)]
pub struct Session {
    pub id: u64,
    pub user_id: u64,
}

/// A stored post row.
#[derive(Debug)]
pub struct PostRow {
    pub id: u64,
    pub author_id: u64,
    pub body: String,
}

/// A stored like row; at most one exists per `(user_id, post_id)` pair.
#[derive(Clone, Copy, Debug)]
pub struct Like {
    pub id: u64,
    pub user_id: u64,
    pub post_id: u64,
}

/// A stored comment row.
#[derive(Debug)]
pub struct CommentRow {
    pub id: u64,
    pub post_id: u64,
    pub author_id: u64,
    pub body: String,
}

/// A user identity as handed to callers: everything but the credential.
#[derive(Debug)]
pub struct User {
    pub id: u64,
    pub email: String,
    pub name: String,
}

/// A bare user id, as returned by registration and login.
#[derive(Debug)]
pub struct UserId {
    pub id: u64,
}

/// The read-time projection of a post: its row joined with the author's
/// display name, the aggregate like and comment counts, and whether the
/// requesting viewer has liked it. Recomputed on every read, never cached.
#[derive(Debug)]
pub struct Post {
    pub id: u64,
    pub body: String,
    pub author: String,
    pub comments_count: u64,
    pub likes_count: u64,
    pub liked: bool,
}

/// The read-time projection of a comment: its body joined with the
/// author's display name.
#[derive(Debug)]
pub struct Comment {
    pub body: String,
    pub author: String,
}

/// The store: the single source of truth the service operates on.
pub struct Store {
    pub users: Vec<UserRow>,
    pub sessions: Vec<Session>,
    pub posts: Vec<PostRow>,
    pub likes: Vec<Like>,
    pub comments: Vec<CommentRow>,
    pub next_user_id: u64,
    pub next_session_id: u64,
    pub next_post_id: u64,
    pub next_like_id: u64,
    pub next_comment_id: u64,
}

impl View for UserRow {
    type V = UserModel;

    open spec fn view(&self) -> UserModel {
        UserModel { id: self.id, email: self.email@, name: self.name@, credential: self.credential }
    }
}

impl View for Session {
    type V = SessionModel;

    open spec fn view(&self) -> SessionModel {
        SessionModel { id: self.id, user_id: self.user_id }
    }
}

impl View for PostRow {
    type V = PostModel;

    open spec fn view(&self) -> PostModel {
        PostModel { id: self.id, author_id: self.author_id, body: self.body@ }
    }
}

impl View for Like {
    type V = LikeModel;

    open spec fn view(&self) -> LikeModel {
        LikeModel { id: self.id, user_id: self.user_id, post_id: self.post_id }
    }
}

impl View for CommentRow {
    type V = CommentModel;

    open spec fn view(&self) -> CommentModel {
        CommentModel {
            id: self.id,
            post_id: self.post_id,
            author_id: self.author_id,
            body: self.body@,
        }
    }
}

/// The abstract rows of a vector of stored rows.
pub open spec fn rows_view<T: View>(v: Seq<T>) -> Seq<T::V> {
    Seq::new(v.len(), |i: int| v[i]@)
}

impl View for Store {
    type V = StoreModel;

    open spec fn view(&self) -> StoreModel {
        StoreModel {
            users: rows_view(self.users@),
            sessions: rows_view(self.sessions@),
            posts: rows_view(self.posts@),
            likes: rows_view(self.likes@),
            comments: rows_view(self.comments@),
            next_user_id: self.next_user_id,
            next_session_id: self.next_session_id,
            next_post_id: self.next_post_id,
            next_like_id: self.next_like_id,
            next_comment_id: self.next_comment_id,
        }
    }
}

impl Store {
    /// Whether the store satisfies the invariant every operation preserves.
    pub open spec fn wf(&self) -> bool {
        self@.wf()
    }

    /// Creates an empty store.
    pub fn new() -> (s: Store)
        ensures
            s@ == StoreModel::empty(),
            s.wf(),
    {
        let s = Store {
            users: Vec::new(),
            sessions: Vec::new(),
            posts: Vec::new(),
            likes: Vec::new(),
            comments: Vec::new(),
            next_user_id: 1,
            next_session_id: 1,
            next_post_id: 1,
            next_like_id: 1,
            next_comment_id: 1,
        };
        proof {
            assert(s@ =~= StoreModel::empty());
        }
        s
    }

    /// Position of the user row with a given id, if one exists.
    pub(crate) fn user_pos(&self, id: u64) -> (r: Option<usize>)
        ensures
            r matches Some(i) ==> 0 <= i < self@.users.len() && self@.users[i as int].id == id,
            r is Some <==> self@.has_user(id),
    {
        let n = self.users.len();
        let mut i: usize = 0;
        while i < n
            invariant
                n == self.users.len(),
                0 <= i <= n,
                forall|j: int| 0 <= j < i ==> (#[trigger] self@.users[j]).id != id,
            decreases n - i,
        {
            if self.users[i].id == id {
                assert(self@.users[i as int].id == id);
                return Some(i);
            }
            i = i + 1;
        }
        proof {
            if self@.has_user(id) {
                let k = choose|k: int|
                    0 <= k < self@.users.len() && (#[trigger] self@.users[k]).id == id;
                assert(self@.users[k].id != id);
            }
        }
        None
    }

    /// Position of the session row with a given id, if one exists.
    pub(crate) fn session_pos(&self, sid: u64) -> (r: Option<usize>)
        ensures
            r matches Some(i) ==> 0 <= i < self@.sessions.len() && self@.sessions[i as int].id
                == sid,
            r is Some <==> self@.has_session(sid),
    {
        let n = self.sessions.len();
        let mut i: usize = 0;
        while i < n
            invariant
                n == self.sessions.len(),
                0 <= i <= n,
                forall|j: int| 0 <= j < i ==> (#[trigger] self@.sessions[j]).id != sid,
            decreases n - i,
        {
            if self.sessions[i].id == sid {
                assert(self@.sessions[i as int].id == sid);
                return Some(i);
            }
            i = i + 1;
        }
        proof {
            if self@.has_session(sid) {
                let k = choose|k: int|
                    0 <= k < self@.sessions.len() && (#[trigger] self@.sessions[k]).id == sid;
                assert(self@.sessions[k].id != sid);
            }
        }
        None
    }

    /// Position of the post row with a given id, if one exists.
    pub(crate) fn post_pos(&self, pid: u64) -> (r: Option<usize>)
        ensures
            r matches Some(i) ==> 0 <= i < self@.posts.len() && self@.posts[i as int].id == pid,
            r is Some <==> self@.has_post(pid),
    {
        let n = self.posts.len();
        let mut i: usize = 0;
        while i < n
            invariant
                n == self.posts.len(),
                0 <= i <= n,
                forall|j: int| 0 <= j < i ==> (#[trigger] self@.posts[j]).id != pid,
            decreases n - i,
        {
            if self.posts[i].id == pid {
                assert(self@.posts[i as int].id == pid);
                return Some(i);
            }
            i = i + 1;
        }
        proof {
            if self@.has_post(pid) {
                let k = choose|k: int|
                    0 <= k < self@.posts.len() && (#[trigger] self@.posts[k]).id == pid;
                assert(self@.posts[k].id != pid);
            }
        }
        None
    }
}

} // verus!
