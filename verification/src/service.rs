//! Request-level operations: what each inbound request does once the
//! surrounding HTTP layer has extracted its optional session token and
//! form fields.
//!
//! Read requests resolve the token to an optional viewer and never fail on
//! auth; write requests go through the auth gate first and fail with
//! `Unauthorized` — and change nothing — unless the token resolves to a
//! user. No failing request ever mutates the store.

use vstd::prelude::*;
use crate::auth::{token_parses, token_user, token_value, token_view};
use crate::credentials::hash_chars;
use crate::errors::AppError;
use crate::model::StoreModel;
use crate::store::{Post, Store, User};

verus! {

/// Everything the posts listing page shows: the optional viewer, every
/// post projected for that viewer, and the invalidate-session signal for
/// the cookie layer.
pub struct PostsPage {
    pub viewer: Option<User>,
    pub posts: Vec<Post>,
    pub invalidate: bool,
}

impl Store {
    /// Serves the posts listing for a request: resolves the token (an
    /// unresolvable one degrades to an anonymous viewer and raises the
    /// invalidate signal) and projects every post for that viewer.
    pub fn view_posts(&self, token: Option<&str>) -> (r: PostsPage)
        requires
            self.wf(),
        ensures
            r.viewer is Some <==> token_user(self@, token_view(token)) is Some,
            r.viewer matches Some(u) ==> token_user(self@, token_view(token)) == Some(u.id)
                && u.name@ == self@.user_at(u.id).name,
            r.invalidate == (token is Some && token_user(self@, token_view(token)) is None),
            r.posts@.len() == self@.posts.len(),
            forall|i: int|
                #![trigger r.posts@[i]]
                0 <= i < r.posts@.len() ==> {
                    let row = self@.posts[i];
                    &&& r.posts@[i].id == row.id
                    &&& r.posts@[i].body@ == row.body
                    &&& r.posts@[i].author@ == self@.user_at(row.author_id).name
                    &&& r.posts@[i].likes_count == self@.likes_count(row.id)
                    &&& r.posts@[i].comments_count == self@.comments_count(row.id)
                    &&& r.posts@[i].liked == self@.viewer_liked(
                        token_user(self@, token_view(token)),
                        row.id,
                    )
                },
            token_user(self@, token_view(token)) is None ==> forall|i: int|
                0 <= i < r.posts@.len() ==> !(#[trigger] r.posts@[i]).liked,
    {
        let (viewer, invalidate) = self.authorize_read(token);
        let vid: Option<u64> = match &viewer {
            Some(u) => Some(u.id),
            None => None,
        };
        let posts = self.list_posts(vid);
        PostsPage { viewer, posts, invalidate }
    }

    /// Serves one post's page for a request: the projection for the
    /// resolved (or anonymous) viewer, or `NotFound`.
    pub fn view_post(&self, token: Option<&str>, post_id: u64) -> (r: Result<Post, AppError>)
        requires
            self.wf(),
        ensures
            r is Ok <==> self@.has_post(post_id),
            r matches Ok(p) ==> {
                &&& p.id == post_id
                &&& p.body@ == self@.post_at(post_id).body
                &&& p.author@ == self@.user_at(self@.post_at(post_id).author_id).name
                &&& p.likes_count == self@.likes_count(post_id)
                &&& p.comments_count == self@.comments_count(post_id)
                &&& p.liked == self@.viewer_liked(token_user(self@, token_view(token)), post_id)
            },
            r matches Err(e) ==> e == AppError::NotFound,
    {
        let (viewer, _) = self.authorize_read(token);
        let vid: Option<u64> = match &viewer {
            Some(u) => Some(u.id),
            None => None,
        };
        self.get_post(vid, post_id)
    }

    /// Handles a post submission: the auth gate first, then the ledger. An
    /// unauthorized or otherwise failing request changes nothing.
    pub fn submit_post(&mut self, token: Option<&str>, body: String) -> (r: Result<u64, AppError>)
        requires
            old(self).wf(),
            old(self).next_post_id < u64::MAX,
        ensures
            final(self).wf(),
            token_user(old(self)@, token_view(token)) is None ==> r == Err::<u64, AppError>(
                AppError::Unauthorized,
            ),
            token_user(old(self)@, token_view(token)) matches Some(uid) ==> {
                &&& final(self)@ == old(self)@.create_post_t(uid, body@)
                &&& (r is Ok <==> StoreModel::body_has_content(body@))
                &&& (r matches Ok(pid) ==> pid == old(self)@.next_post_id && final(self)@.has_post(pid))
                &&& (r matches Err(e) ==> Some(e) == old(self)@.create_post_err(uid, body@))
            },
            r matches Err(e) ==> final(self)@ == old(self)@,
    {
        let u = match self.authorize_write(token) {
            Err(_) => {
                return Err(AppError::Unauthorized);
            },
            Ok(u) => u,
        };
        self.create_post(u.id, body)
    }

    /// Handles a like request: the auth gate first, then the ledger. An
    /// unauthorized or otherwise failing request changes nothing.
    pub fn submit_like(&mut self, token: Option<&str>, post_id: u64) -> (r: Result<Post, AppError>)
        requires
            old(self).wf(),
            old(self).next_like_id < u64::MAX,
        ensures
            final(self).wf(),
            token_user(old(self)@, token_view(token)) is None ==> r == Err::<Post, AppError>(
                AppError::Unauthorized,
            ),
            token_user(old(self)@, token_view(token)) matches Some(uid) ==> {
                &&& final(self)@ == old(self)@.like_t(uid, post_id)
                &&& (r is Ok <==> old(self)@.has_post(post_id) && !old(self)@.liked(uid, post_id))
                &&& (r matches Ok(p) ==> p.id == post_id && p.liked && p.likes_count == final(self)@.likes_count(post_id) && final(self)@.likes_count(post_id) == old(self)@.likes_count(post_id) + 1)
                &&& (r matches Err(e) ==> Some(e) == old(self)@.like_err(uid, post_id))
            },
            r matches Err(e) ==> final(self)@ == old(self)@,
    {
        let u = match self.authorize_write(token) {
            Err(_) => {
                return Err(AppError::Unauthorized);
            },
            Ok(u) => u,
        };
        self.like(u.id, post_id)
    }

    /// Handles an unlike request: the auth gate first, then the ledger. An
    /// unauthorized or otherwise failing request changes nothing.
    pub fn submit_unlike(&mut self, token: Option<&str>, post_id: u64) -> (r: Result<
        Post,
        AppError,
    >)
        requires
            old(self).wf(),
        ensures
            final(self).wf(),
            token_user(old(self)@, token_view(token)) is None ==> r == Err::<Post, AppError>(
                AppError::Unauthorized,
            ),
            token_user(old(self)@, token_view(token)) matches Some(uid) ==> {
                &&& final(self)@ == old(self)@.unlike_t(uid, post_id)
                &&& (r is Ok <==> old(self)@.has_post(post_id))
                &&& (r matches Ok(p) ==> p.id == post_id && !p.liked && p.likes_count == final(self)@.likes_count(post_id))
                &&& (old(self)@.has_post(post_id) && old(self)@.liked(uid, post_id) ==> final(self)@.likes_count(post_id) + 1 == old(self)@.likes_count(post_id))
            },
            r matches Err(e) ==> final(self)@ == old(self)@,
    {
        let u = match self.authorize_write(token) {
            Err(_) => {
                return Err(AppError::Unauthorized);
            },
            Ok(u) => u,
        };
        self.unlike(u.id, post_id)
    }

    /// Handles a login: verifies the credentials and, on success, issues a
    /// session whose id is the new token. A failed login returns nothing
    /// and changes nothing.
    pub fn login(&mut self, email: &String, secret: &str) -> (r: Option<u64>)
        requires
            old(self).wf(),
            old(self).next_session_id < u64::MAX,
        ensures
            final(self).wf(),
            old(self)@.login_user(email@, hash_chars(secret@)) is None ==> r is None && final(self)@ == old(self)@,
            old(self)@.login_user(email@, hash_chars(secret@)) matches Some(uid) ==> {
                &&& final(self)@ == old(self)@.create_session_t(uid)
                &&& r == Some(old(self)@.next_session_id)
                &&& final(self)@.resolve(old(self)@.next_session_id) == Some(uid)
            },
    {
        let u = match self.verify_login(email, secret) {
            None => {
                return None;
            },
            Some(u) => u,
        };
        proof {
            let m = self@;
            let k = choose|k: int| #[trigger] m.login_matches(k, email@, hash_chars(secret@));
            assert(m.users[k].id == u.id);
            assert(m.has_user(u.id));
        }
        match self.create_session(u.id) {
            Ok(sid) => Some(sid),
            Err(_) => {
                proof {
                    assert(false);
                }
                None
            },
        }
    }

    /// Handles a logout: the auth gate first, then revocation of the
    /// presented session. Afterwards the same token resolves to nothing.
    pub fn logout(&mut self, token: Option<&str>) -> (r: Result<(), AppError>)
        requires
            old(self).wf(),
        ensures
            final(self).wf(),
            r is Ok <==> token_user(old(self)@, token_view(token)) is Some,
            r matches Err(e) ==> e == AppError::Unauthorized && final(self)@ == old(self)@,
            r is Ok ==> token_user(final(self)@, token_view(token)) is None,
            r is Ok ==> (token matches Some(t) && final(self)@ == old(self)@.delete_session_t(
                token_value(t@),
            )),
    {
        if self.authorize_write(token).is_err() {
            return Err(AppError::Unauthorized);
        }
        match token {
            Some(t) => {
                match crate::auth::parse_token(t) {
                    Some(sid) => {
                        self.delete_session(sid);
                        proof {
                            assert(token_parses(t@) && sid == token_value(t@));
                            assert(!self@.has_session(sid));
                        }
                        Ok(())
                    },
                    None => {
                        proof {
                            assert(false);
                        }
                        Err(AppError::Unauthorized)
                    },
                }
            },
            None => {
                proof {
                    assert(false);
                }
                Err(AppError::Unauthorized)
            },
        }
    }
}

} // verus!
