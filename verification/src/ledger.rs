//! The post/like ledger: post creation, listing, projections, likes, and
//! comment aggregation.
//!
//! Every projection is recomputed from the rows at the instant of the
//! query, so `likes_count`, `comments_count`, and `liked` always reflect
//! the underlying tables exactly. At most one like row ever exists per
//! `(user, post)` pair: a second like is rejected with `AlreadyLiked`, and
//! unlike removes the pair's row and nothing else.

use vstd::prelude::*;
use crate::errors::AppError;
use crate::model::{comments_of, count_comments, count_likes, without_pair, StoreModel};
use crate::store::{rows_view, Comment, Like, Post, PostRow, Store};

verus! {

/// Whether a body has content: at least one non-whitespace character.
pub fn body_content(s: &str) -> (r: bool)
    ensures
        r == StoreModel::body_has_content(s@),
{
    let n = s.unicode_len();
    let mut i: usize = 0;
    while i < n
        invariant
            n == s@.len(),
            0 <= i <= n,
            forall|j: int| 0 <= j < i ==> crate::model::is_space_char(#[trigger] s@[j]),
        decreases n - i,
    {
        let c = s.get_char(i);
        if !(c == ' ' || c == '\t' || c == '\n' || c == '\r') {
            assert(!crate::model::is_space_char(s@[i as int]));
            return true;
        }
        i = i + 1;
    }
    proof {
        if StoreModel::body_has_content(s@) {
            let k = choose|k: int|
                0 <= k < s@.len() && !crate::model::is_space_char(#[trigger] s@[k]);
            assert(crate::model::is_space_char(s@[k]));
        }
    }
    false
}

impl Store {
    /// Counts the like rows of one post.
    fn count_likes_for(&self, pid: u64) -> (c: u64)
        ensures
            c == count_likes(self@.likes, pid),
    {
        let n = self.likes.len();
        let mut c: u64 = 0;
        let mut i: usize = 0;
        while i < n
            invariant
                n == self.likes.len(),
                0 <= i <= n,
                c <= i,
                c == count_likes(self@.likes.take(i as int), pid),
            decreases n - i,
        {
            proof {
                assert(self@.likes.take(i + 1).drop_last() =~= self@.likes.take(i as int));
                assert(self@.likes.take(i + 1).last() == self@.likes[i as int]);
            }
            if self.likes[i].post_id == pid {
                c = c + 1;
            }
            i = i + 1;
        }
        proof {
            assert(self@.likes.take(n as int) =~= self@.likes);
        }
        c
    }

    /// Counts the comment rows of one post.
    fn count_comments_for(&self, pid: u64) -> (c: u64)
        ensures
            c == count_comments(self@.comments, pid),
    {
        let n = self.comments.len();
        let mut c: u64 = 0;
        let mut i: usize = 0;
        while i < n
            invariant
                n == self.comments.len(),
                0 <= i <= n,
                c <= i,
                c == count_comments(self@.comments.take(i as int), pid),
            decreases n - i,
        {
            proof {
                assert(self@.comments.take(i + 1).drop_last() =~= self@.comments.take(i as int));
                assert(self@.comments.take(i + 1).last() == self@.comments[i as int]);
            }
            if self.comments[i].post_id == pid {
                c = c + 1;
            }
            i = i + 1;
        }
        proof {
            assert(self@.comments.take(n as int) =~= self@.comments);
        }
        c
    }

    /// Whether a like row exists for the pair.
    fn is_liked_by(&self, uid: u64, pid: u64) -> (b: bool)
        ensures
            b == self@.liked(uid, pid),
    {
        let n = self.likes.len();
        let mut i: usize = 0;
        while i < n
            invariant
                n == self.likes.len(),
                0 <= i <= n,
                forall|j: int|
                    0 <= j < i ==> !((#[trigger] self@.likes[j]).user_id == uid
                        && self@.likes[j].post_id == pid),
            decreases n - i,
        {
            if self.likes[i].user_id == uid && self.likes[i].post_id == pid {
                assert(self@.likes[i as int].user_id == uid && self@.likes[i as int].post_id
                    == pid);
                return true;
            }
            i = i + 1;
        }
        proof {
            if self@.liked(uid, pid) {
                let k = choose|k: int|
                    0 <= k < self@.likes.len() && (#[trigger] self@.likes[k]).user_id == uid
                        && self@.likes[k].post_id == pid;
                assert(!(self@.likes[k].user_id == uid && self@.likes[k].post_id == pid));
            }
        }
        false
    }

    /// The display name of an existing user.
    fn user_name_of(&self, id: u64) -> (nm: String)
        requires
            self.wf(),
            self@.has_user(id),
        ensures
            nm@ == self@.user_at(id).name,
    {
        match self.user_pos(id) {
            Some(i) => {
                proof {
                    self@.lemma_user_index(id);
                    assert(self@.user_index(id) == i as int);
                }
                self.users[i].name.clone()
            },
            None => {
                proof {
                    assert(false);
                }
                String::new()
            },
        }
    }

    /// Builds the projection of the post at a given row position for a
    /// given viewer, recomputing every aggregate from the rows.
    fn post_view(&self, viewer: Option<u64>, pos: usize) -> (p: Post)
        requires
            self.wf(),
            pos < self@.posts.len(),
        ensures
            ({
                let row = self@.posts[pos as int];
                &&& p.id == row.id
                &&& p.body@ == row.body
                &&& p.author@ == self@.user_at(row.author_id).name
                &&& p.likes_count == self@.likes_count(row.id)
                &&& p.comments_count == self@.comments_count(row.id)
                &&& p.liked == self@.viewer_liked(viewer, row.id)
            }),
    {
        let pid = self.posts[pos].id;
        let author_id = self.posts[pos].author_id;
        let body = self.posts[pos].body.clone();
        proof {
            assert(self@.has_user(self@.posts[pos as int].author_id));
        }
        let author = self.user_name_of(author_id);
        let likes_count = self.count_likes_for(pid);
        let comments_count = self.count_comments_for(pid);
        let liked = match viewer {
            Some(u) => self.is_liked_by(u, pid),
            None => false,
        };
        Post { id: pid, body, author, comments_count, likes_count, liked }
    }

    /// Lists every post in ascending id order, projected for the given
    /// viewer; an anonymous viewer sees `liked == false` on every post.
    pub fn list_posts(&self, viewer: Option<u64>) -> (r: Vec<Post>)
        requires
            self.wf(),
        ensures
            r@.len() == self@.posts.len(),
            forall|i: int|
                #![trigger r@[i]]
                0 <= i < r@.len() ==> {
                    let row = self@.posts[i];
                    &&& r@[i].id == row.id
                    &&& r@[i].body@ == row.body
                    &&& r@[i].author@ == self@.user_at(row.author_id).name
                    &&& r@[i].likes_count == self@.likes_count(row.id)
                    &&& r@[i].comments_count == self@.comments_count(row.id)
                    &&& r@[i].liked == self@.viewer_liked(viewer, row.id)
                },
            viewer is None ==> forall|i: int| 0 <= i < r@.len() ==> !(#[trigger] r@[i]).liked,
            forall|i: int, j: int|
                0 <= i < j < r@.len() ==> (#[trigger] r@[i]).id < (#[trigger] r@[j]).id,
    {
        let n = self.posts.len();
        let mut r: Vec<Post> = Vec::new();
        let mut i: usize = 0;
        while i < n
            invariant
                self.wf(),
                n == self@.posts.len(),
                0 <= i <= n,
                r@.len() == i,
                forall|k: int|
                    #![trigger r@[k]]
                    0 <= k < i ==> {
                        let row = self@.posts[k];
                        &&& r@[k].id == row.id
                        &&& r@[k].body@ == row.body
                        &&& r@[k].author@ == self@.user_at(row.author_id).name
                        &&& r@[k].likes_count == self@.likes_count(row.id)
                        &&& r@[k].comments_count == self@.comments_count(row.id)
                        &&& r@[k].liked == self@.viewer_liked(viewer, row.id)
                    },
            decreases n - i,
        {
            let p = self.post_view(viewer, i);
            r.push(p);
            i = i + 1;
        }
        r
    }

    /// Projects one post for the given viewer; an absent post id fails
    /// with `NotFound`.
    pub fn get_post(&self, viewer: Option<u64>, post_id: u64) -> (r: Result<Post, AppError>)
        requires
            self.wf(),
        ensures
            r is Ok <==> self@.has_post(post_id),
            r matches Ok(p) ==> {
                &&& p.id == post_id
                &&& p.body@ == self@.post_at(post_id).body
                &&& p.author@ == self@.user_at(self@.post_at(post_id).author_id).name
                &&& p.likes_count == self@.likes_count(post_id)
                &&& p.comments_count == self@.comments_count(post_id)
                &&& p.liked == self@.viewer_liked(viewer, post_id)
            },
            r matches Err(e) ==> e == AppError::NotFound,
            viewer is None ==> (r matches Ok(p) ==> !p.liked),
    {
        match self.post_pos(post_id) {
            None => Err(AppError::NotFound),
            Some(pos) => {
                proof {
                    self@.lemma_post_index(post_id);
                    assert(self@.post_index(post_id) == pos as int);
                }
                Ok(self.post_view(viewer, pos))
            },
        }
    }

    /// Creates a post by an existing author. The body must have content
    /// (non-empty after trimming); otherwise the call fails with
    /// `EmptyBody`, an unknown author with `NotFound`, and nothing changes.
    pub fn create_post(&mut self, author_id: u64, body: String) -> (r: Result<u64, AppError>)
        requires
            old(self).wf(),
            old(self).next_post_id < u64::MAX,
        ensures
            final(self)@ == old(self)@.create_post_t(author_id, body@),
            final(self).wf(),
            r is Ok <==> (StoreModel::body_has_content(body@) && old(self)@.has_user(author_id)),
            r matches Ok(pid) ==> pid == old(self)@.next_post_id && final(self)@.has_post(pid)
                && final(self)@.likes_count(pid) == 0 && final(self)@.comments_count(pid) == 0,
            r matches Err(e) ==> Some(e) == old(self)@.create_post_err(author_id, body@),
    {
        proof {
            old(self)@.lemma_create_post_wf(author_id, body@);
        }
        if !body_content(body.as_str()) {
            return Err(AppError::EmptyBody);
        }
        if self.user_pos(author_id).is_none() {
            return Err(AppError::NotFound);
        }
        let pid = self.next_post_id;
        self.posts.push(PostRow { id: pid, author_id, body });
        self.next_post_id = self.next_post_id + 1;
        proof {
            assert(self@ =~= old(self)@.create_post_t(author_id, body@));
        }
        Ok(pid)
    }

    /// Likes a post: inserts the pair's like row and returns the refreshed
    /// projection. A pair that is already present is rejected with
    /// `AlreadyLiked` and nothing changes; an unknown user or post fails
    /// with `NotFound`.
    pub fn like(&mut self, user_id: u64, post_id: u64) -> (r: Result<Post, AppError>)
        requires
            old(self).wf(),
            old(self).next_like_id < u64::MAX,
        ensures
            final(self)@ == old(self)@.like_t(user_id, post_id),
            final(self).wf(),
            r is Ok <==> (old(self)@.has_user(user_id) && old(self)@.has_post(post_id) && !old(self)@.liked(user_id, post_id)),
            r matches Ok(p) ==> {
                &&& p.id == post_id
                &&& p.liked
                &&& p.likes_count == final(self)@.likes_count(post_id)
                &&& final(self)@.likes_count(post_id) == old(self)@.likes_count(post_id) + 1
                &&& p.comments_count == final(self)@.comments_count(post_id)
                &&& p.body@ == final(self)@.post_at(post_id).body
                &&& p.author@ == final(self)@.user_at(final(self)@.post_at(post_id).author_id).name
            },
            r matches Err(e) ==> Some(e) == old(self)@.like_err(user_id, post_id),
    {
        proof {
            old(self)@.lemma_like_wf(user_id, post_id);
        }
        if self.user_pos(user_id).is_none() {
            return Err(AppError::NotFound);
        }
        let pos = match self.post_pos(post_id) {
            None => {
                return Err(AppError::NotFound);
            },
            Some(p) => p,
        };
        if self.is_liked_by(user_id, post_id) {
            return Err(AppError::AlreadyLiked);
        }
        let lid = self.next_like_id;
        self.likes.push(Like { id: lid, user_id, post_id });
        self.next_like_id = self.next_like_id + 1;
        proof {
            assert(self@ =~= old(self)@.like_t(user_id, post_id));
            self@.lemma_post_index(post_id);
            assert(self@.posts[pos as int].id == post_id);
            assert(self@.post_index(post_id) == pos as int);
        }
        let p = self.post_view(Some(user_id), pos);
        Ok(p)
    }

    /// Unlikes a post: removes the pair's like row if present (removing an
    /// absent like is not an error) and returns the refreshed projection.
    /// Only an absent post fails, with `NotFound`.
    pub fn unlike(&mut self, user_id: u64, post_id: u64) -> (r: Result<Post, AppError>)
        requires
            old(self).wf(),
        ensures
            final(self)@ == old(self)@.unlike_t(user_id, post_id),
            final(self).wf(),
            r is Ok <==> old(self)@.has_post(post_id),
            r matches Ok(p) ==> {
                &&& p.id == post_id
                &&& !p.liked
                &&& p.likes_count == final(self)@.likes_count(post_id)
                &&& p.comments_count == final(self)@.comments_count(post_id)
            },
            old(self)@.has_post(post_id) && old(self)@.liked(user_id, post_id)
                ==> final(self)@.likes_count(post_id) + 1 == old(self)@.likes_count(post_id),
            !old(self)@.liked(user_id, post_id) ==> final(self)@ == old(self)@,
            r matches Err(e) ==> Some(e) == old(self)@.unlike_err(user_id, post_id),
    {
        proof {
            old(self)@.lemma_unlike_wf(user_id, post_id);
        }
        let pos = match self.post_pos(post_id) {
            None => {
                return Err(AppError::NotFound);
            },
            Some(p) => p,
        };
        let ghost m = self@;
        let n = self.likes.len();
        let mut kept: Vec<Like> = Vec::new();
        let mut i: usize = 0;
        while i < n
            invariant
                self@ == m,
                n == self.likes.len(),
                0 <= i <= n,
                rows_view(kept@) =~= without_pair(m.likes.take(i as int), user_id, post_id),
            decreases n - i,
        {
            let row = self.likes[i];
            proof {
                assert(m.likes.take(i + 1).drop_last() =~= m.likes.take(i as int));
                assert(m.likes.take(i + 1).last() == m.likes[i as int]);
                assert(m.likes[i as int] == row@);
            }
            if !(row.user_id == user_id && row.post_id == post_id) {
                kept.push(row);
                proof {
                    assert(rows_view(kept@) =~= without_pair(
                        m.likes.take(i + 1),
                        user_id,
                        post_id,
                    ));
                }
            }
            i = i + 1;
        }
        proof {
            assert(m.likes.take(n as int) =~= m.likes);
        }
        self.likes = kept;
        proof {
            assert(self@ =~= old(self)@.unlike_t(user_id, post_id));
            self@.lemma_post_index(post_id);
            assert(self@.posts[pos as int].id == post_id);
            assert(self@.post_index(post_id) == pos as int);
        }
        let p = self.post_view(Some(user_id), pos);
        Ok(p)
    }

    /// Lists one post's comments, each joined with its author's display
    /// name, in stored order; an absent post id fails with `NotFound`.
    pub fn comments(&self, post_id: u64) -> (r: Result<Vec<Comment>, AppError>)
        requires
            self.wf(),
        ensures
            r is Ok <==> self@.has_post(post_id),
            r matches Err(e) ==> e == AppError::NotFound,
            r matches Ok(v) ==> {
                &&& v@.len() == self@.comments_count(post_id)
                &&& forall|i: int|
                    #![trigger v@[i]]
                    0 <= i < v@.len() ==> {
                        let rows = comments_of(self@.comments, post_id);
                        &&& v@[i].body@ == rows[i].body
                        &&& v@[i].author@ == self@.user_at(rows[i].author_id).name
                    }
            },
    {
        if self.post_pos(post_id).is_none() {
            return Err(AppError::NotFound);
        }
        proof {
            crate::model::lemma_comments_of(self@.comments, post_id);
        }
        let n = self.comments.len();
        let mut out: Vec<Comment> = Vec::new();
        let mut i: usize = 0;
        while i < n
            invariant
                self.wf(),
                n == self@.comments.len(),
                0 <= i <= n,
                out@.len() == comments_of(self@.comments.take(i as int), post_id).len(),
                forall|k: int|
                    #![trigger out@[k]]
                    0 <= k < out@.len() ==> {
                        let rows = comments_of(self@.comments.take(i as int), post_id);
                        &&& out@[k].body@ == rows[k].body
                        &&& out@[k].author@ == self@.user_at(rows[k].author_id).name
                    },
            decreases n - i,
        {
            let ghost before = comments_of(self@.comments.take(i as int), post_id);
            proof {
                assert(self@.comments.take(i + 1).drop_last() =~= self@.comments.take(i as int));
                assert(self@.comments.take(i + 1).last() == self@.comments[i as int]);
            }
            if self.comments[i].post_id == post_id {
                proof {
                    assert(self@.has_user(self@.comments[i as int].author_id));
                }
                let author = self.user_name_of(self.comments[i].author_id);
                let body = self.comments[i].body.clone();
                out.push(Comment { body, author });
                proof {
                    assert(comments_of(self@.comments.take(i + 1), post_id) =~= before.push(
                        self@.comments[i as int],
                    ));
                }
            }
            i = i + 1;
        }
        proof {
            assert(self@.comments.take(n as int) =~= self@.comments);
        }
        Ok(out)
    }

    /// Records a comment on an existing post by an existing user (the
    /// aggregate source the projections count); otherwise fails with
    /// `NotFound` and changes nothing.
    pub fn add_comment(&mut self, author_id: u64, post_id: u64, body: String) -> (r: Result<
        u64,
        AppError,
    >)
        requires
            old(self).wf(),
            old(self).next_comment_id < u64::MAX,
        ensures
            final(self)@ == old(self)@.add_comment_t(author_id, post_id, body@),
            final(self).wf(),
            r is Ok <==> (old(self)@.has_user(author_id) && old(self)@.has_post(post_id)),
            r matches Ok(cid) ==> cid == old(self)@.next_comment_id && final(self)@.comments_count(
                post_id,
            ) == old(self)@.comments_count(post_id) + 1,
            r matches Err(e) ==> Some(e) == old(self)@.add_comment_err(author_id, post_id),
    {
        proof {
            old(self)@.lemma_add_comment_wf(author_id, post_id, body@);
        }
        if self.user_pos(author_id).is_none() {
            return Err(AppError::NotFound);
        }
        if self.post_pos(post_id).is_none() {
            return Err(AppError::NotFound);
        }
        let cid = self.next_comment_id;
        self.comments.push(
            crate::store::CommentRow { id: cid, post_id, author_id, body },
        );
        self.next_comment_id = self.next_comment_id + 1;
        proof {
            assert(self@ =~= old(self)@.add_comment_t(author_id, post_id, body@));
        }
        Ok(cid)
    }
}

} // verus!
