//! The service-wide guarantees, proved once over the model.
//!
//! Each law quantifies over every well-formed store state, so it holds of
//! every state the executable operations can reach (they all ensure their
//! new state is the corresponding transition of the old one).

use vstd::prelude::*;
use crate::auth::{token_parses, token_user, token_value};
use crate::errors::AppError;
use crate::model::{count_email, count_pair, lemma_count_email_zero, lemma_count_pair_at_most_one,
    lemma_count_pair_iff, lemma_same_posts_has, StoreModel};

verus! {

/// Registering the same email twice yields `DuplicateEmail` on the second
/// call, the second call changes nothing, and exactly one user row carries
/// the email afterwards.
pub proof fn law_register_duplicate(
    m: StoreModel,
    email: Seq<char>,
    name1: Seq<char>,
    cred1: u64,
    name2: Seq<char>,
    cred2: u64,
)
    requires
        m.wf(),
        !m.email_taken(email),
        m.next_user_id < u64::MAX,
    ensures
        ({
            let m1 = m.register_t(email, name1, cred1);
            &&& m1.register_err(email) == Some(AppError::DuplicateEmail)
            &&& m1.register_t(email, name2, cred2) == m1
            &&& count_email(m1.users, email) == 1
        }),
{
    m.lemma_register_wf(email, name1, cred1);
    let m1 = m.register_t(email, name1, cred1);
    assert forall|i: int| 0 <= i < m.users.len() implies (#[trigger] m.users[i]).email
        != email by {
        if m.users[i].email == email {
            assert(m.email_taken(email));
        }
    }
    lemma_count_email_zero(m.users, email);
    assert(m1.users.drop_last() =~= m.users);
    assert(count_email(m1.users, email) == 1);
}

/// After `like` then `unlike` by the same user on the same post, the
/// post's like count equals its value before the `like`, and the user no
/// longer likes the post. (Stated for a pair not already liked: under the
/// explicit-rejection policy a pre-existing like makes the first call a
/// no-op and the second remove that older row.)
pub proof fn law_like_then_unlike(m: StoreModel, uid: u64, pid: u64)
    requires
        m.wf(),
        !m.liked(uid, pid),
        m.next_like_id < u64::MAX,
    ensures
        ({
            let m2 = m.like_t(uid, pid).unlike_t(uid, pid);
            &&& m2.likes_count(pid) == m.likes_count(pid)
            &&& !m2.liked(uid, pid)
        }),
{
    m.lemma_like_wf(uid, pid);
    let m1 = m.like_t(uid, pid);
    m1.lemma_unlike_wf(uid, pid);
    let m2 = m1.unlike_t(uid, pid);
    if m.has_user(uid) && m.has_post(pid) {
        lemma_same_posts_has(m, m1, pid);
        assert(m1.liked(uid, pid));
        assert(count_pair(m1.likes, uid, pid) == 1);
        assert(m2.likes_count(pid) + 1 == m1.likes_count(pid));
    } else {
        assert(m1 == m);
        assert(m2 == m);
    }
}

/// Two `like` calls in a row leave exactly one like row for the pair,
/// whether or not the pair was liked to begin with: uniqueness holds.
pub proof fn law_like_twice(m: StoreModel, uid: u64, pid: u64)
    requires
        m.wf(),
        m.has_user(uid),
        m.has_post(pid),
        m.next_like_id < u64::MAX,
    ensures
        count_pair(m.like_t(uid, pid).like_t(uid, pid).likes, uid, pid) == 1,
{
    m.lemma_like_wf(uid, pid);
    let m1 = m.like_t(uid, pid);
    let m2 = m1.like_t(uid, pid);
    if m.liked(uid, pid) {
        assert(m1 == m && m2 == m);
        lemma_count_pair_iff(m.likes, uid, pid);
        lemma_count_pair_at_most_one(m.likes, uid, pid);
    } else {
        assert(m1.liked(uid, pid));
        assert(m2 == m1);
        lemma_count_pair_iff(m.likes, uid, pid);
        assert(count_pair(m.likes, uid, pid) == 0);
        assert(m1.likes.drop_last() =~= m.likes);
        assert(count_pair(m1.likes, uid, pid) == 1);
    }
}

/// A session resolved after deletion resolves to nothing, and the write
/// gate rejects the session's token.
pub proof fn law_delete_session_gate(m: StoreModel, sid: u64, t: Seq<char>)
    requires
        m.wf(),
        token_parses(t),
        token_value(t) == sid,
    ensures
        m.delete_session_t(sid).resolve(sid) is None,
        token_user(m.delete_session_t(sid), Some(t)) is None,
{
    m.lemma_delete_session_wf(sid);
}

/// An anonymous viewer is never shown a liked post, in any state.
pub proof fn law_anonymous_never_liked(m: StoreModel, pid: u64)
    ensures
        !m.viewer_liked(None, pid),
{
}

} // verus!
