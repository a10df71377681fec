//! The session manager: issuing, resolving, and revoking session tokens.
//!
//! A session is either absent (never created, or revoked) or active, in
//! which case it resolves to exactly one user. Deletion is idempotent:
//! deleting an absent session is not an error.

use vstd::prelude::*;
use crate::errors::AppError;
use crate::model::without_session;
use crate::store::{rows_view, Session, Store, User};

verus! {

impl Store {
    /// Issues a new session for an existing user and returns its id; an
    /// unknown user fails with `NotFound` and changes nothing.
    pub fn create_session(&mut self, user_id: u64) -> (r: Result<u64, AppError>)
        requires
            old(self).wf(),
            old(self).next_session_id < u64::MAX,
        ensures
            final(self)@ == old(self)@.create_session_t(user_id),
            final(self).wf(),
            r is Ok <==> old(self)@.has_user(user_id),
            r matches Ok(sid) ==> sid == old(self)@.next_session_id && final(self)@.resolve(sid)
                == Some(user_id),
            r matches Err(e) ==> Some(e) == old(self)@.create_session_err(user_id),
    {
        proof {
            old(self)@.lemma_create_session_wf(user_id);
        }
        if self.user_pos(user_id).is_none() {
            return Err(AppError::NotFound);
        }
        let sid = self.next_session_id;
        self.sessions.push(Session { id: sid, user_id });
        self.next_session_id = self.next_session_id + 1;
        proof {
            assert(self@ =~= old(self)@.create_session_t(user_id));
        }
        Ok(sid)
    }

    /// Resolves a session id to the identity of the user it authenticates,
    /// or to nothing if no such session is active.
    pub fn resolve_session(&self, session_id: u64) -> (r: Option<User>)
        requires
            self.wf(),
        ensures
            r is Some <==> self@.resolve(session_id) is Some,
            r matches Some(u) ==> self@.resolve(session_id) == Some(u.id) && self@.has_user(u.id)
                && u.email@ == self@.user_at(u.id).email && u.name@ == self@.user_at(u.id).name,
    {
        let spos = match self.session_pos(session_id) {
            None => {
                return None;
            },
            Some(i) => i,
        };
        let uid = self.sessions[spos].user_id;
        proof {
            self@.lemma_session_index(session_id);
            assert(self@.session_index(session_id) == spos);
            assert(self@.resolve(session_id) == Some(uid));
            assert(self@.has_user(uid));
            self@.lemma_user_index(uid);
        }
        let upos = match self.user_pos(uid) {
            None => {
                proof {
                    assert(false);
                }
                return None;
            },
            Some(j) => j,
        };
        proof {
            assert(self@.user_index(uid) == upos);
        }
        let row = &self.users[upos];
        Some(User { id: row.id, email: row.email.clone(), name: row.name.clone() })
    }

    /// Revokes a session. Idempotent: deleting an absent session changes
    /// nothing; afterwards the id resolves to nothing, and every other
    /// session is untouched.
    pub fn delete_session(&mut self, session_id: u64)
        requires
            old(self).wf(),
        ensures
            final(self)@ == old(self)@.delete_session_t(session_id),
            final(self).wf(),
            final(self)@.resolve(session_id) is None,
            forall|x: u64|
                x != session_id ==> (final(self)@.has_session(x) <==> #[trigger] old(
                    self,
                )@.has_session(x)),
    {
        proof {
            old(self)@.lemma_delete_session_wf(session_id);
        }
        let ghost m = self@;
        let n = self.sessions.len();
        let mut kept: Vec<Session> = Vec::new();
        let mut i: usize = 0;
        while i < n
            invariant
                self@ == m,
                n == self.sessions.len(),
                0 <= i <= n,
                rows_view(kept@) =~= without_session(m.sessions.take(i as int), session_id),
            decreases n - i,
        {
            let row = self.sessions[i];
            proof {
                assert(m.sessions.take(i + 1).drop_last() =~= m.sessions.take(i as int));
                assert(m.sessions.take(i + 1).last() == m.sessions[i as int]);
                assert(m.sessions[i as int] == row@);
            }
            if row.id != session_id {
                kept.push(row);
                proof {
                    assert(rows_view(kept@) =~= without_session(
                        m.sessions.take(i + 1),
                        session_id,
                    ));
                }
            }
            i = i + 1;
        }
        proof {
            assert(m.sessions.take(n as int) =~= m.sessions);
        }
        self.sessions = kept;
        proof {
            assert(self@ =~= old(self)@.delete_session_t(session_id));
        }
    }
}

} // verus!
