//! The credential store: registration and login verification.
//!
//! Secrets are never stored; each user row keeps only `hash_chars` of the
//! secret, and a login verifies by hashing the offered secret and
//! comparing. Every contract speaks of the stored hash only, so the fold
//! used here (FNV-1a over the characters) is a placeholder a deployment
//! can swap for a real key-derivation function without touching any
//! caller. A failed login returns nothing, never a reason: an unknown
//! email and a wrong secret are indistinguishable to the caller.

use vstd::prelude::*;
use crate::errors::AppError;
use crate::store::{Store, UserId, UserRow};

verus! {

/// Offset basis of the credential hash (the FNV-1a constants).
pub const HASH_BASIS: u64 = 0xcbf29ce484222325;

/// Multiplier of the credential hash.
pub const HASH_PRIME: u64 = 0x100000001b3;

/// The hash a secret is stored and verified as: a left fold of
/// xor-then-multiply (wrapping) over the secret's characters.
pub open spec fn hash_chars(s: Seq<char>) -> u64
    decreases s.len(),
{
    if s.len() == 0 {
        HASH_BASIS
    } else {
        vstd::wrapping::u64_specs::wrapping_mul(
            hash_chars(s.drop_last()) ^ ((s.last() as u32) as u64),
            HASH_PRIME,
        )
    }
}

/// Hashes a secret for storage or verification.
pub fn hash_secret(secret: &str) -> (h: u64)
    ensures
        h == hash_chars(secret@),
{
    let n = secret.unicode_len();
    let mut h: u64 = HASH_BASIS;
    let mut i: usize = 0;
    while i < n
        invariant
            n == secret@.len(),
            0 <= i <= n,
            h == hash_chars(secret@.take(i as int)),
        decreases n - i,
    {
        let c = secret.get_char(i);
        h = (h ^ ((c as u32) as u64)).wrapping_mul(HASH_PRIME);
        proof {
            assert(secret@.take(i + 1).drop_last() =~= secret@.take(i as int));
            assert(secret@.take(i + 1).last() == secret@[i as int]);
        }
        i = i + 1;
    }
    proof {
        assert(secret@.take(n as int) =~= secret@);
    }
    h
}

impl Store {
    /// Whether a user row with this email already exists.
    pub fn email_exists(&self, email: &String) -> (taken: bool)
        ensures
            taken == self@.email_taken(email@),
    {
        let n = self.users.len();
        let mut i: usize = 0;
        while i < n
            invariant
                n == self.users.len(),
                0 <= i <= n,
                forall|j: int| 0 <= j < i ==> (#[trigger] self@.users[j]).email != email@,
            decreases n - i,
        {
            if self.users[i].email == *email {
                assert(self@.users[i as int].email == email@);
                return true;
            }
            i = i + 1;
        }
        false
    }

    /// Registers a new user. The email must not be taken; on conflict the
    /// call fails with `DuplicateEmail` and the store is unchanged. The
    /// secret is stored only as its hash.
    pub fn register(&mut self, email: String, name: String, secret: &str) -> (r: Result<
        UserId,
        AppError,
    >)
        requires
            old(self).wf(),
            old(self).next_user_id < u64::MAX,
        ensures
            final(self)@ == old(self)@.register_t(email@, name@, hash_chars(secret@)),
            final(self).wf(),
            r is Ok <==> !old(self)@.email_taken(email@),
            r matches Ok(u) ==> u.id == old(self)@.next_user_id,
            r matches Err(e) ==> Some(e) == old(self)@.register_err(email@),
    {
        proof {
            old(self)@.lemma_register_wf(email@, name@, hash_chars(secret@));
        }
        if self.email_exists(&email) {
            return Err(AppError::DuplicateEmail);
        }
        let id = self.next_user_id;
        let credential = hash_secret(secret);
        self.users.push(UserRow { id, email, name, credential });
        self.next_user_id = self.next_user_id + 1;
        proof {
            assert(self@ =~= old(self)@.register_t(email@, name@, hash_chars(secret@)));
        }
        Ok(UserId { id })
    }

    /// Verifies a login: returns the matching user's id only if the email
    /// exists and the secret's hash matches the stored one; returns
    /// nothing on any mismatch.
    pub fn verify_login(&self, email: &String, secret: &str) -> (r: Option<UserId>)
        requires
            self.wf(),
        ensures
            r is Some <==> self@.login_user(email@, hash_chars(secret@)) is Some,
            r matches Some(u) ==> self@.login_user(email@, hash_chars(secret@)) == Some(u.id),
    {
        let credential = hash_secret(secret);
        let ghost m = self@;
        let n = self.users.len();
        let mut i: usize = 0;
        while i < n
            invariant
                m == self@,
                m.wf(),
                n == self.users.len(),
                0 <= i <= n,
                credential == hash_chars(secret@),
                forall|j: int| 0 <= j < i ==> !(#[trigger] m.login_matches(j, email@, credential)),
            decreases n - i,
        {
            if self.users[i].email == *email && self.users[i].credential == credential {
                proof {
                    assert(m.login_matches(i as int, email@, credential));
                    assert(exists|k: int| #[trigger] m.login_matches(k, email@, credential));
                    let k = choose|k: int| #[trigger] m.login_matches(k, email@, credential);
                    assert(m.login_matches(k, email@, credential));
                    if k != i {
                        if k < i {
                            assert(m.users[k].email != m.users[i as int].email);
                        } else {
                            assert(m.users[i as int].email != m.users[k].email);
                        }
                    }
                }
                return Some(UserId { id: self.users[i].id });
            }
            i = i + 1;
        }
        proof {
            if exists|k: int| #[trigger] m.login_matches(k, email@, credential) {
                let k = choose|k: int| #[trigger] m.login_matches(k, email@, credential);
                assert(!m.login_matches(k, email@, credential));
            }
        }
        None
    }
}

} // verus!
