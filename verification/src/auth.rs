//! The auth gate: the request-level policy in front of the store.
//!
//! A token, when present, is parsed as a decimal session id; anything
//! malformed counts the same as no token at all, never as an error.
//! Reads degrade to an anonymous viewer; writes fail with `Unauthorized`
//! unless the token names an active session.

use vstd::prelude::*;
use crate::errors::AppError;
use crate::model::StoreModel;
use crate::store::{Store, User};

verus! {

/// A decimal digit.
pub open spec fn is_digit_char(c: char) -> bool {
    48 <= c as u32 <= 57
}

/// The number a digit string denotes, most significant digit first.
pub open spec fn digits_val(s: Seq<char>) -> int
    decreases s.len(),
{
    if s.len() == 0 {
        0
    } else {
        digits_val(s.drop_last()) * 10 + (s.last() as u32 - 48)
    }
}

/// Whether a token string is a well-formed session id: non-empty, all
/// decimal digits, and within the id range.
pub open spec fn token_parses(s: Seq<char>) -> bool {
    &&& s.len() > 0
    &&& forall|i: int| 0 <= i < s.len() ==> is_digit_char(#[trigger] s[i])
    &&& digits_val(s) <= u64::MAX
}

/// The session id a well-formed token denotes.
pub open spec fn token_value(s: Seq<char>) -> u64 {
    digits_val(s) as u64
}

/// The view of an optional token string.
pub open spec fn token_view(token: Option<&str>) -> Option<Seq<char>> {
    match token {
        None => None,
        Some(s) => Some(s@),
    }
}

/// The user a request's token resolves to: none when the token is absent,
/// malformed, or names no active session.
pub open spec fn token_user(m: StoreModel, token: Option<Seq<char>>) -> Option<u64> {
    match token {
        None => None,
        Some(t) => if token_parses(t) {
            m.resolve(token_value(t))
        } else {
            None
        },
    }
}

/// A digit string denotes a non-negative number.
pub proof fn lemma_digits_val_nonneg(s: Seq<char>)
    requires
        forall|i: int| 0 <= i < s.len() ==> is_digit_char(#[trigger] s[i]),
    ensures
        digits_val(s) >= 0,
    decreases s.len(),
{
    if s.len() > 0 {
        let rest = s.drop_last();
        assert(forall|i: int| 0 <= i < rest.len() ==> #[trigger] rest[i] == s[i]);
        lemma_digits_val_nonneg(rest);
        assert(is_digit_char(s[s.len() - 1]));
    }
}

/// Extending a digit string never shrinks the number it denotes.
pub proof fn lemma_digits_val_monotone(s: Seq<char>, i: int)
    requires
        forall|k: int| 0 <= k < s.len() ==> is_digit_char(#[trigger] s[k]),
        0 <= i <= s.len(),
    ensures
        digits_val(s) >= digits_val(s.take(i)),
    decreases s.len() - i,
{
    if i < s.len() {
        let t = s.take(i + 1);
        assert(t.drop_last() =~= s.take(i));
        assert(t.last() == s[i]);
        assert(forall|k: int| 0 <= k < s.take(i).len() ==> #[trigger] s.take(i)[k] == s[k]);
        lemma_digits_val_nonneg(s.take(i));
        assert(digits_val(t) == digits_val(s.take(i)) * 10 + (s[i] as u32 - 48));
        assert(digits_val(t) >= digits_val(s.take(i)));
        lemma_digits_val_monotone(s, i + 1);
    } else {
        assert(s.take(i) =~= s);
    }
}

/// Parses a session token: the decimal session id it denotes, or nothing
/// if the token is not a well-formed id. Never fails loudly: a malformed
/// token is indistinguishable from an absent session downstream.
pub fn parse_token(token: &str) -> (r: Option<u64>)
    ensures
        r is Some <==> token_parses(token@),
        r matches Some(v) ==> v == token_value(token@),
{
    let n = token.unicode_len();
    if n == 0 {
        return None;
    }
    let mut v: u64 = 0;
    let mut i: usize = 0;
    while i < n
        invariant
            n == token@.len(),
            n > 0,
            0 <= i <= n,
            forall|j: int| 0 <= j < i ==> is_digit_char(#[trigger] token@[j]),
            v == digits_val(token@.take(i as int)),
        decreases n - i,
    {
        let c = token.get_char(i);
        let d = c as u32;
        if d < 48 || d > 57 {
            assert(!is_digit_char(token@[i as int]));
            return None;
        }
        proof {
            assert(token@.take(i + 1).drop_last() =~= token@.take(i as int));
            assert(token@.take(i + 1).last() == token@[i as int]);
        }
        let step = match v.checked_mul(10) {
            Some(w) => w.checked_add((d - 48) as u64),
            None => None,
        };
        match step {
            Some(w) => {
                v = w;
            },
            None => {
                proof {
                    if token_parses(token@) {
                        lemma_digits_val_monotone(token@, i + 1);
                        assert(digits_val(token@.take(i + 1)) > u64::MAX);
                    }
                }
                return None;
            },
        }
        i = i + 1;
    }
    proof {
        assert(token@.take(n as int) =~= token@);
    }
    Some(v)
}

impl Store {
    /// Authorizes a read: resolves the optional token to an identity, or
    /// to an anonymous viewer — never an error. The second component is
    /// the invalidate-session signal: true exactly when a token was
    /// presented but resolved to no user, telling the surrounding layer to
    /// clear the cookie.
    pub fn authorize_read(&self, token: Option<&str>) -> (r: (Option<User>, bool))
        requires
            self.wf(),
        ensures
            r.0 is Some <==> token_user(self@, token_view(token)) is Some,
            r.0 matches Some(u) ==> token_user(self@, token_view(token)) == Some(u.id)
                && self@.has_user(u.id) && u.email@ == self@.user_at(u.id).email && u.name@
                == self@.user_at(u.id).name,
            r.1 == (token is Some && token_user(self@, token_view(token)) is None),
    {
        match token {
            None => (None, false),
            Some(t) => match parse_token(t) {
                None => (None, true),
                Some(sid) => match self.resolve_session(sid) {
                    None => (None, true),
                    Some(u) => (Some(u), false),
                },
            },
        }
    }

    /// Authorizes a write: the resolved identity, or `Unauthorized` when
    /// the token is absent, malformed, or names no active session. Every
    /// mutating operation goes through this gate first.
    pub fn authorize_write(&self, token: Option<&str>) -> (r: Result<User, AppError>)
        requires
            self.wf(),
        ensures
            r is Ok <==> token_user(self@, token_view(token)) is Some,
            r matches Ok(u) ==> token_user(self@, token_view(token)) == Some(u.id)
                && self@.has_user(u.id) && u.email@ == self@.user_at(u.id).email && u.name@
                == self@.user_at(u.id).name,
            r matches Err(e) ==> e == AppError::Unauthorized,
    {
        match self.authorize_read(token) {
            (Some(u), _) => Ok(u),
            (None, _) => Err(AppError::Unauthorized),
        }
    }
}

} // verus!
