use vstd::prelude::*;

verus! {

/// The service's error taxonomy.
///
/// Read paths degrade to an anonymous view instead of failing; write paths
/// return one of these without mutating state.
#[derive(Clone, Copy, Debug, PartialEq, Eq, Structural)]
pub enum AppError {
    /// A referenced post, user, or session is absent.
    NotFound,
    /// Registration was attempted with an email that is already taken.
    DuplicateEmail,
    /// A like was requested for a pair that already has one.
    AlreadyLiked,
    /// A write path was reached without a session that resolves to a user.
    Unauthorized,
    /// A post body was empty after trimming.
    EmptyBody,
}

} // verus!
