//! A small multi-user content-sharing service: users register, log in,
//! receive session tokens, publish text posts, and toggle likes on posts.
//!
//! The crate is the service's core: the credential store, the session
//! manager, the post/like ledger, and the request-level auth gate. The
//! surrounding HTTP and rendering layer hands the core plain values (an
//! optional session-token string, form fields, path parameters) and gets
//! plain values back (`Post` projections, `User` identities, error kinds).
//!
//! Every operation is specified against a mathematical model of the store
//! (`model::StoreModel`): a contract pins the new state and the result to a
//! spec-level transition function, and the service-wide guarantees (no
//! double-counted likes, no mutation without a resolved identity, aggregate
//! counts that always match the underlying rows) are proved over that model.

pub mod auth;
pub mod credentials;
pub mod errors;
pub mod laws;
pub mod ledger;
pub mod model;
pub mod service;
pub mod sessions;
pub mod store;
