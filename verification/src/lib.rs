//! Fail-closed authorization decisions over Cedar policies.
//!
//! Policy text, identifiers, context and entity data are handed to the Cedar
//! engine for parsing and for evaluating one policy at a time. Everything
//! around those calls is verified here: rejecting malformed input with a
//! `Deny`, detecting duplicate policy ids, combining the per-policy verdicts
//! (forbid overrides permit, deny by default), and a bounded
//! least-recently-used store of compiled policy sets.
//!
//! - [`authorizer`]: the entry points, from [`authorize`] down to one
//!   evaluation per policy.
//! - [`decision`]: verdicts and how they combine, with the laws of the
//!   combination.
//! - [`policy`]: compiling policy text into a set without duplicate ids.
//! - [`limits`]: the bounds that a policy text and an entity document must keep.
//! - [`request`]: requests and entity stores.
//! - [`cache`] and [`fingerprint`]: compiling a policy list once per content.
//! - [`model`]: the plain data that crosses the library's boundary.
//! - [`search`]: finding the first position with a property.
//! - [`engine`]: the calls into Cedar, which are believed rather than proved.

pub mod authorizer;
pub mod cache;
pub mod decision;
pub mod engine;
pub mod fingerprint;
pub mod limits;
pub mod model;
pub mod policy;
pub mod request;
pub mod search;

pub use authorizer::{authorize, authorize_with_cache};
pub use cache::PolicyCache;
pub use model::{
    AuthError, CedarPolicy, CedarResult, Decision, Effect, InputTree, RequestPart,
};
