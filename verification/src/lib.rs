//! Identity core of an account service: opaque bearer tokens, password
//! hashes bound to account identity, resolution of a token into an
//! authenticated context, and reconciliation of many-to-many association
//! tables against a desired member set.

pub mod auth;
pub mod catalog;
pub mod codec;
pub mod errors;
pub mod hashing;
pub mod records;
pub mod resolver;
pub mod requests;
pub mod text;
pub mod token;
pub mod users;
pub mod validate;
pub mod reconcile;
