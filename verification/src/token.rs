//! Issued bearer tokens.
//!
//! A token's 128-bit identifier doubles as the secret the client presents,
//! so it is drawn fresh at random on every issue and never reused. Clients
//! only ever see its opaque encoded form. Revocation on logout deletes every
//! token of the account, not just the presented one; the deletion itself is
//! a plain store operation performed by the boundary layer.

use vstd::prelude::*;
use crate::codec;

verus! {

/// An issued token: the random identifier (also the bearer secret), the
/// owning account, and an optional expiry timestamp in microseconds since
/// the Unix epoch. The resolver honours expired tokens, matching the
/// behaviour of the store: expiry is recorded but not enforced here.
#[derive(Clone, Copy)]
pub struct Token {
    pub id: u128,
    pub account_id: u128,
    pub expires_at: Option<i64>,
}

/// Relies on uuid's `Uuid::new_v4`, which draws a version-4 identifier from
/// a cryptographically secure source; nothing is promised of the value. If
/// the operating system's random source fails the call panics,
/// as an allocation failure would.
#[verifier::external_body]
pub(crate) fn random_id() -> (r: u128) {
    uuid::Uuid::new_v4().as_u128()
}

/// Issues a fresh token for `account_id`: the identifier is drawn at random
/// and is unpredictable, so no contract pins its value; the owner and the
/// expiry are exactly the arguments. The caller persists the token.
pub fn issue(account_id: u128, expires_at: Option<i64>) -> (t: Token)
    ensures
        t.account_id == account_id,
        t.expires_at == expires_at,
{
    Token { id: random_id(), account_id, expires_at }
}

impl Token {
    /// The opaque text of this token, as handed to the client: the encoding
    /// of its identifier, 22 characters of the token alphabet denoting
    /// exactly `self.id`.
    pub fn text(&self) -> (r: String)
        ensures
            r@.len() == codec::TOKEN_TEXT_LEN,
            codec::all_token_chars(r@),
            codec::token_value(r@) == self.id,
    {
        codec::encode(self.id)
    }
}

} // verus!
