//! Password hashes bound to account identity.
//!
//! A hash is derived from the password and a salt built from the account
//! identifier, so identical passwords on different accounts never produce
//! equal hashes and a hash cannot be replayed against another account. The
//! derivation is Argon2id with its default parameters, a deliberately slow,
//! memory-hard function; verification recomputes the derivation and compares
//! in constant time.

use vstd::prelude::*;
use vstd::string::StringSliceAdditionalSpecFns;
use subtle::ConstantTimeEq;

verus! {

/// Number of bytes of a derived password hash.
pub const HASH_LEN: usize = 32;

/// Upper bound on the byte length of a password the derivation accepts.
pub const MAX_PASSWORD_BYTES: usize = 0xFFFF_FFFF;

/// What the key derivation returns for a password and a salt. It depends on
/// those two arguments alone.
pub uninterp spec fn hash_of(password: Seq<u8>, salt: Seq<u8>) -> Seq<u8>;

/// The salt of an account: the sixteen bytes of its 128-bit identifier,
/// least significant first.
pub open spec fn le_bytes(x: int, n: nat) -> Seq<u8>
    decreases n,
{
    if n == 0 {
        Seq::empty()
    } else {
        seq![(x % 256) as u8] + le_bytes(x / 256, (n - 1) as nat)
    }
}

/// The salt of the account with identifier `id`.
pub open spec fn salt_of(id: u128) -> Seq<u8> {
    le_bytes(id as int, 16)
}

/// A stored hash matches a recomputed one exactly when the bytes are equal.
pub open spec fn matches_hash(stored: Seq<u8>, recomputed: Seq<u8>) -> bool {
    stored == recomputed
}

/// Relies on argon2's `Argon2::hash_password_into` with the crate's default
/// algorithm and parameters (Argon2id, version 19): the 32-byte output is a
/// function of the password and the salt alone. The call fails only when its
/// working memory cannot be allocated; a 16-byte salt and a password of at
/// most `u32::MAX` bytes are always within its input limits.
#[verifier::external_body]
fn argon2_derive(password: &[u8], salt: &[u8]) -> (r: Option<Vec<u8>>)
    requires
        salt@.len() == 16,
        password@.len() <= MAX_PASSWORD_BYTES,
    ensures
        r matches Some(h) ==> h@ == hash_of(password@, salt@) && h@.len() == HASH_LEN,
{
    let mut out = [0u8; 32];
    match argon2::Argon2::default().hash_password_into(password, salt, &mut out) {
        Ok(()) => Some(out.to_vec()),
        Err(_) => None,
    }
}

/// Relies on subtle's `ConstantTimeEq` for byte slices: the result is true
/// exactly when the slices have equal length and equal contents, and the
/// comparison runs in constant time in the length.
#[verifier::external_body]
fn ct_bytes_eq(a: &[u8], b: &[u8]) -> (r: bool)
    ensures
        r == (a@ == b@),
{
    bool::from(a.ct_eq(b))
}

fn salt_bytes(id: u128) -> (r: Vec<u8>)
    ensures
        r@ == salt_of(id),
        r@.len() == 16,
{
    let mut out: Vec<u8> = Vec::new();
    let mut x: u128 = id;
    let mut i: usize = 0;
    proof {
        assert(out@ + le_bytes(id as int, 16) =~= le_bytes(id as int, 16));
    }
    while i < 16
        invariant
            0 <= i <= 16,
            out@.len() == i,
            le_bytes(id as int, 16) == out@ + le_bytes(x as int, (16 - i) as nat),
        decreases 16 - i,
    {
        let b: u8 = (x % 256) as u8;
        let next: u128 = x / 256;
        out.push(b);
        proof {
            assert(le_bytes(x as int, (16 - i) as nat) == seq![b] + le_bytes(
                next as int,
                (16 - (i + 1)) as nat,
            ));
            assert((out@ + le_bytes(next as int, (16 - (i + 1)) as nat)) =~= (out@.drop_last()
                + le_bytes(x as int, (16 - i) as nat)));
        }
        x = next;
        i += 1;
    }
    proof {
        assert(le_bytes(x as int, 0) =~= Seq::<u8>::empty());
        assert(out@ + Seq::<u8>::empty() =~= out@);
    }
    out
}

/// Derives the hash that binds `password` to the account with identifier
/// `id`. Returns `None` when the password is longer than the derivation
/// accepts, or when the derivation's working memory cannot be allocated.
pub fn make(id: u128, password: &str) -> (r: Option<Vec<u8>>)
    ensures
        r matches Some(h) ==> h@ == hash_of(password.spec_bytes(), salt_of(id)) && h@.len()
            == HASH_LEN,
        password.spec_bytes().len() > MAX_PASSWORD_BYTES ==> r is None,
{
    let bytes = password.as_bytes();
    if bytes.len() > MAX_PASSWORD_BYTES {
        return None;
    }
    let salt = salt_bytes(id);
    argon2_derive(bytes, salt.as_slice())
}

/// Says, for every value the derivation may have returned, whether the
/// stored hash matches it: true exactly when the derivation succeeded and
/// the bytes are equal.
pub fn matches_recomputed(stored: &Vec<u8>, recomputed: &Option<Vec<u8>>) -> (r: bool)
    ensures
        r == (recomputed matches Some(h) && matches_hash(stored@, h@)),
{
    match recomputed {
        None => false,
        Some(h) => ct_bytes_eq(stored.as_slice(), h.as_slice()),
    }
}

/// Recomputes the hash of `password` for the account with identifier `id`
/// and compares it to `stored` in constant time. A true result means the
/// stored hash is exactly the derivation of this password for this account;
/// a false result is returned for a wrong password, for a hash made for a
/// different account, and in the rare case that the derivation itself fails.
pub fn verify(stored: &Vec<u8>, id: u128, password: &str) -> (r: bool)
    ensures
        r ==> matches_hash(stored@, hash_of(password.spec_bytes(), salt_of(id))),
{
    let recomputed = make(id, password);
    matches_recomputed(stored, &recomputed)
}

/// A hash just derived for an account and password matches a verification
/// against the same account and password: the derivation is a function of
/// the password and the account's salt alone, so recomputing it yields the
/// same bytes. Together with the postconditions of `make` and
/// `matches_recomputed` this yields that whenever `make(id, p)` returns a
/// hash, verifying that hash against `id` and `p` succeeds.
pub proof fn lemma_make_verifies(id: u128, password: Seq<u8>)
    ensures
        matches_hash(hash_of(password, salt_of(id)), hash_of(password, salt_of(id))),
{
}

} // verus!
