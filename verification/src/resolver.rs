//! Resolution of a presented token into an authenticated context.
//!
//! The token text is decoded to the 128-bit token identifier; the boundary
//! layer looks up the owning account together with the permissions and
//! roles attached to it, and the rows are collapsed here into one account
//! plus a deduplicated list of permission codes and a deduplicated list of
//! role codes, keyed by entity identifier. Because the permission join and
//! the role join are independent relations on the same account, a flattened
//! query hands back each permission and role many times over; resolution
//! keeps the first row per entity identifier and drops the rest. Every
//! failure - undecodable text, unknown or revoked token, storage fault -
//! resolves to the same opaque unauthorized outcome, and expired tokens are
//! honoured, matching the store.

use vstd::prelude::*;
use crate::codec;
use crate::errors::ApiError;
use crate::records::{Account, Permission, Role, UserOAS};

verus! {

/// The resolved bundle: the account's public view plus its deduplicated
/// permission and role codes.
pub struct AuthContext {
    pub user: UserOAS,
    pub permission_codes: Vec<String>,
    pub role_codes: Vec<String>,
}

/// What the account loader hands back for a token identifier that is known:
/// the owning account and every attached permission and role row, possibly
/// with duplicates from the join.
pub struct LoadedAccount {
    pub account: Account,
    pub permissions: Vec<Permission>,
    pub roles: Vec<Role>,
}

/// The codes of the first row per entity identifier, in row order: what is
/// left of a joined row list once duplicates by identifier are dropped.
pub open spec fn dedup_codes(entries: Seq<(u128, Seq<char>)>) -> Seq<Seq<char>>
    decreases entries.len(),
{
    if entries.len() == 0 {
        Seq::empty()
    } else {
        let prefix = dedup_codes(entries.drop_last());
        if exists|j: int|
            0 <= j < entries.len() - 1 && (#[trigger] entries[j]).0 == entries[entries.len()
                - 1].0 {
            prefix
        } else {
            prefix.push(entries[entries.len() - 1].1)
        }
    }
}

/// The identifier-and-code pairs of permission rows.
pub open spec fn permission_entries(rows: Seq<Permission>) -> Seq<(u128, Seq<char>)> {
    rows.map_values(|p: Permission| (p.id, p.code@))
}

/// The identifier-and-code pairs of role rows.
pub open spec fn role_entries(rows: Seq<Role>) -> Seq<(u128, Seq<char>)> {
    rows.map_values(|p: Role| (p.id, p.code@))
}

/// Collapses joined permission rows: the code of the first row per
/// permission identifier, in row order.
pub fn dedup_permission_codes(rows: &Vec<Permission>) -> (codes: Vec<String>)
    ensures
        codes@.map_values(|c: String| c@) == dedup_codes(permission_entries(rows@)),
{
    let mut codes: Vec<String> = Vec::new();
    let mut seen: Vec<u128> = Vec::new();
    let mut i: usize = 0;
    proof {
        assert(permission_entries(rows@.take(0)) =~= Seq::<(u128, Seq<char>)>::empty());
        assert(codes@.map_values(|c: String| c@) =~= dedup_codes(
            permission_entries(rows@.take(0)),
        ));
    }
    while i < rows.len()
        invariant
            0 <= i <= rows@.len(),
            seen@.len() == i,
            forall|k: int| 0 <= k < i ==> seen@[k] == rows@[k].id,
            codes@.map_values(|c: String| c@) == dedup_codes(permission_entries(rows@.take(i as int))),
        decreases rows@.len() - i,
    {
        let row_id = rows[i].id;
        let row_code = rows[i].code.clone();
        proof {
            assert(permission_entries(rows@.take(i + 1)).drop_last() =~= permission_entries(
                rows@.take(i as int),
            ));
            assert(permission_entries(rows@.take(i + 1)).last() == (rows@[i as int].id, rows@[
                i as int].code@));
        }
        let mut dup = false;
        let mut j: usize = 0;
        while j < seen.len()
            invariant
                0 <= j <= seen@.len(),
                seen@.len() == i,
                i < rows@.len(),
                row_id == rows@[i as int].id,
                forall|k: int| 0 <= k < i ==> seen@[k] == rows@[k].id,
                dup == exists|k: int| 0 <= k < j && rows@[k].id == rows@[i as int].id,
            decreases seen@.len() - j,
        {
            if seen[j] == row_id {
                dup = true;
                proof {
                    assert(rows@[j as int].id == rows@[i as int].id);
                }
            }
            j += 1;
        }
        proof {
            let entries = permission_entries(rows@.take(i + 1));
            assert(dup == exists|k: int|
                0 <= k < entries.len() - 1 && (#[trigger] entries[k]).0 == entries[entries.len()
                    - 1].0) by {
                if dup {
                    let k = choose|k: int| 0 <= k < i && rows@[k].id == rows@[i as int].id;
                    assert(entries[k].0 == entries[entries.len() - 1].0);
                }
                if exists|k: int|
                    0 <= k < entries.len() - 1 && (#[trigger] entries[k]).0 == entries[
                        entries.len() - 1].0 {
                    let k = choose|k: int|
                        0 <= k < entries.len() - 1 && (#[trigger] entries[k]).0 == entries[
                            entries.len() - 1].0;
                    assert(rows@[k].id == rows@[i as int].id);
                }
            }
        }
        if !dup {
            codes.push(row_code);
            proof {
                assert(codes@.map_values(|c: String| c@) =~= dedup_codes(
                    permission_entries(rows@.take(i + 1)),
                ));
            }
        }
        seen.push(row_id);
        i += 1;
    }
    proof {
        assert(rows@.take(rows@.len() as int) =~= rows@);
    }
    codes
}

/// Collapses joined role rows: the code of the first row per role
/// identifier, in row order.
pub fn dedup_role_codes(rows: &Vec<Role>) -> (codes: Vec<String>)
    ensures
        codes@.map_values(|c: String| c@) == dedup_codes(role_entries(rows@)),
{
    let mut codes: Vec<String> = Vec::new();
    let mut seen: Vec<u128> = Vec::new();
    let mut i: usize = 0;
    proof {
        assert(role_entries(rows@.take(0)) =~= Seq::<(u128, Seq<char>)>::empty());
        assert(codes@.map_values(|c: String| c@) =~= dedup_codes(role_entries(rows@.take(0))));
    }
    while i < rows.len()
        invariant
            0 <= i <= rows@.len(),
            seen@.len() == i,
            forall|k: int| 0 <= k < i ==> seen@[k] == rows@[k].id,
            codes@.map_values(|c: String| c@) == dedup_codes(role_entries(rows@.take(i as int))),
        decreases rows@.len() - i,
    {
        let row_id = rows[i].id;
        let row_code = rows[i].code.clone();
        proof {
            assert(role_entries(rows@.take(i + 1)).drop_last() =~= role_entries(
                rows@.take(i as int),
            ));
            assert(role_entries(rows@.take(i + 1)).last() == (rows@[i as int].id, rows@[
                i as int].code@));
        }
        let mut dup = false;
        let mut j: usize = 0;
        while j < seen.len()
            invariant
                0 <= j <= seen@.len(),
                seen@.len() == i,
                i < rows@.len(),
                row_id == rows@[i as int].id,
                forall|k: int| 0 <= k < i ==> seen@[k] == rows@[k].id,
                dup == exists|k: int| 0 <= k < j && rows@[k].id == rows@[i as int].id,
            decreases seen@.len() - j,
        {
            if seen[j] == row_id {
                dup = true;
                proof {
                    assert(rows@[j as int].id == rows@[i as int].id);
                }
            }
            j += 1;
        }
        proof {
            let entries = role_entries(rows@.take(i + 1));
            assert(dup == exists|k: int|
                0 <= k < entries.len() - 1 && (#[trigger] entries[k]).0 == entries[entries.len()
                    - 1].0) by {
                if dup {
                    let k = choose|k: int| 0 <= k < i && rows@[k].id == rows@[i as int].id;
                    assert(entries[k].0 == entries[entries.len() - 1].0);
                }
                if exists|k: int|
                    0 <= k < entries.len() - 1 && (#[trigger] entries[k]).0 == entries[
                        entries.len() - 1].0 {
                    let k = choose|k: int|
                        0 <= k < entries.len() - 1 && (#[trigger] entries[k]).0 == entries[
                            entries.len() - 1].0;
                    assert(rows@[k].id == rows@[i as int].id);
                }
            }
        }
        if !dup {
            codes.push(row_code);
            proof {
                assert(codes@.map_values(|c: String| c@) =~= dedup_codes(
                    role_entries(rows@.take(i + 1)),
                ));
            }
        }
        seen.push(row_id);
        i += 1;
    }
    proof {
        assert(rows@.take(rows@.len() as int) =~= rows@);
    }
    codes
}

/// Decodes the presented token text into the token identifier it names.
/// Any undecodable text - wrong length, foreign character, value out of
/// range - is an unauthorized outcome, never a fault.
pub fn resolve_token_text(text: &str) -> (r: Result<u128, ApiError>)
    ensures
        match r {
            Ok(id) => codec::spec_decode(text@) == Some(id),
            Err(e) => codec::spec_decode(text@) is None && e is Unauthorized,
        },
{
    match codec::decode(text) {
        Ok(id) => Ok(id),
        Err(_) => Err(ApiError::Unauthorized),
    }
}

/// Builds the authenticated context from the loaded account and its joined
/// permission and role rows: the account's public view plus the first code
/// per permission identifier and per role identifier.
pub fn build_context(loaded: &LoadedAccount) -> (ctx: AuthContext)
    ensures
        crate::records::user_view_matches(ctx.user, loaded.account),
        ctx.permission_codes@.map_values(|c: String| c@) == dedup_codes(
            permission_entries(loaded.permissions@),
        ),
        ctx.role_codes@.map_values(|c: String| c@) == dedup_codes(role_entries(loaded.roles@)),
{
    AuthContext {
        user: UserOAS::of_account(&loaded.account),
        permission_codes: dedup_permission_codes(&loaded.permissions),
        role_codes: dedup_role_codes(&loaded.roles),
    }
}

/// Resolves what the loader handed back for a decoded token identifier: an
/// unknown or revoked token - nothing loaded - is an unauthorized outcome,
/// a loaded account becomes the authenticated context.
pub fn resolve_loaded(loaded: Option<&LoadedAccount>) -> (r: Result<AuthContext, ApiError>)
    ensures
        match r {
            Ok(ctx) => loaded matches Some(l) && crate::records::user_view_matches(
                ctx.user,
                l.account,
            ) && ctx.permission_codes@.map_values(|c: String| c@) == dedup_codes(
                permission_entries(l.permissions@),
            ) && ctx.role_codes@.map_values(|c: String| c@) == dedup_codes(
                role_entries(l.roles@),
            ),
            Err(e) => loaded is None && e is Unauthorized,
        },
{
    match loaded {
        None => Err(ApiError::Unauthorized),
        Some(l) => Ok(build_context(l)),
    }
}

/// No two entries of a deduplicated code list come from rows with the same
/// identifier, and every row's identifier is represented: deduplication
/// keeps exactly one code per distinct identifier, so a join that hands the
/// same entity back many times over contributes one code.
pub proof fn lemma_dedup_counts_distinct_ids(entries: Seq<(u128, Seq<char>)>)
    ensures
        dedup_codes(entries).len() == entries.map_values(|e: (u128, Seq<char>)| e.0).to_set().len(),
    decreases entries.len(),
{
    let ids = entries.map_values(|e: (u128, Seq<char>)| e.0);
    if entries.len() == 0 {
        assert(ids =~= Seq::<u128>::empty());
        assert(ids.to_set() =~= Set::<u128>::empty());
        assert(ids.to_set().len() == 0) by {
            broadcast use vstd::set::axiom_set_empty_len;

        }
    } else {
        let prefix = entries.drop_last();
        let prefix_ids = prefix.map_values(|e: (u128, Seq<char>)| e.0);
        let last_id = entries[entries.len() - 1].0;
        lemma_dedup_counts_distinct_ids(prefix);
        assert(prefix_ids =~= ids.drop_last());
        if exists|j: int| 0 <= j < entries.len() - 1 && (#[trigger] entries[j]).0 == last_id {
            let j = choose|j: int|
                0 <= j < entries.len() - 1 && (#[trigger] entries[j]).0 == last_id;
            assert(prefix_ids[j] == last_id);
            assert(prefix_ids.contains(last_id));
            assert(ids.to_set() =~= prefix_ids.to_set()) by {
                assert forall|x: u128| ids.contains(x) implies prefix_ids.contains(x) by {
                    let k = choose|k: int| 0 <= k < ids.len() && ids[k] == x;
                    if k < ids.len() - 1 {
                        assert(prefix_ids[k] == x);
                    } else {
                        assert(prefix_ids[j] == x);
                    }
                }
                assert forall|x: u128| prefix_ids.contains(x) implies ids.contains(x) by {
                    let k = choose|k: int| 0 <= k < prefix_ids.len() && prefix_ids[k] == x;
                    assert(ids[k] == x);
                }
            }
        } else {
            assert(!prefix_ids.contains(last_id)) by {
                if prefix_ids.contains(last_id) {
                    let j = choose|j: int|
                        0 <= j < prefix_ids.len() && prefix_ids[j] == last_id;
                    assert(entries[j].0 == last_id);
                }
            }
            assert(ids.to_set() =~= prefix_ids.to_set().insert(last_id)) by {
                assert forall|x: u128| ids.contains(x) implies prefix_ids.to_set().insert(
                    last_id,
                ).contains(x) by {
                    let k = choose|k: int| 0 <= k < ids.len() && ids[k] == x;
                    if k < ids.len() - 1 {
                        assert(prefix_ids[k] == x);
                    }
                }
                assert forall|x: u128| prefix_ids.to_set().insert(last_id).contains(x)
                    implies ids.contains(x) by {
                    if x == last_id {
                        assert(ids[ids.len() - 1] == x);
                    } else {
                        let k = choose|k: int| 0 <= k < prefix_ids.len() && prefix_ids[k] == x;
                        assert(ids[k] == x);
                    }
                }
            }
            assert(prefix_ids.to_set().insert(last_id).len() == prefix_ids.to_set().len() + 1) by {
                broadcast use vstd::seq_lib::seq_to_set_is_finite;
                broadcast use vstd::set::axiom_set_insert_len;

                assert(!prefix_ids.to_set().contains(last_id));
            }
        }
    }
}

} // verus!
