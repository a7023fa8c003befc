//! Reconciliation of a many-to-many association table against a desired
//! member set.
//!
//! Given the association rows currently stored for one account and the
//! complete set of member identifiers the account should end up with, the
//! planner names the members to attach (insert fresh rows for) and the rows
//! to detach (delete). The semantics are full replacement: a member missing
//! from the desired set is detached, and a desired member that is already
//! attached is left alone, so replaying the same desired set plans no work.
//! The caller applies detach then attach as one atomic unit.

use vstd::prelude::*;

verus! {

broadcast use vstd::seq_lib::group_filter_ensures;

/// One stored association row: the row's own identifier and the identifier
/// of the member (permission or role) it attaches to the account.
#[derive(Clone, Copy, Debug, PartialEq, Eq, Structural)]
pub struct AssociationRow {
    /// Identifier of the association row itself.
    pub row_id: u128,
    /// Identifier of the attached member.
    pub member_id: u128,
}

/// The attach/detach work that makes the stored association match the
/// desired member set.
pub struct SyncPlan {
    /// Member identifiers to attach: one fresh row is inserted for each.
    pub attach: Vec<u128>,
    /// Association rows to detach, named by their own row identifier.
    pub detach: Vec<u128>,
}

/// The members currently attached by a sequence of association rows.
pub open spec fn member_set(rows: Seq<AssociationRow>) -> Set<u128> {
    rows.map_values(|r: AssociationRow| r.member_id).to_set()
}

/// Association rows are well formed when no two share a row identifier.
pub open spec fn rows_wf(rows: Seq<AssociationRow>) -> bool {
    forall|i: int, j: int|
        0 <= i < rows.len() && 0 <= j < rows.len() && rows[i].row_id == rows[j].row_id ==> i == j
}

/// The members to attach: those desired but not currently attached, in the
/// order the caller listed them.
pub open spec fn spec_attach(existing: Seq<AssociationRow>, desired: Seq<u128>) -> Seq<u128> {
    desired.filter(|m: u128| !member_set(existing).contains(m))
}

/// The rows to detach: those whose member is no longer desired, in storage
/// order, named by row identifier.
pub open spec fn spec_detach(existing: Seq<AssociationRow>, desired: Seq<u128>) -> Seq<u128> {
    existing.filter(|r: AssociationRow| !desired.contains(r.member_id)).map_values(
        |r: AssociationRow| r.row_id,
    )
}

/// Whether `desired` lists the member identifier `m`.
fn desired_contains(desired: &Vec<u128>, m: u128) -> (r: bool)
    ensures
        r == desired@.contains(m),
{
    let mut j: usize = 0;
    while j < desired.len()
        invariant
            0 <= j <= desired@.len(),
            forall|k: int| 0 <= k < j ==> desired@[k] != m,
        decreases desired@.len() - j,
    {
        if desired[j] == m {
            return true;
        }
        j += 1;
    }
    false
}

/// Whether any stored row attaches the member identifier `m`.
fn members_contain(existing: &Vec<AssociationRow>, m: u128) -> (r: bool)
    ensures
        r == member_set(existing@).contains(m),
{
    let ghost mapped = existing@.map_values(|r: AssociationRow| r.member_id);
    let mut j: usize = 0;
    while j < existing.len()
        invariant
            0 <= j <= existing@.len(),
            mapped == existing@.map_values(|r: AssociationRow| r.member_id),
            forall|k: int| 0 <= k < j ==> existing@[k].member_id != m,
        decreases existing@.len() - j,
    {
        if existing[j].member_id == m {
            proof {
                assert(mapped[j as int] == m);
            }
            return true;
        }
        j += 1;
    }
    proof {
        assert(forall|k: int| 0 <= k < mapped.len() ==> mapped[k] != m);
        if member_set(existing@).contains(m) {
            let k = choose|k: int| 0 <= k < mapped.len() && mapped[k] == m;
            assert(false);
        }
    }
    false
}

/// Plans the attach/detach work that makes the stored association rows
/// match the desired member set: `attach` holds exactly the desired members
/// not currently attached, and `detach` exactly the rows whose member is not
/// desired. An empty desired set plans a full revoke: detach everything,
/// attach nothing.
pub fn plan_sync(existing: &Vec<AssociationRow>, desired: &Vec<u128>) -> (plan: SyncPlan)
    ensures
        plan.attach@ == spec_attach(existing@, desired@),
        plan.detach@ == spec_detach(existing@, desired@),
{
    let ghost detach_pred = |r: AssociationRow| !desired@.contains(r.member_id);
    let mut detach: Vec<u128> = Vec::new();
    let ghost mut kept: Seq<AssociationRow> = Seq::empty();
    let mut i: usize = 0;
    proof {
        assert(existing@.take(0) =~= Seq::<AssociationRow>::empty());
        assert(Seq::<AssociationRow>::empty().filter(detach_pred) =~= Seq::<
            AssociationRow,
        >::empty()) by {
            reveal(Seq::filter);
        }
        assert(detach@ =~= kept.map_values(|r: AssociationRow| r.row_id));
    }
    while i < existing.len()
        invariant
            0 <= i <= existing@.len(),
            detach_pred == (|r: AssociationRow| !desired@.contains(r.member_id)),
            kept == existing@.take(i as int).filter(detach_pred),
            detach@ == kept.map_values(|r: AssociationRow| r.row_id),
        decreases existing@.len() - i,
    {
        let row = existing[i];
        proof {
            assert(existing@.take(i + 1).drop_last() =~= existing@.take(i as int));
            assert(existing@.take(i + 1).last() == existing@[i as int]);
            reveal(Seq::filter);
        }
        if !desired_contains(desired, row.member_id) {
            detach.push(row.row_id);
            proof {
                kept = kept.push(row);
                assert(detach@ =~= kept.map_values(|r: AssociationRow| r.row_id));
            }
        }
        i += 1;
    }
    proof {
        assert(existing@.take(existing@.len() as int) =~= existing@);
    }
    let ghost attach_pred = |m: u128| !member_set(existing@).contains(m);
    let mut attach: Vec<u128> = Vec::new();
    let mut i: usize = 0;
    proof {
        assert(desired@.take(0) =~= Seq::<u128>::empty());
        assert(Seq::<u128>::empty().filter(attach_pred) =~= Seq::<u128>::empty()) by {
            reveal(Seq::filter);
        }
    }
    while i < desired.len()
        invariant
            0 <= i <= desired@.len(),
            attach_pred == (|m: u128| !member_set(existing@).contains(m)),
            attach@ == desired@.take(i as int).filter(attach_pred),
        decreases desired@.len() - i,
    {
        let m = desired[i];
        proof {
            assert(desired@.take(i + 1).drop_last() =~= desired@.take(i as int));
            assert(desired@.take(i + 1).last() == desired@[i as int]);
            reveal(Seq::filter);
        }
        if !members_contain(existing, m) {
            attach.push(m);
        }
        i += 1;
    }
    proof {
        assert(desired@.take(desired@.len() as int) =~= desired@);
    }
    SyncPlan { attach, detach }
}

/// Builds one fresh association row per member to attach: each row carries
/// a random row identifier and one member of the plan's attach list, in
/// order. This is exactly the shape under which applying the plan converges
/// to the desired set.
pub fn fresh_rows(attach: &Vec<u128>) -> (rows: Vec<AssociationRow>)
    ensures
        rows@.map_values(|r: AssociationRow| r.member_id) == attach@,
{
    let mut rows: Vec<AssociationRow> = Vec::new();
    let mut i: usize = 0;
    while i < attach.len()
        invariant
            0 <= i <= attach@.len(),
            rows@.len() == i,
            forall|k: int| 0 <= k < i ==> rows@[k].member_id == attach@[k],
        decreases attach@.len() - i,
    {
        rows.push(AssociationRow { row_id: crate::token::random_id(), member_id: attach[i] });
        i += 1;
    }
    proof {
        assert(rows@.map_values(|r: AssociationRow| r.member_id) =~= attach@);
    }
    rows
}

/// A filtered sequence keeps only elements of the original.
proof fn lemma_filter_subset<A>(s: Seq<A>, pred: spec_fn(A) -> bool, x: A)
    requires
        s.filter(pred).contains(x),
    ensures
        s.contains(x),
        pred(x),
    decreases s.len(),
{
    reveal(Seq::filter);
    if s.len() > 0 {
        if pred(s.last()) && x == s.last() {
            assert(s.contains(x)) by {
                assert(s[s.len() - 1] == x);
            }
        } else {
            if pred(s.last()) {
                let f = s.drop_last().filter(pred);
                let j = choose|j: int| 0 <= j < f.push(s.last()).len() && f.push(s.last())[j] == x;
                assert(f[j] == x);
            }
            lemma_filter_subset(s.drop_last(), pred, x);
            let j = choose|j: int| 0 <= j < s.drop_last().len() && s.drop_last()[j] == x;
            assert(s[j] == x);
        }
    }
}

/// Filtering with a predicate that holds nowhere yields the empty sequence.
proof fn lemma_filter_none<A>(s: Seq<A>, pred: spec_fn(A) -> bool)
    requires
        forall|i: int| 0 <= i < s.len() ==> !pred(s[i]),
    ensures
        s.filter(pred) == Seq::<A>::empty(),
    decreases s.len(),
{
    reveal(Seq::filter);
    if s.len() > 0 {
        lemma_filter_none(s.drop_last(), pred);
    }
}

/// Filtering with a predicate that holds everywhere keeps the sequence.
proof fn lemma_filter_all<A>(s: Seq<A>, pred: spec_fn(A) -> bool)
    requires
        forall|i: int| 0 <= i < s.len() ==> pred(s[i]),
    ensures
        s.filter(pred) == s,
    decreases s.len(),
{
    reveal(Seq::filter);
    if s.len() > 0 {
        lemma_filter_all(s.drop_last(), pred);
        assert(s.drop_last().push(s.last()) =~= s);
    }
}

/// An empty desired set plans a full revoke: nothing is attached, and every
/// stored row is detached, in storage order.
pub proof fn lemma_sync_empty_desired(existing: Seq<AssociationRow>)
    ensures
        spec_attach(existing, Seq::empty()) == Seq::<u128>::empty(),
        spec_detach(existing, Seq::empty()) == existing.map_values(|r: AssociationRow| r.row_id),
{
    reveal(Seq::filter);
    assert(Seq::<u128>::empty().filter(|m: u128| !member_set(existing).contains(m)) =~= Seq::<
        u128,
    >::empty());
    assert forall|i: int| 0 <= i < existing.len() implies (
    |r: AssociationRow| !Seq::<u128>::empty().contains(r.member_id))(existing[i]) by {
        if Seq::<u128>::empty().contains(existing[i].member_id) {
            let j = choose|j: int|
                0 <= j < 0 && Seq::<u128>::empty()[j] == existing[i].member_id;
            assert(false);
        }
    }
    lemma_filter_all(existing, |r: AssociationRow| !Seq::<u128>::empty().contains(r.member_id));
}

/// Association rows attach each member at most once when no two rows share
/// a member identifier.
pub open spec fn members_unique(rows: Seq<AssociationRow>) -> bool {
    forall|i: int, j: int|
        0 <= i < rows.len() && 0 <= j < rows.len() && rows[i].member_id == rows[j].member_id ==> i
            == j
}

/// A desired list is a set when no identifier repeats.
pub open spec fn ids_unique(ids: Seq<u128>) -> bool {
    forall|i: int, j: int| 0 <= i < ids.len() && 0 <= j < ids.len() && ids[i] == ids[j] ==> i == j
}

/// Filtering keeps rows' members pairwise distinct.
proof fn lemma_filter_members_distinct(s: Seq<AssociationRow>, pred: spec_fn(AssociationRow) -> bool)
    requires
        members_unique(s),
    ensures
        members_unique(s.filter(pred)),
    decreases s.len(),
{
    reveal(Seq::filter);
    if s.len() > 0 {
        let d = s.drop_last();
        assert(members_unique(d)) by {
            assert forall|i: int, j: int|
                0 <= i < d.len() && 0 <= j < d.len() && d[i].member_id == d[j].member_id implies i
                == j by {
                assert(s[i].member_id == s[j].member_id);
            }
        }
        lemma_filter_members_distinct(d, pred);
        if pred(s.last()) {
            let f = d.filter(pred);
            assert forall|i: int| 0 <= i < f.len() implies f[i].member_id != s.last().member_id by {
                lemma_filter_subset(d, pred, f[i]);
                let k = choose|k: int| 0 <= k < d.len() && d[k] == f[i];
                if f[i].member_id == s.last().member_id {
                    assert(s[k].member_id == s[s.len() - 1].member_id);
                }
            }
            assert(members_unique(f.push(s.last()))) by {
                assert forall|i: int, j: int|
                    0 <= i < f.push(s.last()).len() && 0 <= j < f.push(s.last()).len() && f.push(
                        s.last(),
                    )[i].member_id == f.push(s.last())[j].member_id implies i == j by {
                    if i < f.len() && j < f.len() {
                        assert(f[i].member_id == f[j].member_id);
                    }
                }
            }
        }
    }
}

/// Filtering keeps identifiers pairwise distinct.
proof fn lemma_filter_ids_distinct(s: Seq<u128>, pred: spec_fn(u128) -> bool)
    requires
        ids_unique(s),
    ensures
        ids_unique(s.filter(pred)),
    decreases s.len(),
{
    reveal(Seq::filter);
    if s.len() > 0 {
        let d = s.drop_last();
        assert(ids_unique(d)) by {
            assert forall|i: int, j: int|
                0 <= i < d.len() && 0 <= j < d.len() && d[i] == d[j] implies i == j by {
                assert(s[i] == s[j]);
            }
        }
        lemma_filter_ids_distinct(d, pred);
        if pred(s.last()) {
            let f = d.filter(pred);
            assert forall|i: int| 0 <= i < f.len() implies f[i] != s.last() by {
                lemma_filter_subset(d, pred, f[i]);
                let k = choose|k: int| 0 <= k < d.len() && d[k] == f[i];
                if f[i] == s.last() {
                    assert(s[k] == s[s.len() - 1]);
                }
            }
            assert(ids_unique(f.push(s.last()))) by {
                assert forall|i: int, j: int|
                    0 <= i < f.push(s.last()).len() && 0 <= j < f.push(s.last()).len() && f.push(
                        s.last(),
                    )[i] == f.push(s.last())[j] implies i == j by {
                    if i < f.len() && j < f.len() {
                        assert(f[i] == f[j]);
                    }
                }
            }
        }
    }
}

/// Applying a plan keeps at most one row per member: when the stored rows
/// attach each member once and the desired list names each member once,
/// the association left behind - the kept rows plus the fresh ones - still
/// attaches each member at most once. This is the store's one-row-per-pair
/// invariant, maintained by the reconciler rather than assumed of the
/// store.
pub proof fn lemma_sync_keeps_members_unique(
    existing: Seq<AssociationRow>,
    desired: Seq<u128>,
    fresh: Seq<AssociationRow>,
)
    requires
        rows_wf(existing),
        members_unique(existing),
        ids_unique(desired),
        fresh.map_values(|r: AssociationRow| r.member_id) == spec_attach(existing, desired),
    ensures
        members_unique(
            existing.filter(|r: AssociationRow| !spec_detach(existing, desired).contains(r.row_id))
                + fresh,
        ),
{
    let keep_pred = |r: AssociationRow| !spec_detach(existing, desired).contains(r.row_id);
    let attach_pred = |m: u128| !member_set(existing).contains(m);
    let kept = existing.filter(keep_pred);
    let attach = spec_attach(existing, desired);
    let remaining = kept + fresh;
    lemma_filter_members_distinct(existing, keep_pred);
    lemma_filter_ids_distinct(desired, attach_pred);
    assert forall|i: int| 0 <= i < kept.len() implies member_set(existing).contains(
        kept[i].member_id,
    ) by {
        lemma_filter_subset(existing, keep_pred, kept[i]);
        let k = choose|k: int| 0 <= k < existing.len() && existing[k] == kept[i];
        let mapped = existing.map_values(|r: AssociationRow| r.member_id);
        assert(mapped[k] == kept[i].member_id);
        assert(mapped.contains(kept[i].member_id));
    }
    assert forall|j: int| 0 <= j < fresh.len() implies !member_set(existing).contains(
        fresh[j].member_id,
    ) by {
        assert(fresh.map_values(|r: AssociationRow| r.member_id)[j] == fresh[j].member_id);
        assert(attach[j] == fresh[j].member_id);
        assert(attach_pred(attach[j]));
    }
    assert forall|i: int, j: int|
        0 <= i < remaining.len() && 0 <= j < remaining.len() && remaining[i].member_id
            == remaining[j].member_id implies i == j by {
        if i < kept.len() && j < kept.len() {
            assert(kept[i].member_id == kept[j].member_id);
        } else if i >= kept.len() && j >= kept.len() {
            let fi = i - kept.len();
            let fj = j - kept.len();
            assert(fresh.map_values(|r: AssociationRow| r.member_id)[fi] == fresh[fi].member_id);
            assert(fresh.map_values(|r: AssociationRow| r.member_id)[fj] == fresh[fj].member_id);
            assert(attach[fi] == attach[fj]);
        } else if i < kept.len() && j >= kept.len() {
            assert(member_set(existing).contains(kept[i].member_id));
            assert(!member_set(existing).contains(fresh[j - kept.len()].member_id));
        } else {
            assert(member_set(existing).contains(kept[j].member_id));
            assert(!member_set(existing).contains(fresh[i - kept.len()].member_id));
        }
    }
}

/// Replaying a desired set that is already attached plans no work: when the
/// attached members equal the desired members, both the attach and the
/// detach side of the plan are empty.
pub proof fn lemma_sync_idempotent(existing: Seq<AssociationRow>, desired: Seq<u128>)
    requires
        member_set(existing) == desired.to_set(),
    ensures
        spec_attach(existing, desired) == Seq::<u128>::empty(),
        spec_detach(existing, desired) == Seq::<u128>::empty(),
{
    let mapped = existing.map_values(|r: AssociationRow| r.member_id);
    assert forall|i: int| 0 <= i < desired.len() implies !(
    |m: u128| !member_set(existing).contains(m))(desired[i]) by {
        assert(desired.contains(desired[i]));
        assert(desired.to_set().contains(desired[i]));
    }
    lemma_filter_none(desired, |m: u128| !member_set(existing).contains(m));
    assert forall|i: int| 0 <= i < existing.len() implies !(
    |r: AssociationRow| !desired.contains(r.member_id))(existing[i]) by {
        assert(mapped[i] == existing[i].member_id);
        assert(mapped.contains(existing[i].member_id));
        assert(member_set(existing).contains(existing[i].member_id));
        assert(desired.to_set().contains(existing[i].member_id));
    }
    lemma_filter_none(existing, |r: AssociationRow| !desired.contains(r.member_id));
    assert(Seq::<AssociationRow>::empty().map_values(|r: AssociationRow| r.row_id) =~= Seq::<
        u128,
    >::empty());
}

/// Applying a plan converges to the desired set: deleting exactly the rows
/// the plan detaches and inserting one fresh row per attached member leaves
/// an association whose member set is exactly the desired set. Row
/// identifiers must be unique, as they are under the store's primary key.
pub proof fn lemma_sync_converges(
    existing: Seq<AssociationRow>,
    desired: Seq<u128>,
    fresh: Seq<AssociationRow>,
)
    requires
        rows_wf(existing),
        fresh.map_values(|r: AssociationRow| r.member_id) == spec_attach(existing, desired),
    ensures
        member_set(
            existing.filter(|r: AssociationRow| !spec_detach(existing, desired).contains(r.row_id))
                + fresh,
        ) == desired.to_set(),
{
    let detach_ids = spec_detach(existing, desired);
    let keep_pred = |r: AssociationRow| !detach_ids.contains(r.row_id);
    let remaining = existing.filter(keep_pred) + fresh;
    let detach_pred = |r: AssociationRow| !desired.contains(r.member_id);
    let detached_rows = existing.filter(detach_pred);
    let attach_pred = |m: u128| !member_set(existing).contains(m);

    assert forall|m: u128| member_set(remaining).contains(m) implies desired.to_set().contains(
        m,
    ) by {
        let mapped = remaining.map_values(|r: AssociationRow| r.member_id);
        let j = choose|j: int| 0 <= j < mapped.len() && mapped[j] == m;
        let row = remaining[j];
        assert(row.member_id == m);
        if j < existing.filter(keep_pred).len() {
            let kept_row = existing.filter(keep_pred)[j];
            lemma_filter_subset(existing, keep_pred, kept_row);
            if !desired.contains(kept_row.member_id) {
                let e = choose|e: int|
                    0 <= e < existing.len() && existing[e] == kept_row;
                assert(detach_pred(existing[e]));
                assert(detached_rows.contains(existing[e]));
                let f = choose|f: int|
                    0 <= f < detached_rows.len() && detached_rows[f] == kept_row;
                assert(detached_rows.map_values(|r: AssociationRow| r.row_id)[f]
                    == kept_row.row_id);
                assert(detach_ids.contains(kept_row.row_id));
                assert(false);
            }
            assert(desired.contains(m));
        } else {
            let fj = j - existing.filter(keep_pred).len();
            assert(fresh[fj] == row);
            assert(fresh.map_values(|r: AssociationRow| r.member_id)[fj] == m);
            assert(spec_attach(existing, desired).contains(m));
            lemma_filter_subset(desired, attach_pred, m);
        }
    }
    assert forall|m: u128| desired.to_set().contains(m) implies member_set(remaining).contains(
        m,
    ) by {
        let mapped = remaining.map_values(|r: AssociationRow| r.member_id);
        if member_set(existing).contains(m) {
            let emapped = existing.map_values(|r: AssociationRow| r.member_id);
            let e = choose|e: int| 0 <= e < emapped.len() && emapped[e] == m;
            let row = existing[e];
            assert(row.member_id == m);
            assert(!detach_pred(row));
            if detach_ids.contains(row.row_id) {
                let f = choose|f: int|
                    0 <= f < detached_rows.len() && detached_rows[f].row_id == row.row_id;
                lemma_filter_subset(existing, detach_pred, detached_rows[f]);
                let g = choose|g: int|
                    0 <= g < existing.len() && existing[g] == detached_rows[f];
                assert(existing[g].row_id == existing[e].row_id);
                assert(g == e);
                assert(false);
            }
            assert(keep_pred(row));
            assert(existing.filter(keep_pred).contains(row));
            let k = choose|k: int|
                0 <= k < existing.filter(keep_pred).len() && existing.filter(keep_pred)[k] == row;
            assert(remaining[k] == row);
            assert(mapped[k] == m);
        } else {
            let d = choose|d: int| 0 <= d < desired.len() && desired[d] == m;
            assert(attach_pred(desired[d]));
            assert(spec_attach(existing, desired).contains(m));
            let a = choose|a: int|
                0 <= a < spec_attach(existing, desired).len() && spec_attach(existing, desired)[a]
                    == m;
            assert(fresh.map_values(|r: AssociationRow| r.member_id)[a] == m);
            let k = existing.filter(keep_pred).len() + a;
            assert(remaining[k] == fresh[a]);
            assert(mapped[k] == m);
        }
    }
    assert(member_set(remaining) =~= desired.to_set());
}

/// Replanning immediately after applying a plan is empty on both sides:
/// the association produced by one sync is a fixed point of the next.
pub proof fn lemma_resync_after_apply_is_empty(
    existing: Seq<AssociationRow>,
    desired: Seq<u128>,
    fresh: Seq<AssociationRow>,
)
    requires
        rows_wf(existing),
        fresh.map_values(|r: AssociationRow| r.member_id) == spec_attach(existing, desired),
    ensures
        spec_attach(
            existing.filter(|r: AssociationRow| !spec_detach(existing, desired).contains(r.row_id))
                + fresh,
            desired,
        ) == Seq::<u128>::empty(),
        spec_detach(
            existing.filter(|r: AssociationRow| !spec_detach(existing, desired).contains(r.row_id))
                + fresh,
            desired,
        ) == Seq::<u128>::empty(),
{
    lemma_sync_converges(existing, desired, fresh);
    lemma_sync_idempotent(
        existing.filter(|r: AssociationRow| !spec_detach(existing, desired).contains(r.row_id))
            + fresh,
        desired,
    );
}

} // verus!
