use auth_core::reconcile::{fresh_rows, plan_sync, AssociationRow};

fn row(row_id: u128, member_id: u128) -> AssociationRow {
    AssociationRow { row_id, member_id }
}

fn apply(existing: &[AssociationRow], detach: &[u128], attach: &[u128]) -> Vec<AssociationRow> {
    let mut out: Vec<AssociationRow> = existing
        .iter()
        .filter(|r| !detach.contains(&r.row_id))
        .cloned()
        .collect();
    out.extend(fresh_rows(&attach.to_vec()));
    out
}

#[test]
fn sync_plans_attach_and_detach() {
    // existing members {1, 2}, desired {2, 3}: attach 3, detach the row of 1
    let existing = vec![row(100, 1), row(200, 2)];
    let desired = vec![2u128, 3];
    let plan = plan_sync(&existing, &desired);
    assert_eq!(plan.attach, vec![3u128]);
    assert_eq!(plan.detach, vec![100u128]);
}

#[test]
fn sync_is_idempotent_after_apply() {
    let existing = vec![row(100, 1), row(200, 2)];
    let desired = vec![2u128, 3];
    let plan = plan_sync(&existing, &desired);
    let applied = apply(&existing, &plan.detach, &plan.attach);
    let replay = plan_sync(&applied, &desired);
    assert!(replay.attach.is_empty());
    assert!(replay.detach.is_empty());
}

#[test]
fn sync_with_empty_desired_is_full_revoke() {
    let existing = vec![row(100, 1), row(200, 2)];
    let desired: Vec<u128> = vec![];
    let plan = plan_sync(&existing, &desired);
    assert!(plan.attach.is_empty());
    assert_eq!(plan.detach, vec![100u128, 200]);
}

#[test]
fn sync_on_empty_association_attaches_everything() {
    let existing: Vec<AssociationRow> = vec![];
    let desired = vec![7u128, 8, 9];
    let plan = plan_sync(&existing, &desired);
    assert_eq!(plan.attach, vec![7u128, 8, 9]);
    assert!(plan.detach.is_empty());
}

#[test]
fn sync_already_in_sync_plans_nothing() {
    let existing = vec![row(100, 1), row(200, 2)];
    let desired = vec![1u128, 2];
    let plan = plan_sync(&existing, &desired);
    assert!(plan.attach.is_empty());
    assert!(plan.detach.is_empty());
}

#[test]
fn fresh_rows_carry_the_attach_members() {
    let attach = vec![5u128, 6];
    let rows = fresh_rows(&attach);
    let members: Vec<u128> = rows.iter().map(|r| r.member_id).collect();
    assert_eq!(members, attach);
    // fresh random row identifiers: distinct from each other
    assert_ne!(rows[0].row_id, rows[1].row_id);
}

#[test]
fn applied_association_attaches_each_member_once() {
    let existing = vec![row(100, 1), row(200, 2)];
    let desired = vec![2u128, 3];
    let plan = plan_sync(&existing, &desired);
    let applied = apply(&existing, &plan.detach, &plan.attach);
    let mut members: Vec<u128> = applied.iter().map(|r| r.member_id).collect();
    members.sort_unstable();
    assert_eq!(members, vec![2u128, 3]);
}
