use auth_core::hashing::{make, verify, HASH_LEN};

#[test]
fn make_verifies_for_same_account_and_password() {
    let id: u128 = 0x1111_2222_3333_4444_5555_6666_7777_8888;
    let hash = make(id, "Secret1").expect("derivation");
    assert_eq!(hash.len(), HASH_LEN);
    assert!(verify(&hash, id, "Secret1"));
}

#[test]
fn make_rejects_wrong_password() {
    let id: u128 = 0x1111_2222_3333_4444_5555_6666_7777_8888;
    let hash = make(id, "Secret1").expect("derivation");
    assert!(!verify(&hash, id, "Other1"));
}

#[test]
fn hash_is_not_portable_across_accounts() {
    let id_a: u128 = 1;
    let id_b: u128 = 2;
    let hash_a = make(id_a, "Secret1").expect("derivation");
    assert!(!verify(&hash_a, id_b, "Secret1"));
    let hash_b = make(id_b, "Secret1").expect("derivation");
    assert_ne!(hash_a, hash_b);
}

#[test]
fn make_is_deterministic_per_account() {
    let id: u128 = 42;
    let first = make(id, "Password123").expect("derivation");
    let second = make(id, "Password123").expect("derivation");
    assert_eq!(first, second);
}
