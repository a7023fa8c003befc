use auth_core::errors::ApiError;
use auth_core::hashing::{make, verify};
use auth_core::records::Account;
use auth_core::requests::{UserStoreRequest, UserUpdatePasswordRequest};
use auth_core::users::{
    apply_general_update, apply_soft_delete, create_account, normalize_store_request,
    store_user_check, update_password_check, update_user_check, NormalizedUserUpdate,
};

fn store_request(name: &str, email: &str, username: &str, password: &str) -> UserStoreRequest {
    UserStoreRequest {
        name: name.to_string(),
        email: email.to_string(),
        username: username.to_string(),
        password: password.to_string(),
    }
}

#[test]
fn normalization_trims_and_lowercases() {
    let req = store_request("  John Doe  ", " John@Local.APP ", " JOHN ", " Password1 ");
    let n = normalize_store_request(&req);
    assert_eq!(n.name, "john doe");
    assert_eq!(n.email, "john@local.app");
    assert_eq!(n.username, "john");
    assert_eq!(n.password, "Password1");
}

#[test]
fn store_check_passes_a_good_request() {
    let n = normalize_store_request(&store_request("John", "john@local.app", "john", "Password1"));
    assert!(store_user_check(&n, false, false).is_ok());
}

#[test]
fn store_check_gathers_every_failing_field() {
    let n = normalize_store_request(&store_request("", "", "", ""));
    let v = store_user_check(&n, false, false).err().expect("validation");
    let fields: Vec<&str> = v.fields.iter().map(|f| f.field.as_str()).collect();
    assert_eq!(fields, vec!["name", "email", "username", "password"]);
    assert_eq!(v.fields[0].messages, vec!["field name is required"]);
    assert_eq!(v.fields[1].messages, vec!["field email is required"]);
    assert_eq!(v.fields[2].messages, vec!["field username is required"]);
    assert_eq!(v.fields[3].messages, vec!["field password is required"]);
}

#[test]
fn store_check_reports_taken_email_and_username() {
    let n = normalize_store_request(&store_request("John", "john@local.app", "john", "Password1"));
    let v = store_user_check(&n, true, true).err().expect("validation");
    let fields: Vec<&str> = v.fields.iter().map(|f| f.field.as_str()).collect();
    assert_eq!(fields, vec!["email", "username"]);
    assert_eq!(v.fields[0].messages, vec!["email already used"]);
    assert_eq!(v.fields[1].messages, vec!["username already used"]);
}

#[test]
fn store_check_gathers_every_password_rule() {
    let n = normalize_store_request(&store_request("John", "john@local.app", "john", "abc"));
    let v = store_user_check(&n, false, false).err().expect("validation");
    assert_eq!(v.fields.len(), 1);
    assert_eq!(v.fields[0].field, "password");
    assert_eq!(
        v.fields[0].messages,
        vec![
            "min length for password is 6",
            "password must have numeric value",
            "password must have lower and upper case",
        ]
    );
}

#[test]
fn created_account_has_a_bound_hash() {
    let n = normalize_store_request(&store_request("John", "john@local.app", "john", "Password1"));
    let account = create_account(&n, 1000).expect("account");
    assert_eq!(account.name, "john");
    assert_eq!(account.created_at, 1000);
    assert_eq!(account.updated_at, 1000);
    assert!(account.deleted_at.is_none());
    assert!(verify(&account.password_hash, account.id, "Password1"));
    assert!(!verify(&account.password_hash, account.id, "Password2"));
}

#[test]
fn update_check_requires_an_existing_account() {
    let n = NormalizedUserUpdate {
        name: "john".to_string(),
        email: "john@local.app".to_string(),
        username: "john".to_string(),
        profile_photo_id: None,
    };
    assert!(matches!(update_user_check(false, &n, false, false), Err(ApiError::NotFound)));
    assert!(update_user_check(true, &n, false, false).is_ok());
}

fn stored_account(id: u128, password: &str) -> Account {
    Account {
        id,
        name: "john".to_string(),
        email: "john@local.app".to_string(),
        username: "john".to_string(),
        email_verified_at: None,
        password_hash: make(id, password).expect("derivation"),
        profile_photo_id: None,
        created_at: 0,
        updated_at: 0,
        deleted_at: None,
    }
}

fn password_change(current: &str, new: &str, confirmation: &str) -> UserUpdatePasswordRequest {
    UserUpdatePasswordRequest {
        current_password: current.to_string(),
        new_password: new.to_string(),
        password_confirmation: confirmation.to_string(),
    }
}

#[test]
fn password_change_rejects_missing_account() {
    let req = password_change("Password1", "Password2", "Password2");
    assert!(matches!(update_password_check(None, &req), Err(ApiError::NotFound)));
}

#[test]
fn password_change_rejects_wrong_current_password() {
    let account = stored_account(5, "Password1");
    let req = password_change("Wrong1x", "Password2", "Password2");
    let outcome = update_password_check(Some(&account), &req);
    match outcome {
        Err(ApiError::Validation(v)) => {
            assert_eq!(v.fields.len(), 1);
            assert_eq!(v.fields[0].field, "currentPassword");
            assert_eq!(v.fields[0].messages, vec!["wrong password"]);
        },
        _ => panic!("expected a validation outcome"),
    }
}

#[test]
fn password_change_rejects_reused_and_mismatched_passwords() {
    let account = stored_account(5, "Password1");
    let req = password_change("Password1", "Password1", "Password2");
    let outcome = update_password_check(Some(&account), &req);
    match outcome {
        Err(ApiError::Validation(v)) => {
            let fields: Vec<&str> = v.fields.iter().map(|f| f.field.as_str()).collect();
            assert_eq!(fields, vec!["newPassword", "passwordConfirmation"]);
            assert_eq!(
                v.fields[0].messages,
                vec!["can't update new password with old password"]
            );
            assert_eq!(
                v.fields[1].messages,
                vec!["password confirmation doesn't match with new password"]
            );
        },
        _ => panic!("expected a validation outcome"),
    }
}

#[test]
fn password_change_derives_the_new_hash() {
    let account = stored_account(5, "Password1");
    let req = password_change("Password1", "Password2", "Password2");
    let new_hash = update_password_check(Some(&account), &req).ok().expect("new hash");
    assert!(verify(&new_hash, 5, "Password2"));
    assert!(!verify(&new_hash, 5, "Password1"));
}

#[test]
fn general_update_replaces_profile_and_keeps_credentials() {
    let account = stored_account(9, "Password1");
    let n = NormalizedUserUpdate {
        name: "johnny".to_string(),
        email: "johnny@local.app".to_string(),
        username: "johnny".to_string(),
        profile_photo_id: Some("photo-1".to_string()),
    };
    let updated = apply_general_update(&account, &n, 5000);
    assert_eq!(updated.id, 9);
    assert_eq!(updated.name, "johnny");
    assert_eq!(updated.email, "johnny@local.app");
    assert_eq!(updated.profile_photo_id, Some("photo-1".to_string()));
    assert_eq!(updated.password_hash, account.password_hash);
    assert_eq!(updated.created_at, account.created_at);
    assert_eq!(updated.updated_at, 5000);
    assert!(updated.deleted_at.is_none());
}

#[test]
fn soft_delete_marks_and_keeps_everything_else() {
    let account = stored_account(9, "Password1");
    let deleted = apply_soft_delete(&account, 7000);
    assert_eq!(deleted.id, 9);
    assert_eq!(deleted.username, account.username);
    assert_eq!(deleted.deleted_at, Some(7000));
    assert_eq!(deleted.updated_at, account.updated_at);
}
