use auth_core::auth::login_flow;
use auth_core::codec::decode;
use auth_core::hashing::make;
use auth_core::records::Account;
use auth_core::resolver::{resolve_loaded, LoadedAccount};

fn account_with_password(id: u128, password: &str) -> Account {
    Account {
        id,
        name: "john doe".to_string(),
        email: "john@local.app".to_string(),
        username: "john".to_string(),
        email_verified_at: None,
        password_hash: make(id, password).expect("derivation"),
        profile_photo_id: None,
        created_at: 0,
        updated_at: 0,
        deleted_at: None,
    }
}

#[test]
fn login_with_wrong_password_issues_no_token() {
    let account = account_with_password(1, "Secret1");
    let outcome = login_flow(
        &"john".to_string(),
        &"Wrong1x".to_string(),
        Some(&account),
    );
    let validation = outcome.err().expect("validation outcome");
    assert_eq!(validation.fields.len(), 1);
    assert_eq!(validation.fields[0].field, "password");
    assert_eq!(validation.fields[0].messages, vec!["wrong password"]);
}

#[test]
fn login_with_unknown_identifier_issues_no_token() {
    let outcome = login_flow(&"nobody".to_string(), &"Secret1".to_string(), None);
    let validation = outcome.err().expect("validation outcome");
    assert_eq!(validation.fields[0].field, "email_or_username");
    assert_eq!(
        validation.fields[0].messages,
        vec!["email or username doesn't exist"]
    );
}

#[test]
fn login_with_empty_fields_reports_both() {
    let outcome = login_flow(&String::new(), &String::new(), None);
    let validation = outcome.err().expect("validation outcome");
    assert_eq!(validation.fields.len(), 2);
    assert_eq!(validation.fields[0].field, "email_or_username");
    assert_eq!(
        validation.fields[0].messages,
        vec!["field email or username is required"]
    );
    assert_eq!(validation.fields[1].field, "password");
    assert_eq!(validation.fields[1].messages, vec!["password field is required"]);
}

#[test]
fn login_with_correct_credentials_resolves_back_to_the_account() {
    let account = account_with_password(77, "Secret1");
    let success = login_flow(
        &"john".to_string(),
        &"Secret1".to_string(),
        Some(&account),
    )
    .ok()
    .expect("login");
    assert_eq!(success.token.account_id, 77);
    assert_eq!(success.user.id, 77);
    // the opaque text decodes back to the issued token identifier
    assert_eq!(decode(&success.token_text), Ok(success.token.id));
    // and a lookup of that identifier resolves to the same account
    let loaded = LoadedAccount { account, permissions: vec![], roles: vec![] };
    let ctx = resolve_loaded(Some(&loaded)).ok().expect("context");
    assert_eq!(ctx.user.id, success.token.account_id);
}
