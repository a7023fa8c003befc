use auth_core::errors::ApiError;
use auth_core::records::{Account, Permission, Role};
use auth_core::resolver::{build_context, resolve_loaded, resolve_token_text, LoadedAccount};

fn account(id: u128) -> Account {
    Account {
        id,
        name: "john doe".to_string(),
        email: "john@local.app".to_string(),
        username: "john".to_string(),
        email_verified_at: None,
        password_hash: vec![0u8; 32],
        profile_photo_id: None,
        created_at: 0,
        updated_at: 0,
        deleted_at: None,
    }
}

fn permission(id: u128, code: &str) -> Permission {
    Permission { id, code: code.to_string(), name: code.to_lowercase() }
}

fn role(id: u128, code: &str) -> Role {
    Role { id, code: code.to_string(), name: code.to_lowercase() }
}

#[test]
fn flattened_join_rows_collapse_by_id() {
    // 2 permissions and 3 roles: one combinatorial join hands back 6 rows,
    // each permission three times and each role twice
    let permissions = vec![
        permission(1, "CREATE_USER"),
        permission(2, "DELETE_USER"),
        permission(1, "CREATE_USER"),
        permission(2, "DELETE_USER"),
        permission(1, "CREATE_USER"),
        permission(2, "DELETE_USER"),
    ];
    let roles = vec![
        role(10, "SUPERUSER"),
        role(20, "MANAGER"),
        role(30, "AUDITOR"),
        role(10, "SUPERUSER"),
        role(20, "MANAGER"),
        role(30, "AUDITOR"),
    ];
    let loaded = LoadedAccount { account: account(7), permissions, roles };
    let ctx = build_context(&loaded);
    assert_eq!(ctx.permission_codes, vec!["CREATE_USER", "DELETE_USER"]);
    assert_eq!(ctx.role_codes, vec!["SUPERUSER", "MANAGER", "AUDITOR"]);
    assert_eq!(ctx.user.id, 7);
}

#[test]
fn duplicate_ids_keep_the_first_row() {
    let permissions = vec![
        permission(1, "FIRST"),
        permission(1, "SECOND"),
        permission(2, "THIRD"),
    ];
    let loaded = LoadedAccount { account: account(1), permissions, roles: vec![] };
    let ctx = build_context(&loaded);
    assert_eq!(ctx.permission_codes, vec!["FIRST", "THIRD"]);
    assert!(ctx.role_codes.is_empty());
}

#[test]
fn invalid_token_text_is_unauthorized() {
    assert!(matches!(resolve_token_text("not-a-token"), Err(ApiError::Unauthorized)));
    assert!(matches!(resolve_token_text(""), Err(ApiError::Unauthorized)));
    assert!(matches!(
        resolve_token_text("0000000000000000000000"),
        Err(ApiError::Unauthorized)
    ));
}

#[test]
fn well_formed_token_text_decodes() {
    let text = auth_core::codec::encode(99);
    assert!(matches!(resolve_token_text(&text), Ok(99)));
}

#[test]
fn unknown_token_is_unauthorized() {
    assert!(matches!(resolve_loaded(None), Err(ApiError::Unauthorized)));
}

#[test]
fn known_token_resolves_to_context() {
    let loaded = LoadedAccount {
        account: account(5),
        permissions: vec![permission(1, "CREATE_USER")],
        roles: vec![role(2, "MANAGER")],
    };
    let resolved = resolve_loaded(Some(&loaded)).ok().expect("context");
    assert_eq!(resolved.user.id, 5);
    assert_eq!(resolved.permission_codes, vec!["CREATE_USER"]);
    assert_eq!(resolved.role_codes, vec!["MANAGER"]);
}
