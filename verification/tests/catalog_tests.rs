use auth_core::catalog::{
    catalog_store_check, create_permission, create_role, normalize_permission_store,
    normalize_role_store, permission_update_check, role_update_check,
};
use auth_core::errors::ApiError;
use auth_core::requests::{PermissionStoreRequest, PermissionUpdateRequest, RoleStoreRequest,
    RoleUpdateRequest};

#[test]
fn catalog_normalization_uppercases_codes() {
    let n = normalize_permission_store(&PermissionStoreRequest {
        code: " create_user ".to_string(),
        name: " Create User ".to_string(),
    });
    assert_eq!(n.code, "CREATE_USER");
    assert_eq!(n.name, "create user");
    let n = normalize_role_store(&RoleStoreRequest {
        code: " area_manager ".to_string(),
        name: " Area Manager ".to_string(),
    });
    assert_eq!(n.code, "AREA_MANAGER");
    assert_eq!(n.name, "area manager");
}

#[test]
fn catalog_store_rejects_empty_fields() {
    let n = normalize_permission_store(&PermissionStoreRequest {
        code: "  ".to_string(),
        name: "".to_string(),
    });
    match catalog_store_check(&n, false) {
        Err(ApiError::Validation(v)) => {
            let fields: Vec<&str> = v.fields.iter().map(|f| f.field.as_str()).collect();
            assert_eq!(fields, vec!["code", "name"]);
        },
        _ => panic!("expected a validation outcome"),
    }
}

#[test]
fn catalog_store_rejects_duplicate_codes_as_conflict() {
    let n = normalize_permission_store(&PermissionStoreRequest {
        code: "CREATE_USER".to_string(),
        name: "create user".to_string(),
    });
    assert!(matches!(catalog_store_check(&n, true), Err(ApiError::Conflict)));
    assert!(catalog_store_check(&n, false).is_ok());
}

#[test]
fn created_entries_carry_the_normalized_fields() {
    let n = normalize_permission_store(&PermissionStoreRequest {
        code: "create_user".to_string(),
        name: "Create User".to_string(),
    });
    let p = create_permission(&n);
    assert_eq!(p.code, "CREATE_USER");
    assert_eq!(p.name, "create user");
    let r = create_role(&n);
    assert_eq!(r.code, "CREATE_USER");
    assert_ne!(p.id, r.id);
}

#[test]
fn catalog_rename_requires_a_name() {
    let outcome = permission_update_check(&PermissionUpdateRequest { name: "  ".to_string() });
    match outcome {
        Err(ApiError::Validation(v)) => {
            assert_eq!(v.fields[0].field, "name");
            assert_eq!(v.fields[0].messages, vec!["field name is required"]);
        },
        _ => panic!("expected a validation outcome"),
    }
    let renamed = role_update_check(&RoleUpdateRequest { name: " Area Manager ".to_string() })
        .ok()
        .expect("name");
    assert_eq!(renamed, "area manager");
}
