//! The permission and role catalogs: creation and rename. Both catalogs
//! follow the same rules - a unique uppercase machine code and a lowercase
//! human name - so they share one set of checks.

use vstd::prelude::*;
use crate::errors::{ApiError, FieldErrors, ValidationError, fields_view};
use crate::records::{Permission, Role};
use crate::requests::{PermissionStoreRequest, PermissionUpdateRequest, RoleStoreRequest,
    RoleUpdateRequest};
use crate::text;
use crate::token;

verus! {

/// A catalog creation request in normal form: the code trimmed and
/// uppercased, the name trimmed and lowercased.
pub struct NormalizedCatalogStore {
    pub code: String,
    pub name: String,
}

/// Normalizes a permission creation request.
pub fn normalize_permission_store(req: &PermissionStoreRequest) -> (n: NormalizedCatalogStore)
    ensures
        n.code@ == text::upper_of(text::trim_of(req.code@)),
        n.name@ == text::lower_of(text::trim_of(req.name@)),
{
    NormalizedCatalogStore {
        code: text::normalize_upper(req.code.as_str()),
        name: text::normalize_lower(req.name.as_str()),
    }
}

/// Normalizes a role creation request.
pub fn normalize_role_store(req: &RoleStoreRequest) -> (n: NormalizedCatalogStore)
    ensures
        n.code@ == text::upper_of(text::trim_of(req.code@)),
        n.name@ == text::lower_of(text::trim_of(req.name@)),
{
    NormalizedCatalogStore {
        code: text::normalize_upper(req.code.as_str()),
        name: text::normalize_lower(req.name.as_str()),
    }
}

/// The failing fields of a catalog creation: code and name must be present.
pub open spec fn catalog_store_field_errors(code: Seq<char>, name: Seq<char>) -> Seq<
    (Seq<char>, Seq<Seq<char>>),
> {
    (if code.len() == 0 {
        seq![("code"@, seq!["field code is required"@])]
    } else {
        Seq::empty()
    }) + (if name.len() == 0 {
        seq![("name"@, seq!["field name is required"@])]
    } else {
        Seq::empty()
    })
}

/// Validates a normalized catalog creation: both fields must be present,
/// and the code must not already be taken - a duplicate code is a conflict,
/// reported after the field checks pass.
pub fn catalog_store_check(n: &NormalizedCatalogStore, code_exists: bool) -> (r: Result<
    (),
    ApiError,
>)
    ensures
        ({
            let errs = catalog_store_field_errors(n.code@, n.name@);
            match r {
                Ok(_) => errs.len() == 0 && !code_exists,
                Err(e) => match e {
                    ApiError::Validation(v) => errs.len() > 0 && fields_view(v.fields@) == errs,
                    ApiError::Conflict => errs.len() == 0 && code_exists,
                    _ => false,
                },
            }
        }),
{
    let mut fields: Vec<FieldErrors> = Vec::new();
    if n.code.as_str().is_empty() {
        fields.push(FieldErrors::one("code", "field code is required"));
    }
    if n.name.as_str().is_empty() {
        fields.push(FieldErrors::one("name", "field name is required"));
    }
    proof {
        assert(fields_view(fields@) =~~= catalog_store_field_errors(n.code@, n.name@));
    }
    if fields.len() > 0 {
        return Err(ApiError::Validation(ValidationError { fields }));
    }
    if code_exists {
        return Err(ApiError::Conflict);
    }
    Ok(())
}

/// Builds the permission record for a validated creation: a fresh random
/// identifier and the normalized code and name.
pub fn create_permission(n: &NormalizedCatalogStore) -> (p: Permission)
    ensures
        p.code@ == n.code@,
        p.name@ == n.name@,
{
    Permission { id: token::random_id(), code: n.code.clone(), name: n.name.clone() }
}

/// Builds the role record for a validated creation: a fresh random
/// identifier and the normalized code and name.
pub fn create_role(n: &NormalizedCatalogStore) -> (p: Role)
    ensures
        p.code@ == n.code@,
        p.name@ == n.name@,
{
    Role { id: token::random_id(), code: n.code.clone(), name: n.name.clone() }
}

/// The failing fields of a catalog rename: the name must be present.
pub open spec fn catalog_update_field_errors(name: Seq<char>) -> Seq<(Seq<char>, Seq<Seq<char>>)> {
    if name.len() == 0 {
        seq![("name"@, seq!["field name is required"@])]
    } else {
        Seq::empty()
    }
}

/// Validates a catalog rename and returns the normalized name: trimmed,
/// lowercased and present. Only the human name may change; the code is
/// immutable once the entry is referenced.
pub fn catalog_update_check(name_raw: &String) -> (r: Result<String, ApiError>)
    ensures
        ({
            let name = text::lower_of(text::trim_of(name_raw@));
            match r {
                Ok(n) => n@ == name && name.len() != 0,
                Err(e) => match e {
                    ApiError::Validation(v) => name.len() == 0 && fields_view(v.fields@)
                        == catalog_update_field_errors(name),
                    _ => false,
                },
            }
        }),
{
    let name = text::normalize_lower(name_raw.as_str());
    if name.as_str().is_empty() {
        let mut fields: Vec<FieldErrors> = Vec::new();
        fields.push(FieldErrors::one("name", "field name is required"));
        proof {
            assert(fields_view(fields@) =~~= catalog_update_field_errors(
                text::lower_of(text::trim_of(name_raw@)),
            ));
        }
        return Err(ApiError::Validation(ValidationError { fields }));
    }
    Ok(name)
}

/// Validates a permission rename against the request payload.
pub fn permission_update_check(req: &PermissionUpdateRequest) -> (r: Result<String, ApiError>)
    ensures
        ({
            let name = text::lower_of(text::trim_of(req.name@));
            match r {
                Ok(n) => n@ == name && name.len() != 0,
                Err(e) => match e {
                    ApiError::Validation(v) => name.len() == 0 && fields_view(v.fields@)
                        == catalog_update_field_errors(name),
                    _ => false,
                },
            }
        }),
{
    catalog_update_check(&req.name)
}

/// Validates a role rename against the request payload.
pub fn role_update_check(req: &RoleUpdateRequest) -> (r: Result<String, ApiError>)
    ensures
        ({
            let name = text::lower_of(text::trim_of(req.name@));
            match r {
                Ok(n) => n@ == name && name.len() != 0,
                Err(e) => match e {
                    ApiError::Validation(v) => name.len() == 0 && fields_view(v.fields@)
                        == catalog_update_field_errors(name),
                    _ => false,
                },
            }
        }),
{
    catalog_update_check(&req.name)
}

} // verus!
