//! The data model: accounts, the permission and role catalogs, and the
//! public views handed back to clients.

use vstd::prelude::*;

verus! {

/// A user identity record with credentials and profile fields. Identifiers
/// are 128-bit values, timestamps are microseconds since the Unix epoch.
/// Accounts are soft-deleted: `deleted_at` is set rather than the row
/// removed.
#[derive(Clone)]
pub struct Account {
    pub id: u128,
    pub name: String,
    pub email: String,
    pub username: String,
    pub email_verified_at: Option<i64>,
    pub password_hash: Vec<u8>,
    pub profile_photo_id: Option<String>,
    pub created_at: i64,
    pub updated_at: i64,
    pub deleted_at: Option<i64>,
}

/// An entry of the permission catalog: a unique machine code and a human
/// name.
#[derive(Clone)]
pub struct Permission {
    pub id: u128,
    pub code: String,
    pub name: String,
}

/// An entry of the role catalog: a unique machine code and a human name.
#[derive(Clone)]
pub struct Role {
    pub id: u128,
    pub code: String,
    pub name: String,
}

/// The public view of an account: everything a client may see, and nothing
/// secret - in particular not the password hash.
#[derive(Clone)]
pub struct UserOAS {
    pub id: u128,
    pub name: String,
    pub email: String,
    pub username: String,
    pub email_verified_at: Option<i64>,
    pub profile_photo_id: Option<String>,
}

/// The public view of a permission.
#[derive(Clone)]
pub struct PermissionOAS {
    pub id: u128,
    pub code: String,
    pub name: String,
}

/// The public view of a role.
#[derive(Clone)]
pub struct RoleOAS {
    pub id: u128,
    pub code: String,
    pub name: String,
}

/// Whether `v` is exactly the public view of `a`: every visible field
/// equal, field by field.
pub open spec fn user_view_matches(v: UserOAS, a: Account) -> bool {
    &&& v.id == a.id
    &&& v.name@ == a.name@
    &&& v.email@ == a.email@
    &&& v.username@ == a.username@
    &&& v.email_verified_at == a.email_verified_at
    &&& v.profile_photo_id == a.profile_photo_id
}

impl UserOAS {
    /// The public view of `account`: the same identity and profile fields,
    /// with the credential fields left out.
    pub fn of_account(account: &Account) -> (r: UserOAS)
        ensures
            user_view_matches(r, *account),
    {
        UserOAS {
            id: account.id,
            name: account.name.clone(),
            email: account.email.clone(),
            username: account.username.clone(),
            email_verified_at: account.email_verified_at,
            profile_photo_id: account.profile_photo_id.clone(),
        }
    }
}

impl PermissionOAS {
    /// The public view of a permission: the record itself.
    pub fn of_permission(p: &Permission) -> (r: PermissionOAS)
        ensures
            r.id == p.id,
            r.code@ == p.code@,
            r.name@ == p.name@,
    {
        PermissionOAS { id: p.id, code: p.code.clone(), name: p.name.clone() }
    }
}

impl RoleOAS {
    /// The public view of a role: the record itself.
    pub fn of_role(p: &Role) -> (r: RoleOAS)
        ensures
            r.id == p.id,
            r.code@ == p.code@,
            r.name@ == p.name@,
    {
        RoleOAS { id: p.id, code: p.code.clone(), name: p.name.clone() }
    }
}

} // verus!
