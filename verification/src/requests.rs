//! The request payloads of the service, as plain data. The boundary layer
//! deserializes into copies of these and hands them over unchanged.

use vstd::prelude::*;

verus! {

/// Login input: an email address or a username, and the password.
pub struct Login {
    pub email_or_username: String,
    pub password: String,
}

/// Self-registration input.
pub struct Register {
    pub name: String,
    pub email: String,
    pub username: String,
    pub password: String,
    pub password_confirmation: String,
}

/// Column the user listing may be ordered by.
#[derive(Clone, Copy, Debug, PartialEq, Eq, Structural)]
pub enum UserOrderByColumn {
    Name,
    Username,
    Email,
}

/// Input for creating a user.
pub struct UserStoreRequest {
    pub name: String,
    pub email: String,
    pub username: String,
    pub password: String,
}

/// Input for updating a user's profile fields.
pub struct UserUpdateGeneralInformationRequest {
    pub name: String,
    pub email: String,
    pub username: String,
    pub profile_photo_id: Option<String>,
}

/// Input for changing a user's password.
pub struct UserUpdatePasswordRequest {
    pub current_password: String,
    pub new_password: String,
    pub password_confirmation: String,
}

/// Column the permission listing may be ordered by.
#[derive(Clone, Copy, Debug, PartialEq, Eq, Structural)]
pub enum PermissionOrderByColumn {
    Code,
    Name,
}

/// Input for creating a permission.
pub struct PermissionStoreRequest {
    pub code: String,
    pub name: String,
}

/// Input for renaming a permission.
pub struct PermissionUpdateRequest {
    pub name: String,
}

/// Input for replacing an account's permission set: the complete desired
/// list of permission identifiers.
pub struct PermissionBulkRequest {
    pub permissions: Vec<u128>,
}

/// Column the role listing may be ordered by.
#[derive(Clone, Copy, Debug, PartialEq, Eq, Structural)]
pub enum RoleOrderByColumn {
    Code,
    Name,
}

/// Input for creating a role.
pub struct RoleStoreRequest {
    pub code: String,
    pub name: String,
}

/// Input for renaming a role.
pub struct RoleUpdateRequest {
    pub name: String,
}

/// Input for replacing an account's role set: the complete desired list of
/// role identifiers.
pub struct RoleBulkRequest {
    pub roles: Vec<u128>,
}

} // verus!
