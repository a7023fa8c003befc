//! Account management: creation, profile update and password change. Each
//! operation validates its whole input first, gathering every failing field
//! before anything is written, and only then produces the record to store.
//! The boundary layer performs the lookups (does the email or username
//! already belong to someone else?) on the normalized values and hands the
//! answers in as plain booleans.

use vstd::prelude::*;
use vstd::utf8::encode_utf8;
use crate::errors::{ApiError, FieldErrors, ValidationError, fields_view};
use crate::hashing;
use crate::records::Account;
use crate::requests::{UserStoreRequest, UserUpdateGeneralInformationRequest,
    UserUpdatePasswordRequest};
use crate::text;
use crate::token;
use crate::validate;

verus! {

/// A creation request with every field in its normal form: name, email and
/// username trimmed and lowercased, the password trimmed.
pub struct NormalizedUserStore {
    pub name: String,
    pub email: String,
    pub username: String,
    pub password: String,
}

/// A profile update with name, email and username in their normal form.
pub struct NormalizedUserUpdate {
    pub name: String,
    pub email: String,
    pub username: String,
    pub profile_photo_id: Option<String>,
}

/// Normalizes a creation request: trims and lowercases the identity fields,
/// trims the password.
pub fn normalize_store_request(req: &UserStoreRequest) -> (n: NormalizedUserStore)
    ensures
        n.name@ == text::lower_of(text::trim_of(req.name@)),
        n.email@ == text::lower_of(text::trim_of(req.email@)),
        n.username@ == text::lower_of(text::trim_of(req.username@)),
        n.password@ == text::trim_of(req.password@),
{
    NormalizedUserStore {
        name: text::normalize_lower(req.name.as_str()),
        email: text::normalize_lower(req.email.as_str()),
        username: text::normalize_lower(req.username.as_str()),
        password: crate::text::trim_owned(req.password.as_str()),
    }
}

/// Normalizes a profile update: trims and lowercases the identity fields
/// and passes the profile photo reference through.
pub fn normalize_update_request(req: &UserUpdateGeneralInformationRequest) -> (n:
    NormalizedUserUpdate)
    ensures
        n.name@ == text::lower_of(text::trim_of(req.name@)),
        n.email@ == text::lower_of(text::trim_of(req.email@)),
        n.username@ == text::lower_of(text::trim_of(req.username@)),
        n.profile_photo_id == req.profile_photo_id,
{
    NormalizedUserUpdate {
        name: text::normalize_lower(req.name.as_str()),
        email: text::normalize_lower(req.email.as_str()),
        username: text::normalize_lower(req.username.as_str()),
        profile_photo_id: match &req.profile_photo_id {
            None => None,
            Some(p) => Some(p.clone()),
        },
    }
}

/// The failing fields of the shared identity part of a request: name, email
/// and username must be present, and email and username must not belong to
/// someone else.
pub open spec fn identity_field_errors(
    name: Seq<char>,
    email: Seq<char>,
    email_taken: bool,
    username: Seq<char>,
    username_taken: bool,
) -> Seq<(Seq<char>, Seq<Seq<char>>)> {
    (if name.len() == 0 {
        seq![("name"@, seq!["field name is required"@])]
    } else {
        Seq::empty()
    }) + (if email.len() == 0 {
        seq![("email"@, seq!["field email is required"@])]
    } else if email_taken {
        seq![("email"@, seq!["email already used"@])]
    } else {
        Seq::empty()
    }) + (if username.len() == 0 {
        seq![("username"@, seq!["field username is required"@])]
    } else if username_taken {
        seq![("username"@, seq!["username already used"@])]
    } else {
        Seq::empty()
    })
}

/// The failing fields of a creation request: the identity fields, then the
/// password, which must be present and pass every content rule.
pub open spec fn store_user_field_errors(
    name: Seq<char>,
    email: Seq<char>,
    email_taken: bool,
    username: Seq<char>,
    username_taken: bool,
    password: Seq<char>,
) -> Seq<(Seq<char>, Seq<Seq<char>>)> {
    identity_field_errors(name, email, email_taken, username, username_taken) + (if password.len()
        == 0 {
        seq![("password"@, seq!["field password is required"@])]
    } else if validate::password_content_msgs(password).len() > 0 {
        seq![("password"@, validate::password_content_msgs(password))]
    } else {
        Seq::empty()
    })
}

fn identity_errors_exec(
    name: &String,
    email: &String,
    email_taken: bool,
    username: &String,
    username_taken: bool,
) -> (fields: Vec<FieldErrors>)
    ensures
        fields_view(fields@) == identity_field_errors(
            name@,
            email@,
            email_taken,
            username@,
            username_taken,
        ),
{
    let mut fields: Vec<FieldErrors> = Vec::new();
    if name.as_str().is_empty() {
        fields.push(FieldErrors::one("name", "field name is required"));
    }
    if email.as_str().is_empty() {
        fields.push(FieldErrors::one("email", "field email is required"));
    } else if email_taken {
        fields.push(FieldErrors::one("email", "email already used"));
    }
    if username.as_str().is_empty() {
        fields.push(FieldErrors::one("username", "field username is required"));
    } else if username_taken {
        fields.push(FieldErrors::one("username", "username already used"));
    }
    proof {
        assert(fields_view(fields@) =~~= identity_field_errors(
            name@,
            email@,
            email_taken,
            username@,
            username_taken,
        ));
    }
    fields
}

/// Validates a normalized creation request against the availability
/// answers. Succeeds exactly when no field fails; otherwise every failing
/// field is reported, in field order.
pub fn store_user_check(n: &NormalizedUserStore, email_taken: bool, username_taken: bool) -> (r:
    Result<(), ValidationError>)
    ensures
        ({
            let errs = store_user_field_errors(
                n.name@,
                n.email@,
                email_taken,
                n.username@,
                username_taken,
                n.password@,
            );
            match r {
                Ok(_) => errs.len() == 0,
                Err(v) => errs.len() > 0 && fields_view(v.fields@) == errs,
            }
        }),
{
    let mut fields = identity_errors_exec(
        &n.name,
        &n.email,
        email_taken,
        &n.username,
        username_taken,
    );
    if n.password.as_str().is_empty() {
        fields.push(FieldErrors::one("password", "field password is required"));
    } else {
        let content = validate::password_content_errors(n.password.as_str());
        if content.len() > 0 {
            fields.push(FieldErrors { field: "password".to_owned(), messages: content });
        }
    }
    proof {
        assert(fields_view(fields@) =~~= store_user_field_errors(
            n.name@,
            n.email@,
            email_taken,
            n.username@,
            username_taken,
            n.password@,
        ));
    }
    if fields.len() > 0 {
        Err(ValidationError { fields })
    } else {
        Ok(())
    }
}

/// Builds the account record for a validated creation request: a fresh
/// random identifier, the normalized fields, the password hash bound to the
/// new identifier, both timestamps set to `now`, and no verification,
/// profile photo or deletion mark. Returns `None` only when the hash
/// derivation fails: always for a password longer than the derivation
/// accepts, else only when its working memory cannot be allocated.
pub fn create_account(n: &NormalizedUserStore, now: i64) -> (r: Option<Account>)
    ensures
        encode_utf8(n.password@).len() > hashing::MAX_PASSWORD_BYTES ==> r is None,
        r matches Some(a) ==> {
            &&& a.name@ == n.name@
            &&& a.email@ == n.email@
            &&& a.username@ == n.username@
            &&& a.password_hash@ == hashing::hash_of(
                encode_utf8(n.password@),
                hashing::salt_of(a.id),
            )
            &&& a.email_verified_at is None
            &&& a.profile_photo_id is None
            &&& a.created_at == now
            &&& a.updated_at == now
            &&& a.deleted_at is None
        },
{
    let id = token::random_id();
    match hashing::make(id, n.password.as_str()) {
        None => None,
        Some(h) => Some(
            Account {
                id,
                name: n.name.clone(),
                email: n.email.clone(),
                username: n.username.clone(),
                email_verified_at: None,
                password_hash: h,
                profile_photo_id: None,
                created_at: now,
                updated_at: now,
                deleted_at: None,
            },
        ),
    }
}

/// Validates a profile update: the referenced account must exist, and the
/// identity fields must pass the same rules as at creation. Succeeds
/// exactly when the account exists and no field fails.
pub fn update_user_check(
    account_found: bool,
    n: &NormalizedUserUpdate,
    email_taken: bool,
    username_taken: bool,
) -> (r: Result<(), ApiError>)
    ensures
        ({
            let errs = identity_field_errors(
                n.name@,
                n.email@,
                email_taken,
                n.username@,
                username_taken,
            );
            match r {
                Ok(_) => account_found && errs.len() == 0,
                Err(e) => match e {
                    ApiError::NotFound => !account_found,
                    ApiError::Validation(v) => account_found && errs.len() > 0 && fields_view(
                        v.fields@,
                    ) == errs,
                    _ => false,
                },
            }
        }),
{
    if !account_found {
        return Err(ApiError::NotFound);
    }
    let fields = identity_errors_exec(&n.name, &n.email, email_taken, &n.username, username_taken);
    if fields.len() > 0 {
        Err(ApiError::Validation(ValidationError { fields }))
    } else {
        Ok(())
    }
}

/// Applies a validated profile update to the stored record: the identity
/// fields and the profile photo are replaced, the update timestamp is set
/// to `now`, and everything else - identifier, credentials, verification
/// and deletion marks - is kept.
pub fn apply_general_update(account: &Account, n: &NormalizedUserUpdate, now: i64) -> (updated:
    Account)
    ensures
        updated.id == account.id,
        updated.name@ == n.name@,
        updated.email@ == n.email@,
        updated.username@ == n.username@,
        updated.profile_photo_id == n.profile_photo_id,
        updated.email_verified_at == account.email_verified_at,
        updated.password_hash@ == account.password_hash@,
        updated.created_at == account.created_at,
        updated.updated_at == now,
        updated.deleted_at == account.deleted_at,
{
    Account {
        id: account.id,
        name: n.name.clone(),
        email: n.email.clone(),
        username: n.username.clone(),
        email_verified_at: account.email_verified_at,
        password_hash: account.password_hash.clone(),
        profile_photo_id: match &n.profile_photo_id {
            None => None,
            Some(p) => Some(p.clone()),
        },
        created_at: account.created_at,
        updated_at: now,
        deleted_at: account.deleted_at,
    }
}

/// Marks an account deleted: the soft-delete timestamp is set to `now` and
/// every other field is kept, the update timestamp included - soft deletion
/// writes the deletion mark and nothing else.
pub fn apply_soft_delete(account: &Account, now: i64) -> (updated: Account)
    ensures
        updated.id == account.id,
        updated.name@ == account.name@,
        updated.email@ == account.email@,
        updated.username@ == account.username@,
        updated.profile_photo_id == account.profile_photo_id,
        updated.email_verified_at == account.email_verified_at,
        updated.password_hash@ == account.password_hash@,
        updated.created_at == account.created_at,
        updated.updated_at == account.updated_at,
        updated.deleted_at == Some(now),
{
    Account {
        id: account.id,
        name: account.name.clone(),
        email: account.email.clone(),
        username: account.username.clone(),
        email_verified_at: account.email_verified_at,
        password_hash: account.password_hash.clone(),
        profile_photo_id: match &account.profile_photo_id {
            None => None,
            Some(p) => Some(p.clone()),
        },
        created_at: account.created_at,
        updated_at: account.updated_at,
        deleted_at: Some(now),
    }
}

/// The failing fields of a password change: each of the three inputs must
/// be present and pass the content rules; the new password must differ from
/// the current one; the confirmation must repeat the new password.
pub open spec fn update_password_field_errors(
    current: Seq<char>,
    new: Seq<char>,
    confirmation: Seq<char>,
) -> Seq<(Seq<char>, Seq<Seq<char>>)> {
    (if current.len() == 0 {
        seq![("current"@, seq!["field current password is required"@])]
    } else if validate::password_content_msgs(current).len() > 0 {
        seq![("currentPassword"@, validate::password_content_msgs(current))]
    } else {
        Seq::empty()
    }) + (if new.len() == 0 {
        seq![("new"@, seq!["field new password is required"@])]
    } else {
        let msgs = validate::password_content_msgs(new) + (if current == new {
            seq!["can't update new password with old password"@]
        } else {
            Seq::empty()
        });
        if msgs.len() > 0 {
            seq![("newPassword"@, msgs)]
        } else {
            Seq::empty()
        }
    }) + (if confirmation.len() == 0 {
        seq![("confirmation"@, seq!["field password confirmation is required"@])]
    } else {
        let msgs = validate::password_content_msgs(confirmation) + (if confirmation != new {
            seq!["password confirmation doesn't match with new password"@]
        } else {
            Seq::empty()
        });
        if msgs.len() > 0 {
            seq![("passwordConfirmation"@, msgs)]
        } else {
            Seq::empty()
        }
    })
}

/// Validates a password change and derives the new hash. The referenced
/// account must exist, the three inputs must pass their rules, and the
/// current password must verify against the stored hash; only then is the
/// hash of the new password, bound to the same account, returned. A wrong
/// current password is reported as a validation failure on that field, as
/// at login; a failed derivation of the new hash - possible only after the
/// current password has matched - surfaces as an internal error.
#[verifier::rlimit(60)]
pub fn update_password_check(account: Option<&Account>, req: &UserUpdatePasswordRequest) -> (r:
    Result<Vec<u8>, ApiError>)
    ensures
        ({
            let errs = update_password_field_errors(
                req.current_password@,
                req.new_password@,
                req.password_confirmation@,
            );
            match r {
                Ok(h) => account matches Some(a) && errs.len() == 0 && hashing::matches_hash(
                    a.password_hash@,
                    hashing::hash_of(
                        encode_utf8(req.current_password@),
                        hashing::salt_of(a.id),
                    ),
                ) && h@ == hashing::hash_of(
                    encode_utf8(req.new_password@),
                    hashing::salt_of(a.id),
                ),
                Err(e) => match e {
                    ApiError::NotFound => account is None,
                    ApiError::Validation(v) => account is Some && (if errs.len() > 0 {
                        fields_view(v.fields@) == errs
                    } else {
                        fields_view(v.fields@) == seq![
                            ("currentPassword"@, seq!["wrong password"@]),
                        ]
                    }),
                    ApiError::Internal => account matches Some(a) && errs.len() == 0
                        && hashing::matches_hash(
                        a.password_hash@,
                        hashing::hash_of(
                            encode_utf8(req.current_password@),
                            hashing::salt_of(a.id),
                        ),
                    ),
                    _ => false,
                },
            }
        }),
{
    let account = match account {
        None => {
            return Err(ApiError::NotFound);
        },
        Some(a) => a,
    };
    let mut fields: Vec<FieldErrors> = Vec::new();
    if req.current_password.as_str().is_empty() {
        fields.push(FieldErrors::one("current", "field current password is required"));
    } else {
        let content = validate::password_content_errors(req.current_password.as_str());
        if content.len() > 0 {
            fields.push(FieldErrors { field: "currentPassword".to_owned(), messages: content });
        }
    }
    if req.new_password.as_str().is_empty() {
        fields.push(FieldErrors::one("new", "field new password is required"));
    } else {
        let mut content = validate::password_content_errors(req.new_password.as_str());
        if req.current_password == req.new_password {
            content.push("can't update new password with old password".to_owned());
        }
        if content.len() > 0 {
            fields.push(FieldErrors { field: "newPassword".to_owned(), messages: content });
        }
    }
    if req.password_confirmation.as_str().is_empty() {
        fields.push(FieldErrors::one("confirmation", "field password confirmation is required"));
    } else {
        let mut content = validate::password_content_errors(req.password_confirmation.as_str());
        if !(req.password_confirmation == req.new_password) {
            content.push("password confirmation doesn't match with new password".to_owned());
        }
        if content.len() > 0 {
            fields.push(
                FieldErrors { field: "passwordConfirmation".to_owned(), messages: content },
            );
        }
    }
    proof {
        assert(fields_view(fields@) =~~= update_password_field_errors(
            req.current_password@,
            req.new_password@,
            req.password_confirmation@,
        ));
    }
    if fields.len() > 0 {
        return Err(ApiError::Validation(ValidationError { fields }));
    }
    if !hashing::verify(&account.password_hash, account.id, req.current_password.as_str()) {
        let mut wrong: Vec<FieldErrors> = Vec::new();
        wrong.push(FieldErrors::one("currentPassword", "wrong password"));
        proof {
            assert(fields_view(wrong@) =~~= seq![("currentPassword"@, seq!["wrong password"@])]);
        }
        return Err(ApiError::Validation(ValidationError { fields: wrong }));
    }
    match hashing::make(account.id, req.new_password.as_str()) {
        None => Err(ApiError::Internal),
        Some(h) => Ok(h),
    }
}

} // verus!
