//! Login: credential verification and token issue.
//!
//! The boundary layer normalizes the identifier, looks the account up by
//! email or username, and hands the result in; the decision - which fields
//! fail, whether the password verifies, and what a successful login hands
//! back - is made here. A failed login reports its failing fields and
//! issues no token. The bearer credential is framed as the raw encoded
//! token text, with no scheme prefix.

use vstd::prelude::*;
use vstd::utf8::encode_utf8;
use crate::codec;
use crate::errors::{ValidationError, fields_view};
use crate::hashing;
use crate::records::{Account, UserOAS};
use crate::token::{self, Token};

verus! {

/// What a successful login hands back: the token row to persist, its opaque
/// text for the client, and the public view of the account.
pub struct LoginSuccess {
    pub token: Token,
    pub token_text: String,
    pub user: UserOAS,
}

/// The failing fields of a login attempt: the identifier must be present
/// and belong to an account, the password must be present and, when both
/// are given, must verify against the account's stored hash.
pub open spec fn login_field_errors(
    identifier: Seq<char>,
    password: Seq<char>,
    account_known: bool,
    password_ok: bool,
) -> Seq<(Seq<char>, Seq<Seq<char>>)> {
    (if identifier.len() == 0 {
        seq![("email_or_username"@, seq!["field email or username is required"@])]
    } else if !account_known {
        seq![("email_or_username"@, seq!["email or username doesn't exist"@])]
    } else {
        Seq::empty()
    }) + (if password.len() == 0 {
        seq![("password"@, seq!["password field is required"@])]
    } else if account_known && !password_ok {
        seq![("password"@, seq!["wrong password"@])]
    } else {
        Seq::empty()
    })
}

/// Validates a login attempt, given whether the identifier matched an
/// account and whether the password verified. Succeeds exactly when no
/// field fails; otherwise every failing field is reported.
pub fn login_validate(
    identifier: &String,
    password: &String,
    account_known: bool,
    password_ok: bool,
) -> (r: Result<(), ValidationError>)
    ensures
        ({
            let errs = login_field_errors(identifier@, password@, account_known, password_ok);
            match r {
                Ok(_) => errs.len() == 0,
                Err(v) => errs.len() > 0 && fields_view(v.fields@) == errs,
            }
        }),
{
    let mut fields: Vec<crate::errors::FieldErrors> = Vec::new();
    if identifier.as_str().is_empty() {
        fields.push(
            crate::errors::FieldErrors::one(
                "email_or_username",
                "field email or username is required",
            ),
        );
    } else if !account_known {
        fields.push(
            crate::errors::FieldErrors::one("email_or_username", "email or username doesn't exist"),
        );
    }
    if password.as_str().is_empty() {
        fields.push(crate::errors::FieldErrors::one("password", "password field is required"));
    } else if account_known && !password_ok {
        fields.push(crate::errors::FieldErrors::one("password", "wrong password"));
    }
    proof {
        assert(fields_view(fields@) =~~= login_field_errors(
            identifier@,
            password@,
            account_known,
            password_ok,
        ));
    }
    if fields.len() > 0 {
        Err(ValidationError { fields })
    } else {
        Ok(())
    }
}

/// Decides a login attempt against the looked-up account. On success - the
/// identifier and password are both present, the identifier matched an
/// account, and the password verifies against the stored hash - a fresh
/// token owned by that account is issued, with no expiry, together with its
/// opaque text and the account's public view. On failure the reported
/// fields are exactly `login_field_errors` of the inputs, for some
/// credential-check outcome that can only be favourable when the stored
/// hash is the derivation of this password for this account; no token
/// exists to persist.
pub fn login_flow(identifier: &String, password: &String, account: Option<&Account>) -> (r: Result<
    LoginSuccess,
    ValidationError,
>)
    ensures
        r matches Ok(s) ==> {
            &&& identifier@.len() > 0
            &&& password@.len() > 0
            &&& account matches Some(a)
            &&& hashing::matches_hash(
                a.password_hash@,
                hashing::hash_of(encode_utf8(password@), hashing::salt_of(a.id)),
            )
            &&& s.token.account_id == account.unwrap().id
            &&& s.token.expires_at is None
            &&& s.token_text@.len() == codec::TOKEN_TEXT_LEN
            &&& codec::all_token_chars(s.token_text@)
            &&& codec::token_value(s.token_text@) == s.token.id
            &&& crate::records::user_view_matches(s.user, *account.unwrap())
        },
        r matches Err(v) ==> v.fields@.len() > 0 && (exists|b: bool|
            fields_view(v.fields@) == #[trigger] login_field_errors(
                identifier@,
                password@,
                account is Some,
                b,
            ) && (b ==> (account matches Some(a) && hashing::matches_hash(
                a.password_hash@,
                hashing::hash_of(encode_utf8(password@), hashing::salt_of(a.id)),
            )))),
{
    let password_ok = match account {
        None => false,
        Some(a) => hashing::verify(&a.password_hash, a.id, password.as_str()),
    };
    let known = match account {
        None => false,
        Some(_) => true,
    };
    match login_validate(identifier, password, known, password_ok) {
        Err(v) => {
            proof {
                let errs = login_field_errors(identifier@, password@, known, password_ok);
                assert(fields_view(v.fields@).len() == errs.len());
                assert(fields_view(v.fields@) == login_field_errors(
                    identifier@,
                    password@,
                    account is Some,
                    password_ok,
                ));
            }
            Err(v)
        },
        Ok(_) => {
            let a = match account {
                Some(a) => a,
                None => {
                    proof {
                        assert(login_field_errors(identifier@, password@, known, password_ok).len()
                            > 0);
                    }
                    unreached()
                },
            };
            let t = token::issue(a.id, None);
            let text = t.text();
            Ok(LoginSuccess { token: t, token_text: text, user: UserOAS::of_account(a) })
        },
    }
}

} // verus!
