use auth_core::validate::password_content_errors;

#[test]
fn good_password_raises_nothing() {
    assert!(password_content_errors("Password1").is_empty());
    assert!(password_content_errors("aB3déf").is_empty());
}

#[test]
fn every_violated_rule_is_reported() {
    assert_eq!(
        password_content_errors(""),
        vec![
            "min length for password is 6",
            "password must have numeric value",
            "password must have alphabetic value",
            "password must have lower and upper case",
        ]
    );
    assert_eq!(
        password_content_errors("abc"),
        vec![
            "min length for password is 6",
            "password must have numeric value",
            "password must have lower and upper case",
        ]
    );
    assert_eq!(
        password_content_errors("123456"),
        vec![
            "password must have alphabetic value",
            "password must have lower and upper case",
        ]
    );
    assert_eq!(
        password_content_errors("abcdef1"),
        vec!["password must have lower and upper case"]
    );
    assert_eq!(
        password_content_errors("ABCDEF1"),
        vec!["password must have lower and upper case"]
    );
}

#[test]
fn six_characters_are_enough() {
    assert_eq!(password_content_errors("aB345"), vec!["min length for password is 6"]);
    assert!(password_content_errors("aB3456").is_empty());
}
