use auth_service::domain::{Email, LoginAttemptId, Password, TwoFACode};

#[test]
fn email_parse_accepts_address_with_at_sign() {
    let email = Email::parse("joebiden@whitehouse.gov").expect("valid address");
    assert_eq!(email.as_str(), "joebiden@whitehouse.gov");
}

#[test]
fn email_parse_rejects_missing_at_sign() {
    assert!(Email::parse("joebidenwhitehouse.gov").is_err());
}

#[test]
fn email_parse_rejects_short_address() {
    assert!(Email::parse("a@b.co").is_err());
    assert!(Email::parse("notvalid").is_err());
    assert!(Email::parse("ab@c.com").is_ok());
    assert!(Email::parse("a@c.com").is_err());
}

#[test]
fn password_parse_checks_length() {
    assert!(Password::parse("passw").is_err());
    assert!(Password::parse("passwo").is_err());
    assert!(Password::parse("passwor").is_err());
    let p = Password::parse("password").expect("eight characters");
    assert_eq!(p.as_str(), "password");
    assert!(Password::parse("password123").is_ok());
}

#[test]
fn two_fa_code_parse_checks_length_only() {
    assert!(TwoFACode::parse("123456".to_owned()).is_ok());
    assert!(TwoFACode::parse("12345".to_owned()).is_err());
    assert!(TwoFACode::parse("1234567".to_owned()).is_err());
    assert!(TwoFACode::parse("abcdef".to_owned()).is_ok());
}

#[test]
fn login_attempt_id_parse_accepts_uuid_forms() {
    let hyphenated = "550e8400-e29b-41d4-a716-446655440000";
    assert_eq!(
        LoginAttemptId::parse(hyphenated.to_owned()).unwrap().as_str(),
        hyphenated
    );
    assert!(LoginAttemptId::parse("550E8400-E29B-41D4-A716-446655440000".to_owned()).is_ok());
    assert!(LoginAttemptId::parse("550e8400e29b41d4a716446655440000".to_owned()).is_ok());
    assert!(LoginAttemptId::parse("{550e8400-e29b-41d4-a716-446655440000}".to_owned()).is_ok());
    assert!(
        LoginAttemptId::parse("URN:uuid:550e8400-e29b-41d4-a716-446655440000".to_owned()).is_ok()
    );
}

#[test]
fn login_attempt_id_parse_rejects_other_text() {
    assert!(LoginAttemptId::parse("invalid".to_owned()).is_err());
    assert!(LoginAttemptId::parse("550e8400-e29b-41d4-a716-44665544000g".to_owned()).is_err());
    assert!(LoginAttemptId::parse("550e8400+e29b-41d4-a716-446655440000".to_owned()).is_err());
    assert!(LoginAttemptId::parse(String::new()).is_err());
}

#[test]
fn generated_code_is_six_digits() {
    for _ in 0..20 {
        let code = TwoFACode::generate();
        assert_eq!(code.as_str().len(), 6);
        assert!(code.as_str().chars().all(|c| c.is_ascii_digit()));
        assert!(TwoFACode::parse(code.0.clone()).is_ok());
    }
    let d = TwoFACode::default();
    assert_eq!(d.0.len(), 6);
}

#[test]
fn generated_login_attempt_id_is_lowercase_uuid() {
    let id = LoginAttemptId::generate();
    assert_eq!(id.as_str().len(), 36);
    assert!(id.as_str().chars().all(|c| c == '-' || c.is_ascii_digit() || ('a'..='f').contains(&c)));
    assert!(LoginAttemptId::parse(id.0.clone()).is_ok());
    assert_ne!(LoginAttemptId::default(), LoginAttemptId::default());
}

#[test]
fn duplicates_are_equal() {
    let e = Email::parse("joebiden@whitehouse.gov").unwrap();
    assert_eq!(e.duplicate(), e);
    let p = Password::parse("password123").unwrap();
    assert_eq!(p.duplicate(), p);
    let c = TwoFACode("123456".to_owned());
    assert_eq!(c.duplicate(), c);
}

#[test]
fn parse_errors_carry_their_messages() {
    assert_eq!(
        Email::parse("notvalid").unwrap_err(),
        "Invalid Email Address: notvalid"
    );
    assert_eq!(Password::parse("passw").unwrap_err(), "Invalid Password");
    assert_eq!(TwoFACode::parse("12345".to_owned()).unwrap_err(), "Invalid 2FA Code");
    assert_eq!(LoginAttemptId::parse("invalid".to_owned()).unwrap_err(), "Not a valid uuid");
}

#[test]
fn lengths_are_counted_in_bytes() {
    assert!(Password::parse("\u{e9}\u{e9}\u{e9}\u{e9}").is_ok());
    assert!(Password::parse("\u{e9}\u{e9}\u{e9}").is_err());
    assert!(Email::parse("\u{e9}@b.cde").is_ok());
    assert!(TwoFACode::parse("\u{e9}\u{e9}\u{e9}".to_owned()).is_ok());
    assert!(TwoFACode::parse("\u{e9}1234".to_owned()).is_ok());
    assert!(TwoFACode::parse("\u{e9}12345".to_owned()).is_err());
}

#[test]
fn from_digits_writes_the_digits_in_order() {
    assert_eq!(TwoFACode::from_digits(&vec![0, 1, 2, 7, 8, 9]).as_str(), "012789");
    assert_eq!(TwoFACode::from_digits(&vec![0, 0, 0, 0, 0, 0]).as_str(), "000000");
}
