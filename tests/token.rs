use auth_service::domain::Email;
use auth_service::stores::{BannedTokenStore, HashsetBannedTokenStore};
use auth_service::token::{TokenError, TokenService};

const ISSUED_TOKEN: &str = "1700000600.joebiden@whitehouse.gov.afd60794bf9ca2cf7c88f60088b9f66fbd8eb2c96858a0319f241c40bfbeecf9";

fn service() -> TokenService {
    TokenService::new("secret-key".to_owned(), 600)
}

fn email() -> Email {
    Email::parse("joebiden@whitehouse.gov").unwrap()
}

#[test]
fn issue_writes_expiry_subject_and_signature() {
    let token = service().issue(&email(), 1_700_000_000);
    assert_eq!(token, ISSUED_TOKEN);
}

#[test]
fn issued_token_validates_before_expiry() {
    let banned = HashsetBannedTokenStore::new();
    let token = service().issue(&email(), 1_700_000_000);
    let claims = service().validate(&token, &banned, 1_700_000_000).expect("valid token");
    assert_eq!(claims.sub, "joebiden@whitehouse.gov");
    assert_eq!(claims.exp, 1_700_000_600);
    assert!(service().validate(&token, &banned, 1_700_000_599).is_ok());
}

#[test]
fn token_expires_at_its_expiry() {
    let banned = HashsetBannedTokenStore::new();
    let token = service().issue(&email(), 1_700_000_000);
    assert_eq!(
        service().validate(&token, &banned, 1_700_000_600).unwrap_err(),
        TokenError::Expired
    );
}

#[test]
fn revoked_token_is_refused() {
    let mut banned = HashsetBannedTokenStore::new();
    let token = service().issue(&email(), 1_700_000_000);
    banned.add_token(token.clone()).unwrap();
    assert_eq!(
        service().validate(&token, &banned, 1_700_000_000).unwrap_err(),
        TokenError::Revoked
    );
}

#[test]
fn signature_is_checked_before_expiry_and_revocation() {
    let mut banned = HashsetBannedTokenStore::new();
    let other = TokenService::new("another-key".to_owned(), 600);
    let token = other.issue(&email(), 1_700_000_000);
    banned.add_token(token.clone()).unwrap();
    assert_eq!(
        service().validate(&token, &banned, 1_800_000_000).unwrap_err(),
        TokenError::InvalidSignature
    );
}

#[test]
fn altered_token_is_refused() {
    let banned = HashsetBannedTokenStore::new();
    let altered = ISSUED_TOKEN.replacen("1700000600", "1800000600", 1);
    assert_eq!(
        service().validate(&altered, &banned, 1_700_000_000).unwrap_err(),
        TokenError::InvalidSignature
    );
    let other_subject = ISSUED_TOKEN.replacen("joebiden", "joebidem", 1);
    assert_eq!(
        service().validate(&other_subject, &banned, 1_700_000_000).unwrap_err(),
        TokenError::InvalidSignature
    );
}

#[test]
fn malformed_tokens_are_refused() {
    let banned = HashsetBannedTokenStore::new();
    for raw in [
        "",
        "invalid",
        "123",
        "123.",
        ".abc.def",
        "12a.b.c",
        "99999999999999999999.joebiden@whitehouse.gov.00",
    ] {
        assert_eq!(
            service().validate(raw, &banned, 0).unwrap_err(),
            TokenError::InvalidSignature,
            "{}",
            raw
        );
    }
}

#[test]
fn subject_may_hold_dots() {
    let banned = HashsetBannedTokenStore::new();
    let e = Email::parse("first.last@mail.example.org").unwrap();
    let token = service().issue(&e, 5);
    assert_eq!(service().validate(&token, &banned, 6).unwrap().sub, "first.last@mail.example.org");
}
