use auth_service::auth::{
    login, logout, signup, verify_2fa, verify_token, LoginOutcome, LoginResponse, SignupResponse,
};
use auth_service::domain::{AuthAPIError, Email, LoginAttemptId, TwoFACode};
use auth_service::stores::{
    BannedTokenStore, HashmapTwoFACodeStore, HashmapUserStore, HashsetBannedTokenStore,
    TwoFACodeStore,
};
use auth_service::token::{TokenError, TokenService};

const NOW: u64 = 1_700_000_000;

struct App {
    users: HashmapUserStore,
    codes: HashmapTwoFACodeStore,
    banned: HashsetBannedTokenStore,
    tokens: TokenService,
}

impl App {
    fn new() -> App {
        App {
            users: HashmapUserStore::new(),
            codes: HashmapTwoFACodeStore::new(),
            banned: HashsetBannedTokenStore::new(),
            tokens: TokenService::new("test-secret".to_owned(), 600),
        }
    }

    fn signup(&mut self, email: &str, password: &str, requires_2fa: bool) -> Result<(), AuthAPIError> {
        signup(&mut self.users, email, password, requires_2fa)
    }

    fn login(&mut self, email: &str, password: &str) -> Result<LoginOutcome, AuthAPIError> {
        login(
            &self.users,
            &mut self.codes,
            &self.tokens,
            email,
            password,
            LoginAttemptId::generate(),
            TwoFACode::generate(),
            NOW,
        )
    }

    fn verify(&mut self, email: &str, id: &str, code: &str) -> Result<String, AuthAPIError> {
        verify_2fa(&mut self.codes, &self.tokens, email, id.to_owned(), code.to_owned(), NOW)
    }

    fn logout(&mut self, token: Option<&str>) -> Result<(), AuthAPIError> {
        logout(&mut self.banned, &self.tokens, token, NOW)
    }
}

fn challenge(outcome: LoginOutcome) -> (LoginAttemptId, TwoFACode) {
    match outcome {
        LoginOutcome::ChallengeIssued(id, code) => (id, code),
        LoginOutcome::Authenticated(_) => panic!("expected a challenge"),
    }
}

fn session(outcome: LoginOutcome) -> String {
    match outcome {
        LoginOutcome::Authenticated(token) => token,
        LoginOutcome::ChallengeIssued(..) => panic!("expected a session token"),
    }
}

fn other_code(code: &TwoFACode) -> String {
    if code.as_str() == "000000" {
        "111111".to_owned()
    } else {
        "000000".to_owned()
    }
}

#[test]
fn should_return_201_if_valid_input() {
    let mut app = App::new();
    assert_eq!(app.signup("joebiden@whitehouse.gov", "password123", true), Ok(()));
    assert_eq!(SignupResponse::created().message, "User created successfully!");
}

#[test]
fn signup_should_return_400_if_invalid_input() {
    let mut app = App::new();
    for (email, password) in [
        ("joebidenwhitehouse.gov", "password123"),
        ("", "password123"),
        ("joebiden@whitehouse.gov", "passw"),
        ("", ""),
        ("joebidenwhitehouse.gov", "passwo"),
    ] {
        assert_eq!(app.signup(email, password, true), Err(AuthAPIError::InvalidCredentials));
    }
}

#[test]
fn should_return_409_if_email_already_exists() {
    let mut app = App::new();
    assert_eq!(app.signup("blanketjackson@neverland.com", "password123", true), Ok(()));
    assert_eq!(
        app.signup("blanketjackson@neverland.com", "password123", true),
        Err(AuthAPIError::UserAlreadyExists)
    );
}

#[test]
fn login_should_return_400_if_invalid_input() {
    let mut app = App::new();
    assert_eq!(app.login("p", "p").unwrap_err(), AuthAPIError::InvalidCredentials);
}

#[test]
fn login_of_unknown_account_is_invalid_credentials() {
    let mut app = App::new();
    assert_eq!(
        app.login("joebiden@whitehouse.gov", "password123").unwrap_err(),
        AuthAPIError::InvalidCredentials
    );
}

#[test]
fn login_should_return_401_if_incorrect_credentials() {
    let mut app = App::new();
    app.signup("joebiden@whitehouse.gov", "password123", true).unwrap();
    assert_eq!(
        app.login("joebiden@whitehouse.gov", "password1234").unwrap_err(),
        AuthAPIError::IncorrectCredentials
    );
}

#[test]
fn should_return_200_if_valid_credentials_and_2fa_disabled() {
    let mut app = App::new();
    app.signup("joebiden@whitehouse.gov", "password123", false).unwrap();
    let outcome = app.login("joebiden@whitehouse.gov", "password123").unwrap();
    assert!(matches!(outcome.response(), LoginResponse::RegularAuth));
    let token = session(outcome);
    assert!(!token.is_empty());
}

#[test]
fn should_return_206_if_valid_credentials_and_2fa_enabled() {
    let mut app = App::new();
    app.signup("joebiden@whitehouse.gov", "password123", true).unwrap();
    let outcome = app.login("joebiden@whitehouse.gov", "password123").unwrap();
    let body = match outcome.response() {
        LoginResponse::TwoFactorAuth(body) => body,
        LoginResponse::RegularAuth => panic!("expected a challenge"),
    };
    assert_eq!(body.message, "2FA required");
    let email = Email::parse("joebiden@whitehouse.gov").expect("Invalid Email");
    let stored = app.codes.get_code(&email).expect("Failed to get code");
    assert_eq!(body.login_attempt_id, stored.0 .0);
}

#[test]
fn scenario_direct_login_gives_valid_session() {
    let mut app = App::new();
    assert_eq!(app.signup("a@b.co", "password1", false), Err(AuthAPIError::InvalidCredentials));
    app.signup("alice@b.co", "password1", false).unwrap();
    let token = session(app.login("alice@b.co", "password1").unwrap());
    assert_eq!(verify_token(&app.banned, &app.tokens, &token, NOW), Ok(()));
    let claims = app.tokens.validate(&token, &app.banned, NOW).unwrap();
    assert_eq!(claims.sub, "alice@b.co");
}

#[test]
fn scenario_two_factor_login_gives_challenge() {
    let mut app = App::new();
    app.signup("alice@b.co", "password1", true).unwrap();
    let (id, _) = challenge(app.login("alice@b.co", "password1").unwrap());
    let stored = app.codes.get_code(&Email::parse("alice@b.co").unwrap()).unwrap();
    assert_eq!(stored.0, id);
    assert_eq!(stored.1.as_str().len(), 6);
}

#[test]
fn verify_2fa_should_return_400_if_invalid_input() {
    let mut app = App::new();
    let valid_uuid = LoginAttemptId::generate().0;
    assert_eq!(app.verify("notvalid", &valid_uuid, "123456"), Err(AuthAPIError::InvalidCredentials));
    assert_eq!(
        app.verify("joebiden@whitehouse.gov", "invalid", "123456"),
        Err(AuthAPIError::InvalidCredentials)
    );
    assert_eq!(
        app.verify("joebiden@whitehouse.gov", &valid_uuid, "12345"),
        Err(AuthAPIError::InvalidCredentials)
    );
}

#[test]
fn verify_without_pending_challenge_is_incorrect_credentials() {
    let mut app = App::new();
    let valid_uuid = LoginAttemptId::generate().0;
    assert_eq!(
        app.verify("joebiden@whitehouse.gov", &valid_uuid, "123456"),
        Err(AuthAPIError::IncorrectCredentials)
    );
}

#[test]
fn should_return_200_if_correct_code() {
    let mut app = App::new();
    app.signup("joebiden@whitehouse.gov", "password123", true).unwrap();
    let (id, code) = challenge(app.login("joebiden@whitehouse.gov", "password123").unwrap());
    let token = app.verify("joebiden@whitehouse.gov", id.as_str(), code.as_str()).unwrap();
    assert!(!token.is_empty());
    assert_eq!(
        app.tokens.validate(&token, &app.banned, NOW).unwrap().sub,
        "joebiden@whitehouse.gov"
    );
}

#[test]
fn scenario_wrong_code_keeps_challenge() {
    let mut app = App::new();
    app.signup("joebiden@whitehouse.gov", "password123", true).unwrap();
    let (id, code) = challenge(app.login("joebiden@whitehouse.gov", "password123").unwrap());
    assert_eq!(
        app.verify("joebiden@whitehouse.gov", id.as_str(), &other_code(&code)),
        Err(AuthAPIError::IncorrectCredentials)
    );
    let wrong_id = LoginAttemptId::generate();
    assert_eq!(
        app.verify("joebiden@whitehouse.gov", wrong_id.as_str(), code.as_str()),
        Err(AuthAPIError::IncorrectCredentials)
    );
    assert!(app.verify("joebiden@whitehouse.gov", id.as_str(), code.as_str()).is_ok());
}

#[test]
fn should_return_401_if_same_code_twice() {
    let mut app = App::new();
    app.signup("joebiden@whitehouse.gov", "password123", true).unwrap();
    let (id, code) = challenge(app.login("joebiden@whitehouse.gov", "password123").unwrap());
    assert!(app.verify("joebiden@whitehouse.gov", id.as_str(), code.as_str()).is_ok());
    assert_eq!(
        app.verify("joebiden@whitehouse.gov", id.as_str(), code.as_str()),
        Err(AuthAPIError::IncorrectCredentials)
    );
}

#[test]
fn scenario_second_login_supersedes_first_challenge() {
    let mut app = App::new();
    app.signup("joebiden@whitehouse.gov", "password123", true).unwrap();
    let (first_id, first_code) =
        challenge(app.login("joebiden@whitehouse.gov", "password123").unwrap());
    let (second_id, second_code) =
        challenge(app.login("joebiden@whitehouse.gov", "password123").unwrap());
    assert_ne!(first_id, second_id);
    assert_eq!(
        app.verify("joebiden@whitehouse.gov", first_id.as_str(), first_code.as_str()),
        Err(AuthAPIError::IncorrectCredentials)
    );
    assert!(app.verify("joebiden@whitehouse.gov", second_id.as_str(), second_code.as_str()).is_ok());
}

#[test]
fn should_return_400_if_jwt_cookie_missing() {
    let mut app = App::new();
    assert_eq!(app.logout(None), Err(AuthAPIError::MissingToken));
}

#[test]
fn should_return_401_if_invalid_token() {
    let mut app = App::new();
    assert_eq!(app.logout(Some("invalid")), Err(AuthAPIError::InvalidToken));
    assert_eq!(app.banned.contains_token("invalid"), Ok(false));
}

#[test]
fn should_return_200_if_valid_jwt_cookie() {
    let mut app = App::new();
    app.signup("joebiden@whitehouse.gov", "password123", false).unwrap();
    let token = session(app.login("joebiden@whitehouse.gov", "password123").unwrap());
    assert_eq!(app.logout(Some(&token)), Ok(()));
    assert_eq!(app.banned.contains_token(&token), Ok(true));
}

#[test]
fn scenario_logout_revokes_token() {
    let mut app = App::new();
    app.signup("joebiden@whitehouse.gov", "password123", false).unwrap();
    let token = session(app.login("joebiden@whitehouse.gov", "password123").unwrap());
    assert_eq!(app.logout(Some(&token)), Ok(()));
    assert_eq!(
        app.tokens.validate(&token, &app.banned, NOW).unwrap_err(),
        TokenError::Revoked
    );
    assert_eq!(verify_token(&app.banned, &app.tokens, &token, NOW), Err(AuthAPIError::InvalidToken));
    assert_eq!(app.logout(Some(&token)), Err(AuthAPIError::InvalidToken));
    assert_eq!(app.logout(None), Err(AuthAPIError::MissingToken));
}

#[test]
fn should_return_400_if_logout_called_twice_in_a_row() {
    let mut app = App::new();
    app.signup("joebiden@whitehouse.gov", "password123", false).unwrap();
    let token = session(app.login("joebiden@whitehouse.gov", "password123").unwrap());
    assert!(!token.is_empty(), "Cookie is empty");
    assert_eq!(app.logout(Some(&token)), Ok(()));
    assert_eq!(app.logout(None), Err(AuthAPIError::MissingToken));
}
