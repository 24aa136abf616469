//! The authentication state machine: signup, login (directly or through a
//! two-factor challenge), second-factor verification, logout and token checks.
//! Each step is a function of the stores, the request and the time; the
//! caller performs the side effects at the edge (delivering the code, setting
//! the cookie).
use crate::domain::{
    is_uuid_text, valid_code, valid_email, valid_password, AuthAPIError, Email, LoginAttemptId,
    Password, TwoFACode, User,
};
use crate::stores::{
    credential_check, AccountModel, BannedTokenStore, ChallengeModel, TwoFACodeStore, TwoFACodeStoreError,
    UserStore, UserStoreError,
};
use crate::token::{check_token, token_text, validation, TokenError, TokenService};
use vstd::prelude::*;

verus! {

/// The outcome of a signup with these credentials.
pub open spec fn signup_outcome(
    users: Map<Seq<char>, AccountModel>,
    email: Seq<char>,
    password: Seq<char>,
) -> Result<(), AuthAPIError> {
    if !valid_email(email) || !valid_password(password) {
        Err(AuthAPIError::InvalidCredentials)
    } else if users.contains_key(email) {
        Err(AuthAPIError::UserAlreadyExists)
    } else {
        Ok(())
    }
}

/// The accounts after a signup.
pub open spec fn after_signup(
    users: Map<Seq<char>, AccountModel>,
    email: Seq<char>,
    password: Seq<char>,
    requires_2fa: bool,
) -> Map<Seq<char>, AccountModel> {
    if signup_outcome(users, email, password) is Ok {
        users.insert(email, (password, requires_2fa))
    } else {
        users
    }
}

/// The outcome of a login with these credentials: whether the account asks
/// for a second factor, or the error. Malformed input and an unknown account
/// give the same error; a wrong password gives another.
pub open spec fn login_outcome(
    users: Map<Seq<char>, AccountModel>,
    email: Seq<char>,
    password: Seq<char>,
) -> Result<bool, AuthAPIError> {
    if !valid_email(email) || !valid_password(password) {
        Err(AuthAPIError::InvalidCredentials)
    } else if !users.contains_key(email) {
        Err(AuthAPIError::InvalidCredentials)
    } else if users[email].0 != password {
        Err(AuthAPIError::IncorrectCredentials)
    } else {
        Ok(users[email].1)
    }
}

/// The outcome of a second-factor attempt. A missing challenge and a wrong
/// identifier or code give the same error.
pub open spec fn verify_outcome(
    codes: Map<Seq<char>, ChallengeModel>,
    email: Seq<char>,
    login_attempt_id: Seq<char>,
    code: Seq<char>,
) -> Result<(), AuthAPIError> {
    if !valid_email(email) || !is_uuid_text(login_attempt_id) || !valid_code(code) {
        Err(AuthAPIError::InvalidCredentials)
    } else if !codes.contains_key(email) || codes[email] != (login_attempt_id, code) {
        Err(AuthAPIError::IncorrectCredentials)
    } else {
        Ok(())
    }
}

/// The pending challenges after a second-factor attempt: a successful one
/// consumes the challenge, a failed one leaves it.
pub open spec fn after_verify(
    codes: Map<Seq<char>, ChallengeModel>,
    email: Seq<char>,
    login_attempt_id: Seq<char>,
    code: Seq<char>,
) -> Map<Seq<char>, ChallengeModel> {
    if verify_outcome(codes, email, login_attempt_id, code) is Ok {
        codes.remove(email)
    } else {
        codes
    }
}

/// The outcome of a logout that presents `token`, if any.
pub open spec fn logout_outcome(
    secret: Seq<char>,
    token: Option<Seq<char>>,
    now: nat,
    revoked: Set<Seq<char>>,
) -> Result<(), AuthAPIError> {
    match token {
        None => Err(AuthAPIError::MissingToken),
        Some(t) => if validation(secret, t, now, revoked) is Ok {
            Ok(())
        } else {
            Err(AuthAPIError::InvalidToken)
        },
    }
}

/// The revoked tokens after a logout.
pub open spec fn after_logout(
    secret: Seq<char>,
    token: Option<Seq<char>>,
    now: nat,
    revoked: Set<Seq<char>>,
) -> Set<Seq<char>> {
    match token {
        Some(t) => if logout_outcome(secret, token, now, revoked) is Ok {
            revoked.insert(t)
        } else {
            revoked
        },
        None => revoked,
    }
}

pub open spec fn opt_view(token: Option<&str>) -> Option<Seq<char>> {
    match token {
        Some(t) => Some(t@),
        None => None,
    }
}

/// Registers an account.
pub fn signup<U: UserStore>(users: &mut U, email: &str, password: &str, requires_2fa: bool) -> (r:
    Result<(), AuthAPIError>)
    ensures
        final(users).infallible() == old(users).infallible(),
        old(users).infallible() ==> r != Err::<(), AuthAPIError>(AuthAPIError::UnexpectedError),
        if r == Err::<(), AuthAPIError>(AuthAPIError::UnexpectedError) {
            valid_email(email@) && valid_password(password@) && final(users).users() == old(
                users,
            ).users()
        } else {
            r == signup_outcome(old(users).users(), email@, password@) && final(users).users()
                == after_signup(old(users).users(), email@, password@, requires_2fa)
        },
{
    let email = match Email::parse(email) {
        Ok(e) => e,
        Err(_) => return Err(AuthAPIError::InvalidCredentials),
    };
    let password = match Password::parse(password) {
        Ok(p) => p,
        Err(_) => return Err(AuthAPIError::InvalidCredentials),
    };
    match users.add_user(User::new(email, password, requires_2fa)) {
        Ok(()) => Ok(()),
        Err(UserStoreError::UserAlreadyExists) => Err(AuthAPIError::UserAlreadyExists),
        Err(_) => Err(AuthAPIError::UnexpectedError),
    }
}

/// What a successful login hands back: a session token, or a challenge whose
/// code the caller delivers to the account's address.
#[derive(Debug)]
pub enum LoginOutcome {
    Authenticated(String),
    ChallengeIssued(LoginAttemptId, TwoFACode),
}

/// The body of a signup request.
#[derive(Debug, Clone)]
pub struct SignupRequest {
    pub email: String,
    pub password: String,
    pub requires_2fa: bool,
}

/// The body answered to a successful signup.
#[derive(Debug, Clone)]
pub struct SignupResponse {
    pub message: String,
}

impl SignupResponse {
    pub fn created() -> (r: SignupResponse)
        ensures
            r.message@ == "User created successfully!"@,
    {
        SignupResponse { message: String::from_str("User created successfully!") }
    }
}

/// The body of a login request.
#[derive(Debug, Clone)]
pub struct LoginRequest {
    pub email: String,
    pub password: String,
}

/// The body answered to a login that awaits a second factor.
#[derive(Debug, Clone)]
pub struct TwoFactorAuthResponse {
    pub message: String,
    pub login_attempt_id: String,
}

/// The body answered to a successful login.
#[derive(Debug, Clone)]
pub enum LoginResponse {
    RegularAuth,
    TwoFactorAuth(TwoFactorAuthResponse),
}

/// The body of a second-factor request.
#[derive(Debug, Clone)]
pub struct Verify2FARequest {
    pub email: String,
    pub login_attempt_id: String,
    pub two_fa_code: String,
}

impl LoginOutcome {
    /// The body to answer with.
    pub fn response(&self) -> (r: LoginResponse)
        ensures
            match self {
                LoginOutcome::Authenticated(_) => r is RegularAuth,
                LoginOutcome::ChallengeIssued(id, _) => r matches LoginResponse::TwoFactorAuth(b)
                    && b.message@ == "2FA required"@ && b.login_attempt_id@ == id@,
            },
    {
        match self {
            LoginOutcome::Authenticated(_) => LoginResponse::RegularAuth,
            LoginOutcome::ChallengeIssued(id, _) => LoginResponse::TwoFactorAuth(
                TwoFactorAuthResponse {
                    message: String::from_str("2FA required"),
                    login_attempt_id: id.0.clone(),
                },
            ),
        }
    }
}

/// Logs in with `email` and `password`. For an account that asks for a second
/// factor, `login_attempt_id` and `code` become its pending challenge,
/// replacing any earlier one.
pub fn login<U: UserStore, C: TwoFACodeStore>(
    users: &U,
    codes: &mut C,
    tokens: &TokenService,
    email: &str,
    password: &str,
    login_attempt_id: LoginAttemptId,
    code: TwoFACode,
    now: u64,
) -> (r: Result<LoginOutcome, AuthAPIError>)
    requires
        now + tokens.lifetime() <= u64::MAX,
    ensures
        final(codes).infallible() == old(codes).infallible(),
        users.infallible() && old(codes).infallible() ==> r != Err::<LoginOutcome, AuthAPIError>(
            AuthAPIError::UnexpectedError,
        ),
        match r {
            Err(AuthAPIError::UnexpectedError) => valid_email(email@) && valid_password(password@)
                && final(codes).codes() == old(codes).codes(),
            _ => match login_outcome(users.users(), email@, password@) {
                Err(e) => r == Err::<LoginOutcome, AuthAPIError>(e) && final(codes).codes() == old(
                    codes,
                ).codes(),
                Ok(false) => final(codes).codes() == old(codes).codes() && (r matches Ok(
                    LoginOutcome::Authenticated(t),
                ) && t@ == token_text(tokens.secret(), email@, (now + tokens.lifetime()) as nat)),
                Ok(true) => final(codes).codes() == old(codes).codes().insert(
                    email@,
                    (login_attempt_id@, code@),
                ) && (r matches Ok(LoginOutcome::ChallengeIssued(i, c)) && i@ == login_attempt_id@
                    && c@ == code@),
            },
        },
{
    let email = match Email::parse(email) {
        Ok(e) => e,
        Err(_) => return Err(AuthAPIError::InvalidCredentials),
    };
    let password = match Password::parse(password) {
        Ok(p) => p,
        Err(_) => return Err(AuthAPIError::InvalidCredentials),
    };
    let user = match users.get_user(&email) {
        Ok(u) => u,
        Err(UserStoreError::UserNotFound) => return Err(AuthAPIError::InvalidCredentials),
        Err(_) => return Err(AuthAPIError::UnexpectedError),
    };
    if user.password != password {
        return Err(AuthAPIError::IncorrectCredentials);
    }
    if user.requires_2fa {
        let id = login_attempt_id.duplicate();
        let c = code.duplicate();
        match codes.add_code(email, login_attempt_id, code) {
            Ok(()) => Ok(LoginOutcome::ChallengeIssued(id, c)),
            Err(_) => Err(AuthAPIError::UnexpectedError),
        }
    } else {
        Ok(LoginOutcome::Authenticated(tokens.issue(&email, now)))
    }
}

/// Resolves a pending challenge: with the identifier and code of the one
/// pending for `email`, consumes it and returns a session token.
pub fn verify_2fa<C: TwoFACodeStore>(
    codes: &mut C,
    tokens: &TokenService,
    email: &str,
    login_attempt_id: String,
    code: String,
    now: u64,
) -> (r: Result<String, AuthAPIError>)
    requires
        now + tokens.lifetime() <= u64::MAX,
    ensures
        final(codes).infallible() == old(codes).infallible(),
        old(codes).infallible() ==> r != Err::<String, AuthAPIError>(AuthAPIError::UnexpectedError),
        r == Err::<String, AuthAPIError>(AuthAPIError::UnexpectedError) ==> valid_email(email@)
            && is_uuid_text(login_attempt_id@) && valid_code(code@),
        match r {
            Err(AuthAPIError::UnexpectedError) => final(codes).codes() == old(codes).codes(),
            _ => final(codes).codes() == after_verify(
                old(codes).codes(),
                email@,
                login_attempt_id@,
                code@,
            ) && match verify_outcome(old(codes).codes(), email@, login_attempt_id@, code@) {
                Err(e) => r == Err::<String, AuthAPIError>(e),
                Ok(()) => r matches Ok(t) && t@ == token_text(
                    tokens.secret(),
                    email@,
                    (now + tokens.lifetime()) as nat,
                ),
            },
        },
{
    let email = match Email::parse(email) {
        Ok(e) => e,
        Err(_) => return Err(AuthAPIError::InvalidCredentials),
    };
    let login_attempt_id = match LoginAttemptId::parse(login_attempt_id) {
        Ok(i) => i,
        Err(_) => return Err(AuthAPIError::InvalidCredentials),
    };
    let code = match TwoFACode::parse(code) {
        Ok(c) => c,
        Err(_) => return Err(AuthAPIError::InvalidCredentials),
    };
    let (pending_id, pending_code) = match codes.get_code(&email) {
        Ok(pair) => pair,
        Err(TwoFACodeStoreError::LoginAttemptIdNotFound) => {
            return Err(AuthAPIError::IncorrectCredentials)
        },
        Err(_) => return Err(AuthAPIError::UnexpectedError),
    };
    if pending_id != login_attempt_id || pending_code != code {
        return Err(AuthAPIError::IncorrectCredentials);
    }
    match codes.remove_code(&email) {
        Ok(()) => Ok(tokens.issue(&email, now)),
        Err(_) => Err(AuthAPIError::UnexpectedError),
    }
}

/// Ends the session of `token`: a valid token is revoked.
pub fn logout<B: BannedTokenStore>(
    banned: &mut B,
    tokens: &TokenService,
    token: Option<&str>,
    now: u64,
) -> (r: Result<(), AuthAPIError>)
    ensures
        final(banned).infallible() == old(banned).infallible(),
        old(banned).infallible() ==> r != Err::<(), AuthAPIError>(AuthAPIError::UnexpectedError),
        if r == Err::<(), AuthAPIError>(AuthAPIError::UnexpectedError) {
            final(banned).tokens() == old(banned).tokens() && (opt_view(token) matches Some(t)
                && check_token(tokens.secret(), t, now as nat) is Ok)
        } else {
            r == logout_outcome(tokens.secret(), opt_view(token), now as nat, old(banned).tokens())
                && final(banned).tokens() == after_logout(
                tokens.secret(),
                opt_view(token),
                now as nat,
                old(banned).tokens(),
            )
        },
{
    let token = match token {
        Some(t) => t,
        None => return Err(AuthAPIError::MissingToken),
    };
    match tokens.validate(token, &*banned, now) {
        Ok(_) => {},
        Err(TokenError::UnexpectedError) => return Err(AuthAPIError::UnexpectedError),
        Err(_) => return Err(AuthAPIError::InvalidToken),
    }
    match banned.add_token(token.to_owned()) {
        Ok(()) => Ok(()),
        Err(_) => Err(AuthAPIError::UnexpectedError),
    }
}

/// Whether `token` opens a session at `now`.
pub fn verify_token<B: BannedTokenStore>(
    banned: &B,
    tokens: &TokenService,
    token: &str,
    now: u64,
) -> (r: Result<(), AuthAPIError>)
    ensures
        banned.infallible() ==> r != Err::<(), AuthAPIError>(AuthAPIError::UnexpectedError),
        if r == Err::<(), AuthAPIError>(AuthAPIError::UnexpectedError) {
            check_token(tokens.secret(), token@, now as nat) is Ok
        } else {
            r is Ok <==> validation(tokens.secret(), token@, now as nat, banned.tokens()) is Ok
        },
        r is Err ==> r == Err::<(), AuthAPIError>(AuthAPIError::InvalidToken) || r == Err::<
            (),
            AuthAPIError,
        >(AuthAPIError::UnexpectedError),
{
    match tokens.validate(token, banned, now) {
        Ok(_) => Ok(()),
        Err(TokenError::UnexpectedError) => Err(AuthAPIError::UnexpectedError),
        Err(_) => Err(AuthAPIError::InvalidToken),
    }
}

/// Of two signups for one new address, the first succeeds and the second
/// fails as a duplicate.
pub proof fn law_one_account_per_email(
    users: Map<Seq<char>, AccountModel>,
    email: Seq<char>,
    first_password: Seq<char>,
    first_requires_2fa: bool,
    second_password: Seq<char>,
)
    requires
        valid_email(email),
        valid_password(first_password),
        valid_password(second_password),
        !users.contains_key(email),
    ensures
        signup_outcome(users, email, first_password) is Ok,
        signup_outcome(
            after_signup(users, email, first_password, first_requires_2fa),
            email,
            second_password,
        ) == Err::<(), AuthAPIError>(AuthAPIError::UserAlreadyExists),
{
}

/// Once a second challenge is issued for an account, the identifier and code
/// of the first no longer verify.
pub proof fn law_new_challenge_supersedes(
    codes: Map<Seq<char>, ChallengeModel>,
    email: Seq<char>,
    first: ChallengeModel,
    second: ChallengeModel,
)
    requires
        first != second,
    ensures
        verify_outcome(codes.insert(email, first).insert(email, second), email, first.0, first.1)
            is Err,
{
}

/// A challenge that verified once does not verify again.
pub proof fn law_challenge_single_use(
    codes: Map<Seq<char>, ChallengeModel>,
    email: Seq<char>,
    login_attempt_id: Seq<char>,
    code: Seq<char>,
)
    requires
        verify_outcome(codes, email, login_attempt_id, code) is Ok,
    ensures
        verify_outcome(
            after_verify(codes, email, login_attempt_id, code),
            email,
            login_attempt_id,
            code,
        ) == Err::<(), AuthAPIError>(AuthAPIError::IncorrectCredentials),
{
}

/// A wrong code leaves the pending challenge in place: the right code still
/// verifies afterwards.
pub proof fn law_failed_attempt_keeps_challenge(
    codes: Map<Seq<char>, ChallengeModel>,
    email: Seq<char>,
    login_attempt_id: Seq<char>,
    code: Seq<char>,
    wrong_code: Seq<char>,
)
    requires
        codes.contains_key(email),
        codes[email] == (login_attempt_id, code),
        valid_email(email),
        is_uuid_text(login_attempt_id),
        valid_code(code),
        wrong_code != code,
    ensures
        verify_outcome(codes, email, login_attempt_id, wrong_code) is Err,
        after_verify(codes, email, login_attempt_id, wrong_code) == codes,
        verify_outcome(
            after_verify(codes, email, login_attempt_id, wrong_code),
            email,
            login_attempt_id,
            code,
        ) is Ok,
{
}

/// The store's credential check and login agree on well-formed input: an
/// unknown account, a wrong password and a match are told apart the same way.
pub proof fn law_credential_check_agrees_with_login(
    users: Map<Seq<char>, AccountModel>,
    email: Seq<char>,
    password: Seq<char>,
)
    requires
        valid_email(email),
        valid_password(password),
    ensures
        (credential_check(users, email, password) == Err::<(), UserStoreError>(
            UserStoreError::UserNotFound,
        )) <==> (login_outcome(users, email, password) == Err::<bool, AuthAPIError>(
            AuthAPIError::InvalidCredentials,
        )),
        (credential_check(users, email, password) == Err::<(), UserStoreError>(
            UserStoreError::InvalidCredentials,
        )) <==> (login_outcome(users, email, password) == Err::<bool, AuthAPIError>(
            AuthAPIError::IncorrectCredentials,
        )),
        credential_check(users, email, password) is Ok <==> login_outcome(users, email, password) is Ok,
{
}

/// A token that a logout accepted is refused by every later logout.
pub proof fn law_logout_once(secret: Seq<char>, token: Seq<char>, now: nat, later: nat, revoked: Set<
    Seq<char>,
>)
    requires
        logout_outcome(secret, Some(token), now, revoked) is Ok,
    ensures
        logout_outcome(
            secret,
            Some(token),
            later,
            after_logout(secret, Some(token), now, revoked),
        ) == Err::<(), AuthAPIError>(AuthAPIError::InvalidToken),
{
}

} // verus!
