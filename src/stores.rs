//! The three stores behind the service: accounts, pending two-factor
//! challenges and revoked session tokens. Each is a capability trait with an
//! in-memory implementation.
use crate::assoc::{
    assoc_map, keys_unique, lemma_assoc_contains, lemma_assoc_index, lemma_assoc_push,
    lemma_assoc_remove,
};
use crate::domain::{Email, LoginAttemptId, Password, TwoFACode, User};
use vstd::prelude::*;

verus! {

/// What an account store records of an account: its password and whether it
/// asks for a second factor.
pub type AccountModel = (Seq<char>, bool);

/// What a challenge store records of a pending challenge: its identifier and
/// its one-time code.
pub type ChallengeModel = (Seq<char>, Seq<char>);

#[derive(Debug, Clone, Copy, PartialEq, Eq, Structural)]
pub enum UserStoreError {
    UserAlreadyExists,
    UserNotFound,
    InvalidCredentials,
    UnexpectedError,
}

/// Accounts, one per email address. An operation either does what its
/// contract says or fails with `UnexpectedError` and changes nothing.
pub trait UserStore {
    spec fn users(&self) -> Map<Seq<char>, AccountModel>;

    /// Whether this store never fails with `UnexpectedError` (a store in
    /// memory, for one); it stays so across every operation.
    spec fn infallible(&self) -> bool;

    /// Adds `user`, unless an account with its email exists.
    fn add_user(&mut self, user: User) -> (r: Result<(), UserStoreError>)
        ensures
            final(self).infallible() == old(self).infallible(),
            old(self).infallible() ==> r != Err::<(), UserStoreError>(UserStoreError::UnexpectedError),
            match r {
                Ok(()) => !old(self).users().contains_key(user.email@) && final(self).users()
                    == old(self).users().insert(
                    user.email@,
                    (user.password@, user.requires_2fa),
                ),
                Err(UserStoreError::UserAlreadyExists) => old(self).users().contains_key(
                    user.email@,
                ) && final(self).users() == old(self).users(),
                Err(UserStoreError::UnexpectedError) => final(self).users() == old(self).users(),
                Err(_) => false,
            },
    ;

    /// The account of `email`.
    fn get_user(&self, email: &Email) -> (r: Result<User, UserStoreError>)
        ensures
            self.infallible() ==> r != Err::<User, UserStoreError>(UserStoreError::UnexpectedError),
            match r {
                Ok(u) => self.users().contains_key(email@) && u.email@ == email@ && self.users()[email@]
                    == (u.password@, u.requires_2fa),
                Err(UserStoreError::UserNotFound) => !self.users().contains_key(email@),
                Err(UserStoreError::UnexpectedError) => true,
                Err(_) => false,
            },
    ;

    /// Whether `password` is the password of the account of `email`.
    fn validate_user(&self, email: &Email, password: &Password) -> (r: Result<(), UserStoreError>)
        ensures
            self.infallible() ==> r != Err::<(), UserStoreError>(UserStoreError::UnexpectedError),
            r == Err::<(), UserStoreError>(UserStoreError::UnexpectedError) || r == credential_check(
                self.users(),
                email@,
                password@,
            ),
    ;
}

/// The outcome of checking a password against the account of `email`.
pub open spec fn credential_check(
    users: Map<Seq<char>, AccountModel>,
    email: Seq<char>,
    password: Seq<char>,
) -> Result<(), UserStoreError> {
    if !users.contains_key(email) {
        Err(UserStoreError::UserNotFound)
    } else if users[email].0 != password {
        Err(UserStoreError::InvalidCredentials)
    } else {
        Ok(())
    }
}

pub open spec fn user_entry(u: User) -> (Seq<char>, AccountModel) {
    (u.email@, (u.password@, u.requires_2fa))
}

/// Accounts held in memory, in the order they were added.
pub struct HashmapUserStore {
    users: Vec<User>,
}

impl HashmapUserStore {
    pub closed spec fn entries(&self) -> Seq<(Seq<char>, AccountModel)> {
        self.users@.map_values(|u: User| user_entry(u))
    }

    #[verifier::type_invariant]
    spec fn inv(&self) -> bool {
        keys_unique(self.entries())
    }

    /// An empty store.
    pub fn new() -> (r: HashmapUserStore)
        ensures
            r.users() == Map::<Seq<char>, AccountModel>::empty(),
    {
        let r = HashmapUserStore { users: Vec::new() };
        assert(r.entries() =~= Seq::<(Seq<char>, AccountModel)>::empty());
        r
    }

    /// The position of the account of `email`, if there is one.
    fn find(&self, email: &Email) -> (r: Option<usize>)
        ensures
            match r {
                Some(i) => i < self.users@.len() && self.users@[i as int].email@ == email@,
                None => !self.users().contains_key(email@),
            },
    {
        let mut i: usize = 0;
        while i < self.users.len()
            invariant
                i <= self.users@.len(),
                forall|k: int| 0 <= k < i ==> self.users@[k].email@ != email@,
            decreases self.users@.len() - i,
        {
            if self.users[i].email == *email {
                return Some(i);
            }
            i = i + 1;
        }
        proof {
            use_type_invariant(self);
            lemma_assoc_contains(self.entries(), email@);
            if self.users().contains_key(email@) {
                let k = choose|k: int| 0 <= k < self.entries().len() && self.entries()[k].0 == email@;
                assert(self.entries()[k].0 == self.users@[k].email@);
            }
        }
        None
    }
}

impl UserStore for HashmapUserStore {
    open spec fn infallible(&self) -> bool {
        true
    }

    closed spec fn users(&self) -> Map<Seq<char>, AccountModel> {
        assoc_map(self.entries())
    }

    fn add_user(&mut self, user: User) -> (r: Result<(), UserStoreError>)
    {
        proof {
            use_type_invariant(&*self);
        }
        match self.find(&user.email) {
            Some(i) => {
                proof {
                    lemma_assoc_index(self.entries(), i as int);
                }
                Err(UserStoreError::UserAlreadyExists)
            },
            None => {
                proof {
                    lemma_assoc_push(self.entries(), user.email@, (user.password@, user.requires_2fa));
                }
                let ghost before = self.entries();
                // the list is moved out while it grows, so that the store
                // meets its invariant at every step
                let mut users: Vec<User> = Vec::new();
                std::mem::swap(&mut self.users, &mut users);
                users.push(user);
                assert(users@.map_values(|u: User| user_entry(u)) =~= before.push(user_entry(user)));
                self.users = users;
                Ok(())
            }
        }
    }

    fn get_user(&self, email: &Email) -> (r: Result<User, UserStoreError>)
    {
        match self.find(email) {
            Some(i) => {
                proof {
                    use_type_invariant(self);
                    lemma_assoc_index(self.entries(), i as int);
                }
                let u = &self.users[i];
                Ok(User::new(u.email.duplicate(), u.password.duplicate(), u.requires_2fa))
            },
            None => Err(UserStoreError::UserNotFound),
        }
    }

    fn validate_user(&self, email: &Email, password: &Password) -> (r: Result<(), UserStoreError>)
    {
        match self.find(email) {
            Some(i) => {
                proof {
                    use_type_invariant(self);
                    lemma_assoc_index(self.entries(), i as int);
                }
                if self.users[i].password == *password {
                    Ok(())
                } else {
                    Err(UserStoreError::InvalidCredentials)
                }
            },
            None => Err(UserStoreError::UserNotFound),
        }
    }
}

#[derive(Debug, Clone, Copy, PartialEq, Eq, Structural)]
pub enum TwoFACodeStoreError {
    LoginAttemptIdNotFound,
    UnexpectedError,
}

/// Pending two-factor challenges, at most one per email address. An operation
/// either does what its contract says or fails with `UnexpectedError` and
/// changes nothing.
pub trait TwoFACodeStore {
    spec fn codes(&self) -> Map<Seq<char>, ChallengeModel>;

    /// Whether this store never fails with `UnexpectedError` (a store in
    /// memory, for one); it stays so across every operation.
    spec fn infallible(&self) -> bool;

    /// Records a challenge for `email`, replacing any that was pending.
    fn add_code(&mut self, email: Email, login_attempt_id: LoginAttemptId, code: TwoFACode) -> (r:
        Result<(), TwoFACodeStoreError>)
        ensures
            final(self).infallible() == old(self).infallible(),
            old(self).infallible() ==> r != Err::<(), TwoFACodeStoreError>(TwoFACodeStoreError::UnexpectedError),
            match r {
                Ok(()) => final(self).codes() == old(self).codes().insert(
                    email@,
                    (login_attempt_id@, code@),
                ),
                Err(TwoFACodeStoreError::UnexpectedError) => final(self).codes() == old(
                    self,
                ).codes(),
                Err(_) => false,
            },
    ;

    /// Drops the challenge pending for `email`.
    fn remove_code(&mut self, email: &Email) -> (r: Result<(), TwoFACodeStoreError>)
        ensures
            final(self).infallible() == old(self).infallible(),
            old(self).infallible() ==> r != Err::<(), TwoFACodeStoreError>(TwoFACodeStoreError::UnexpectedError),
            match r {
                Ok(()) => old(self).codes().contains_key(email@) && final(self).codes() == old(
                    self,
                ).codes().remove(email@),
                Err(TwoFACodeStoreError::LoginAttemptIdNotFound) => !old(self).codes().contains_key(
                    email@,
                ) && final(self).codes() == old(self).codes(),
                Err(TwoFACodeStoreError::UnexpectedError) => final(self).codes() == old(
                    self,
                ).codes(),
            },
    ;

    /// The challenge pending for `email`.
    fn get_code(&self, email: &Email) -> (r: Result<(LoginAttemptId, TwoFACode), TwoFACodeStoreError>)
        ensures
            self.infallible() ==> r != Err::<(LoginAttemptId, TwoFACode), TwoFACodeStoreError>(TwoFACodeStoreError::UnexpectedError),
            match r {
                Ok((id, code)) => self.codes().contains_key(email@) && self.codes()[email@] == (
                    id@,
                    code@,
                ),
                Err(TwoFACodeStoreError::LoginAttemptIdNotFound) => !self.codes().contains_key(
                    email@,
                ),
                Err(TwoFACodeStoreError::UnexpectedError) => true,
            },
    ;
}

struct PendingChallenge {
    email: Email,
    login_attempt_id: LoginAttemptId,
    code: TwoFACode,
}

spec fn challenge_entry(c: PendingChallenge) -> (Seq<char>, ChallengeModel) {
    (c.email@, (c.login_attempt_id@, c.code@))
}

/// Pending challenges held in memory.
pub struct HashmapTwoFACodeStore {
    codes: Vec<PendingChallenge>,
}

impl HashmapTwoFACodeStore {
    closed spec fn entries(&self) -> Seq<(Seq<char>, ChallengeModel)> {
        self.codes@.map_values(|c: PendingChallenge| challenge_entry(c))
    }

    #[verifier::type_invariant]
    spec fn inv(&self) -> bool {
        keys_unique(self.entries())
    }

    /// An empty store.
    pub fn new() -> (r: HashmapTwoFACodeStore)
        ensures
            r.codes() == Map::<Seq<char>, ChallengeModel>::empty(),
    {
        let r = HashmapTwoFACodeStore { codes: Vec::new() };
        assert(r.entries() =~= Seq::<(Seq<char>, ChallengeModel)>::empty());
        r
    }

    /// The position of the challenge of `email`, if there is one.
    fn find(&self, email: &Email) -> (r: Option<usize>)
        ensures
            match r {
                Some(i) => i < self.codes@.len() && self.codes@[i as int].email@ == email@,
                None => !self.codes().contains_key(email@),
            },
    {
        let mut i: usize = 0;
        while i < self.codes.len()
            invariant
                i <= self.codes@.len(),
                forall|k: int| 0 <= k < i ==> self.codes@[k].email@ != email@,
            decreases self.codes@.len() - i,
        {
            if self.codes[i].email == *email {
                return Some(i);
            }
            i = i + 1;
        }
        proof {
            lemma_assoc_contains(self.entries(), email@);
            if self.codes().contains_key(email@) {
                let k = choose|k: int| 0 <= k < self.entries().len() && self.entries()[k].0 == email@;
                assert(self.entries()[k].0 == self.codes@[k].email@);
            }
        }
        None
    }

    /// Drops the challenge at position `i`.
    fn remove_at(&mut self, i: usize)
        requires
            i < old(self).codes@.len(),
        ensures
            final(self).codes() == old(self).codes().remove(old(self).codes@[i as int].email@),
    {
        proof {
            use_type_invariant(&*self);
            lemma_assoc_remove(self.entries(), i as int);
        }
        let ghost before = self.entries();
        let mut codes: Vec<PendingChallenge> = Vec::new();
        std::mem::swap(&mut self.codes, &mut codes);
        codes.remove(i);
        assert(codes@.map_values(|c: PendingChallenge| challenge_entry(c)) =~= before.remove(i as int));
        self.codes = codes;
    }
}

impl TwoFACodeStore for HashmapTwoFACodeStore {
    open spec fn infallible(&self) -> bool {
        true
    }

    closed spec fn codes(&self) -> Map<Seq<char>, ChallengeModel> {
        assoc_map(self.entries())
    }

    fn add_code(&mut self, email: Email, login_attempt_id: LoginAttemptId, code: TwoFACode) -> (r:
        Result<(), TwoFACodeStoreError>)
    {
        if let Some(i) = self.find(&email) {
            self.remove_at(i);
        }
        proof {
            use_type_invariant(&*self);
            lemma_assoc_push(self.entries(), email@, (login_attempt_id@, code@));
        }
        let ghost before = self.entries();
        let entry = PendingChallenge { email, login_attempt_id, code };
        let mut codes: Vec<PendingChallenge> = Vec::new();
        std::mem::swap(&mut self.codes, &mut codes);
        codes.push(entry);
        assert(codes@.map_values(|c: PendingChallenge| challenge_entry(c)) =~= before.push(
            challenge_entry(entry),
        ));
        self.codes = codes;
        assert(self.codes() =~= old(self).codes().insert(email@, (login_attempt_id@, code@)));
        Ok(())
    }

    fn remove_code(&mut self, email: &Email) -> (r: Result<(), TwoFACodeStoreError>)
    {
        match self.find(email) {
            Some(i) => {
                proof {
                    use_type_invariant(&*self);
                    lemma_assoc_index(self.entries(), i as int);
                }
                self.remove_at(i);
                Ok(())
            },
            None => Err(TwoFACodeStoreError::LoginAttemptIdNotFound),
        }
    }

    fn get_code(&self, email: &Email) -> (r: Result<(LoginAttemptId, TwoFACode), TwoFACodeStoreError>)
    {
        match self.find(email) {
            Some(i) => {
                proof {
                    use_type_invariant(self);
                    lemma_assoc_index(self.entries(), i as int);
                }
                let c = &self.codes[i];
                Ok((c.login_attempt_id.duplicate(), c.code.duplicate()))
            },
            None => Err(TwoFACodeStoreError::LoginAttemptIdNotFound),
        }
    }
}

#[derive(Debug, Clone, Copy, PartialEq, Eq, Structural)]
pub enum BannedTokenStoreError {
    UnexpectedError,
}

/// Session tokens revoked before they expired. A revoked token stays revoked.
pub trait BannedTokenStore {
    spec fn tokens(&self) -> Set<Seq<char>>;

    /// Whether this store never fails with `UnexpectedError` (a store in
    /// memory, for one); it stays so across every operation.
    spec fn infallible(&self) -> bool;

    /// Revokes `token`; revoking it again is no error.
    fn add_token(&mut self, token: String) -> (r: Result<(), BannedTokenStoreError>)
        ensures
            final(self).infallible() == old(self).infallible(),
            old(self).infallible() ==> r is Ok,
            match r {
                Ok(()) => final(self).tokens() == old(self).tokens().insert(token@),
                Err(BannedTokenStoreError::UnexpectedError) => final(self).tokens() == old(
                    self,
                ).tokens(),
            },
    ;

    /// Whether `token` has been revoked.
    fn contains_token(&self, token: &str) -> (r: Result<bool, BannedTokenStoreError>)
        ensures
            self.infallible() ==> r is Ok,
            r matches Ok(b) ==> b == self.tokens().contains(token@),
    ;
}

/// Revoking a token twice leaves the same revoked set as revoking it once,
/// and the token is revoked after either.
pub proof fn law_revocation_idempotent(revoked: Set<Seq<char>>, token: Seq<char>)
    ensures
        revoked.insert(token).contains(token),
        revoked.insert(token).insert(token) == revoked.insert(token),
{
    assert(revoked.insert(token).insert(token) =~= revoked.insert(token));
}

/// Revoked tokens held in memory.
pub struct HashsetBannedTokenStore {
    tokens: Vec<String>,
}

impl HashsetBannedTokenStore {
    /// An empty store.
    pub fn new() -> (r: HashsetBannedTokenStore)
        ensures
            r.tokens() == Set::<Seq<char>>::empty(),
    {
        let r = HashsetBannedTokenStore { tokens: Vec::new() };
        assert(r.tokens() =~= Set::<Seq<char>>::empty());
        r
    }
}

impl BannedTokenStore for HashsetBannedTokenStore {
    open spec fn infallible(&self) -> bool {
        true
    }

    closed spec fn tokens(&self) -> Set<Seq<char>> {
        Set::new(|t: Seq<char>| exists|i: int| 0 <= i < self.tokens@.len() && self.tokens@[i]@ == t)
    }

    fn add_token(&mut self, token: String) -> (r: Result<(), BannedTokenStoreError>)
    {
        let present = self.contains_token(token.as_str());
        if let Ok(false) = present {
            let ghost before = self.tokens@;
            self.tokens.push(token);
            assert forall|t: Seq<char>| #[trigger] self.tokens().contains(t) implies old(self).tokens().insert(token@).contains(t) by {
                let i = choose|i: int| 0 <= i < self.tokens@.len() && self.tokens@[i]@ == t;
                if i < before.len() {
                    assert(before[i]@ == t);
                }
            }
            assert forall|t: Seq<char>| #[trigger] old(self).tokens().insert(token@).contains(t) implies self.tokens().contains(t) by {
                if t == token@ {
                    assert(self.tokens@[before.len() as int]@ == t);
                } else {
                    let i = choose|i: int| 0 <= i < before.len() && before[i]@ == t;
                    assert(self.tokens@[i]@ == t);
                }
            }
            assert(self.tokens() =~= old(self).tokens().insert(token@));
        } else {
            assert(self.tokens() =~= old(self).tokens().insert(token@));
        }
        Ok(())
    }

    fn contains_token(&self, token: &str) -> (r: Result<bool, BannedTokenStoreError>)
    {
        let wanted = token.to_owned();
        let mut i: usize = 0;
        while i < self.tokens.len()
            invariant
                wanted@ == token@,
                i <= self.tokens@.len(),
                forall|k: int| 0 <= k < i ==> self.tokens@[k]@ != token@,
            decreases self.tokens@.len() - i,
        {
            if self.tokens[i] == wanted {
                assert(self.tokens().contains(token@)) by {
                    assert(self.tokens@[i as int]@ == token@);
                }
                return Ok(true);
            }
            i = i + 1;
        }
        Ok(false)
    }
}

} // verus!
