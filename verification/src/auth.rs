//! The decisions of sign-up and login. Reading users, writing them and
//! signing tokens is left to the caller; what is decided here is who gets in
//! and what the token must say.

use crate::models::auth::{LoginRequest, LoginResponse, RefreshResponse, SignupRequest, SignupResponse};
use vstd::prelude::*;
use vstd::string::*;

verus! {

/// `bcrypt::BcryptError`, carried as an opaque error.
#[verifier::external_type_specification]
#[verifier::external_body]
pub struct ExBcryptError(bcrypt::BcryptError);

/// What `bcrypt::verify` answers for a password and a stored hash: whether
/// they match, `None` where it reports an error.
pub uninterp spec fn bcrypt_verdict(password: Seq<char>, hash: Seq<char>) -> Option<bool>;

/// `bcrypt::verify`: the same password and hash always give the same answer,
/// which `bcrypt_verdict` names.
#[verifier::external_body]
fn verify_password(password: &str, hash: &str) -> (verdict: Result<bool, bcrypt::BcryptError>)
    ensures
        match verdict {
            Ok(matches) => bcrypt_verdict(password@, hash@) == Some(matches),
            Err(_) => bcrypt_verdict(password@, hash@) is None,
        },
{
    bcrypt::verify(password, hash)
}

/// `bcrypt::hash` at the default cost. The salt is random, so nothing is
/// said of the hash that comes back.
#[verifier::external_body]
fn hash_password(password: &str) -> Result<String, bcrypt::BcryptError> {
    bcrypt::hash(password, bcrypt::DEFAULT_COST)
}

/// Seconds for which a token is good.
pub const TOKEN_LIFETIME_SECS: i64 = 86400;

/// Why nobody was let in.
#[derive(Clone, Copy, Debug, PartialEq, Eq, Structural)]
pub enum AuthError {
    UserExists,
    UserNotFound,
    InvalidCredentials,
    /// The password could not be hashed, or the stored hash not be read.
    Hash,
    /// The expiry of the token is beyond the clock.
    Clock,
}

impl AuthError {
    /// What the caller is told.
    pub open spec fn message_of(self) -> Seq<char> {
        match self {
            AuthError::UserExists => "User already exists"@,
            AuthError::UserNotFound => "User not found"@,
            AuthError::InvalidCredentials => "Invalid credentials"@,
            AuthError::Hash => "Password hash failed"@,
            AuthError::Clock => "Token expiry out of range"@,
        }
    }

    /// What the caller is told.
    pub fn message(self) -> (message: &'static str)
        ensures
            message@ == self.message_of(),
    {
        match self {
            AuthError::UserExists => "User already exists",
            AuthError::UserNotFound => "User not found",
            AuthError::InvalidCredentials => "Invalid credentials",
            AuthError::Hash => "Password hash failed",
            AuthError::Clock => "Token expiry out of range",
        }
    }
}

/// A user as the local store holds it.
#[derive(Debug, PartialEq, Eq)]
pub struct UserRecord {
    pub id: i64,
    pub email: String,
    pub password_hash: String,
    pub name: String,
}

/// A user to write to the local store.
#[derive(Debug, PartialEq, Eq)]
pub struct NewUser {
    pub email: String,
    pub password_hash: String,
    pub name: String,
    pub phone: String,
    pub role: String,
}

/// What a token must say: whom it is for and until when it is good.
#[derive(Debug, PartialEq, Eq)]
pub struct Grant {
    pub subject: String,
    pub expires_at: i64,
}

/// When a token issued at `now` expires, where the clock reaches that far.
pub open spec fn expiry_of(now: int) -> Option<i64> {
    if now + TOKEN_LIFETIME_SECS <= i64::MAX {
        Some((now + TOKEN_LIFETIME_SECS) as i64)
    } else {
        None
    }
}

/// When a token issued at `now` expires: a day later.
pub fn token_expiry(now: i64) -> (expiry: Option<i64>)
    ensures
        expiry == expiry_of(now as int),
{
    if now <= i64::MAX - TOKEN_LIFETIME_SECS {
        Some(now + TOKEN_LIFETIME_SECS)
    } else {
        None
    }
}

/// The grant for `subject` at `now`.
pub fn grant(subject: &str, now: i64) -> (granted: Result<Grant, AuthError>)
    ensures
        match granted {
            Ok(g) => g.subject@ == subject@ && expiry_of(now as int) == Some(g.expires_at),
            Err(error) => error == AuthError::Clock && expiry_of(now as int) is None,
        },
{
    match token_expiry(now) {
        Some(expires_at) => Ok(Grant { subject: String::from_str(subject), expires_at }),
        None => Err(AuthError::Clock),
    }
}

/// Whether `user` is what sign-up writes for `data` with this hash: the
/// e-mail address and the name as given, no phone, the role of an admin.
pub open spec fn signs_up(user: NewUser, data: SignupRequest, hash: Seq<char>) -> bool {
    &&& user.email@ == data.email@
    &&& user.password_hash@ == hash
    &&& user.name@ == data.username@
    &&& user.phone@ == ""@
    &&& user.role@ == "admin"@
}

/// The user to write for a sign-up once the password was hashed, `None`
/// standing for a hash that failed. An address that is taken is refused
/// before anything else.
pub fn signup_with_hash(data: &SignupRequest, exists: bool, hashed: Option<String>) -> (user:
    Result<NewUser, AuthError>)
    ensures
        exists ==> user == Err::<NewUser, AuthError>(AuthError::UserExists),
        !exists && hashed is None ==> user == Err::<NewUser, AuthError>(AuthError::Hash),
        !exists && hashed is Some ==> (user matches Ok(u) && signs_up(u, *data, hashed->0@)),
{
    if exists {
        return Err(AuthError::UserExists);
    }
    match hashed {
        None => Err(AuthError::Hash),
        Some(password_hash) => Ok(
            NewUser {
                email: data.email.clone(),
                password_hash,
                name: data.username.clone(),
                phone: String::from_str(""),
                role: String::from_str("admin"),
            },
        ),
    }
}

/// The user to write for a sign-up. An address that is taken is refused
/// without hashing anything; otherwise the password is hashed, which may
/// fail.
pub fn signup(data: &SignupRequest, exists: bool) -> (user: Result<NewUser, AuthError>)
    ensures
        exists ==> user == Err::<NewUser, AuthError>(AuthError::UserExists),
        !exists ==> match user {
            Ok(u) => signs_up(u, *data, u.password_hash@),
            Err(error) => error == AuthError::Hash,
        },
{
    if exists {
        return Err(AuthError::UserExists);
    }
    let hashed = match hash_password(data.password.as_str()) {
        Ok(hash) => Some(hash),
        Err(_) => None,
    };
    signup_with_hash(data, false, hashed)
}

/// The answer to a sign-up that was written as row `row_id` and for which
/// `token` was signed.
pub fn signup_response(data: SignupRequest, row_id: i64, token: String) -> (response: SignupResponse)
    ensures
        response.id == row_id as i32,
        response.email@ == data.email@,
        response.username@ == data.username@,
        response.access_token@ == token@,
        response.token_type@ == "bearer"@,
{
    SignupResponse {
        id: #[verifier::truncate] (row_id as i32),
        email: data.email,
        username: data.username,
        access_token: token,
        token_type: String::from_str("bearer"),
    }
}

/// Who gets in, given what `bcrypt::verify` said of the password: nobody
/// without a user under that address, nobody whose stored hash cannot be
/// read, nobody whose password does not match.
pub open spec fn login_decision(
    user: Option<UserRecord>,
    verdict: Option<bool>,
    now: int,
) -> Result<i64, AuthError> {
    match user {
        None => Err(AuthError::UserNotFound),
        Some(_) => match verdict {
            None => Err(AuthError::Hash),
            Some(false) => Err(AuthError::InvalidCredentials),
            Some(true) => match expiry_of(now) {
                None => Err(AuthError::Clock),
                Some(expires_at) => Ok(expires_at),
            },
        },
    }
}

/// The grant for a login, given what `bcrypt::verify` said of the password.
pub fn login_with_verdict(user: &Option<UserRecord>, verdict: Option<bool>, now: i64) -> (granted:
    Result<Grant, AuthError>)
    ensures
        match granted {
            Ok(g) => {
                &&& login_decision(*user, verdict, now as int) == Ok::<i64, AuthError>(g.expires_at)
                &&& user matches Some(u)
                &&& g.subject@ == u.email@
            },
            Err(error) => login_decision(*user, verdict, now as int) == Err::<i64, AuthError>(error),
        },
{
    match user {
        None => Err(AuthError::UserNotFound),
        Some(record) => match verdict {
            None => Err(AuthError::Hash),
            Some(false) => Err(AuthError::InvalidCredentials),
            Some(true) => grant(record.email.as_str(), now),
        },
    }
}

/// The grant for a login with the user found under the address of `data`,
/// if any.
pub fn login(data: &LoginRequest, user: &Option<UserRecord>, now: i64) -> (granted: Result<
    Grant,
    AuthError,
>)
    ensures
        match *user {
            None => granted == Err::<Grant, AuthError>(AuthError::UserNotFound),
            Some(u) => match granted {
                Ok(g) => login_decision(
                    *user,
                    bcrypt_verdict(data.password@, u.password_hash@),
                    now as int,
                ) == Ok::<i64, AuthError>(g.expires_at) && g.subject@ == u.email@,
                Err(error) => login_decision(
                    *user,
                    bcrypt_verdict(data.password@, u.password_hash@),
                    now as int,
                ) == Err::<i64, AuthError>(error),
            },
        },
{
    match user {
        None => Err(AuthError::UserNotFound),
        Some(record) => {
            let verdict = match verify_password(
                data.password.as_str(),
                record.password_hash.as_str(),
            ) {
                Ok(matches) => Some(matches),
                Err(_) => None,
            };
            login_with_verdict(user, verdict, now)
        },
    }
}

/// The answer to a login of `user` for which `token` was signed.
pub fn login_response(user: &UserRecord, token: String) -> (response: LoginResponse)
    ensures
        response.access_token@ == token@,
        response.token_type@ == "bearer"@,
        response.username@ == user.name@,
{
    LoginResponse {
        access_token: token,
        token_type: String::from_str("bearer"),
        username: user.name.clone(),
    }
}

/// The answer to a refresh: a fixed token.
pub fn refresh_token() -> (response: RefreshResponse)
    ensures
        response.access_token@ == "new_token"@,
        response.token_type@ == "bearer"@,
{
    RefreshResponse {
        access_token: String::from_str("new_token"),
        token_type: String::from_str("bearer"),
    }
}

} // verus!
