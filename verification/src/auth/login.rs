//! Logging in: from a user name and a password to a signed session token.

use super::ambient::{all_alphanumeric, random_alphanumeric, unix_now};
use super::jwt::{Claims, Jwt, JwtError};
use super::password::{verification, verify_hash, HashingError};
use super::role::UserRole;
use vstd::prelude::*;

verus! {

/// How many characters the signing secret has.
pub const SECRET_LENGTH: usize = 256;

/// How many characters the random key of a token has.
pub const TOKEN_KEY_LENGTH: usize = 16;

/// How many seconds a token is good for: one day.
pub const TOKEN_LIFETIME_SECONDS: i64 = 86400;

/// The key that tokens are signed with. It is made once, when the process
/// starts, and never written down: the type cannot be printed.
#[derive(Clone)]
pub struct Secret(pub String);

impl Secret {
    /// Draws a new secret of `SECRET_LENGTH` random letters and digits.
    pub fn generate() -> (secret: Secret)
        ensures
            secret.0@.len() == SECRET_LENGTH,
            all_alphanumeric(secret.0@),
    {
        Secret(random_alphanumeric(SECRET_LENGTH))
    }
}

/// What a user sends to log in. It holds the password in the clear and
/// cannot be printed.
#[derive(Clone, PartialEq, Eq)]
pub struct LoginRequest {
    pub user_name: String,
    pub password: String,
}

/// What the user store holds of a user.
#[derive(Debug, Clone, PartialEq, Eq)]
pub struct User {
    pub user_name: String,
    /// The stored hash of the user's password.
    pub password_hash: String,
    pub roles: Vec<UserRole>,
}

/// Why a login failed.
#[derive(Clone, Copy, Debug, PartialEq, Eq, Structural)]
pub enum LoginError {
    /// The user store holds no user of that name.
    UsernameNotFound,
    /// The password does not match the stored hash.
    IncorrectPassword,
    /// The stored hash could not be checked against.
    PasswordHashingError(HashingError),
    /// The expiry of the token lies beyond the last second that can be
    /// counted.
    ClockError,
    /// The token could not be made.
    EncodingError(JwtError),
}

/// A signed token, or why there is none.
pub type LoginResult = Result<String, LoginError>;

impl LoginError {
    /// The HTTP status that answers this failure.
    pub open spec fn status(self) -> nat {
        match self {
            LoginError::IncorrectPassword => 401,
            LoginError::UsernameNotFound => 404,
            LoginError::PasswordHashingError(_) => 500,
            LoginError::ClockError => 500,
            LoginError::EncodingError(_) => 500,
        }
    }

    /// The HTTP status that answers this failure: 401 for a wrong password,
    /// 404 for an unknown user, 500 for everything that went wrong inside.
    pub fn status_code(&self) -> (code: u16)
        ensures
            code == self.status(),
    {
        match self {
            LoginError::IncorrectPassword => 401,
            LoginError::UsernameNotFound => 404,
            LoginError::PasswordHashingError(_) => 500,
            LoginError::ClockError => 500,
            LoginError::EncodingError(_) => 500,
        }
    }
}

/// What issuing a token that is good for `lifetime` seconds comes to: the
/// token expires that many seconds after `now`, carries the name and the
/// roles of the user and the given key, and is signed with the secret.
pub open spec fn issuing_for(
    user_name: Seq<char>,
    roles: Seq<UserRole>,
    now: int,
    lifetime: int,
    token_key: Seq<char>,
    secret: Seq<char>,
) -> Result<Seq<char>, LoginError> {
    if now + lifetime > i64::MAX || now + lifetime < i64::MIN {
        Err(LoginError::ClockError)
    } else {
        match Jwt::encoding(
            Claims {
                user_name: user_name,
                user_roles: roles,
                token_key: token_key,
                token_expire_date: now + lifetime,
            },
            secret,
        ) {
            Ok(token) => Ok(token),
            Err(e) => Err(LoginError::EncodingError(e)),
        }
    }
}

/// What issuing a token comes to: as `issuing_for`, with a lifetime of one
/// day.
pub open spec fn issuing(
    user_name: Seq<char>,
    roles: Seq<UserRole>,
    now: int,
    token_key: Seq<char>,
    secret: Seq<char>,
) -> Result<Seq<char>, LoginError> {
    issuing_for(user_name, roles, now, TOKEN_LIFETIME_SECONDS as int, token_key, secret)
}

/// What precedes the issuing of a token: the user must be known and the
/// password must match the stored hash.
pub open spec fn admission(password: Seq<char>, stored_hash: Option<Seq<char>>) -> Result<
    (),
    LoginError,
> {
    match stored_hash {
        None => Err(LoginError::UsernameNotFound),
        Some(hash) => match verification(password, hash) {
            Ok(matches) => if matches {
                Ok(())
            } else {
                Err(LoginError::IncorrectPassword)
            },
            Err(e) => Err(LoginError::PasswordHashingError(e)),
        },
    }
}

/// A stored hash that is well formed and does not match the password is a
/// mismatch: the login fails with `IncorrectPassword`, not with an error of
/// the hashing.
pub proof fn lemma_mismatch_is_incorrect_password(password: Seq<char>, stored_hash: Seq<char>)
    requires
        verification(password, stored_hash) == Ok::<bool, HashingError>(false),
    ensures
        admission(password, Some(stored_hash)) == Err::<(), LoginError>(
            LoginError::IncorrectPassword,
        ),
{
}

/// The text of a result that holds a string.
pub open spec fn text_of<E>(r: Result<String, E>) -> Result<Seq<char>, E> {
    match r {
        Ok(s) => Ok(s@),
        Err(e) => Err(e),
    }
}

/// The stored hash of a user, if there is a user.
pub open spec fn stored_hash_of(user: Option<User>) -> Option<Seq<char>> {
    match user {
        Some(u) => Some(u.password_hash@),
        None => None,
    }
}

/// Issues a token to `user` at the second `now`, with the key `token_key`,
/// that is good for `lifetime` seconds.
pub fn issue_token_for(
    user: &User,
    now: i64,
    lifetime: i64,
    token_key: String,
    secret: &String,
) -> (r: LoginResult)
    ensures
        text_of(r) == issuing_for(
            user.user_name@,
            user.roles@,
            now as int,
            lifetime as int,
            token_key@,
            secret@,
        ),
{
    let expiry: i64 = match now.checked_add(lifetime) {
        Some(expiry) => expiry,
        None => {
            return Err(LoginError::ClockError);
        },
    };
    let jwt = Jwt {
        user_name: user.user_name.clone(),
        user_roles: user.roles.clone(),
        token_key: token_key,
        token_expire_date: expiry,
    };
    match jwt.encode_jwt_string(secret) {
        Ok(token) => Ok(token),
        Err(e) => Err(LoginError::EncodingError(e)),
    }
}

/// Issues a token to `user` at the second `now`, with the key `token_key`,
/// that is good for one day.
pub fn issue_token(user: &User, now: i64, token_key: String, secret: &String) -> (r: LoginResult)
    ensures
        text_of(r) == issuing(user.user_name@, user.roles@, now as int, token_key@, secret@),
{
    issue_token_for(user, now, TOKEN_LIFETIME_SECONDS, token_key, secret)
}

/// Checks the password of a login request against the record that the user
/// store holds under the requested name, if any.
pub fn check_credentials(login_request: &LoginRequest, user: &Option<User>) -> (r: Result<(), LoginError>)
    ensures
        r == admission(login_request.password@, stored_hash_of(*user)),
{
    match user {
        None => Err(LoginError::UsernameNotFound),
        Some(u) => match verify_hash(login_request.password.as_str(), u.password_hash.as_str()) {
            Ok(matches) => if matches {
                Ok(())
            } else {
                Err(LoginError::IncorrectPassword)
            },
            Err(e) => Err(LoginError::PasswordHashingError(e)),
        },
    }
}

/// Logs a user in. `user` is what the user store holds under the requested
/// name. Where the user is known and the password matches, a token is
/// issued at the present second with a fresh random key; it expires one day
/// later.
pub fn login(login_request: LoginRequest, secret: String, user: Option<User>) -> (r: LoginResult)
    ensures
        admission(login_request.password@, stored_hash_of(user)) matches Err(e) ==> r == Err::<
            String,
            LoginError,
        >(e),
        admission(login_request.password@, stored_hash_of(user)) is Ok ==> user is Some && exists|
            now: int,
            token_key: Seq<char>,
        |
            token_key.len() == TOKEN_KEY_LENGTH && all_alphanumeric(token_key) && text_of(r)
                == #[trigger] issuing(
                user->0.user_name@,
                user->0.roles@,
                now,
                token_key,
                secret@,
            ),
{
    match check_credentials(&login_request, &user) {
        Err(e) => Err(e),
        Ok(_) => match user {
            Some(u) => {
                let now: i64 = unix_now();
                let token_key: String = random_alphanumeric(TOKEN_KEY_LENGTH);
                issue_token(&u, now, token_key, &secret)
            },
            None => Err(LoginError::UsernameNotFound),
        },
    }
}

} // verus!
