//! The guard that stands before every protected route: it takes the token
//! out of a request, checks its signature, its expiry, whether it was
//! revoked and whether its roles suffice, in this order.

use super::ambient::unix_now;
use super::jwt::{Claims, Jwt, JwtError};
use super::login::Secret;
use super::revocation::RevocationRegistry;
use super::role::{any_implies, any_satisfies, UserRole};
use crate::text::texts_of;
use vstd::prelude::*;

verus! {

/// Why a request was turned away.
#[derive(Clone, Copy, Debug, PartialEq, Eq, Structural)]
pub enum AuthError {
    /// The request carries no token, an empty one, or more than one.
    MissingToken,
    /// The token is malformed or its signature does not fit the secret.
    InvalidToken,
    /// The token has expired.
    TokenExpired,
    /// The token was revoked.
    TokenRevoked,
    /// None of the token's roles satisfies the required one.
    InsufficientRole,
}

impl AuthError {
    /// The HTTP status that answers this failure.
    pub open spec fn status(self) -> nat {
        match self {
            AuthError::InsufficientRole => 403,
            _ => 401,
        }
    }

    /// The HTTP status that answers this failure: 403 where the roles do not
    /// suffice, 401 for everything else.
    pub fn status_code(&self) -> (code: u16)
        ensures
            code == self.status(),
    {
        match self {
            AuthError::InsufficientRole => 403,
            _ => 401,
        }
    }
}

/// Who a request was found to come from.
#[derive(Clone, Debug, PartialEq, Eq)]
pub struct Identity {
    pub user_name: String,
    pub roles: Vec<UserRole>,
    /// Key of the token that the request carried, by which it can be revoked.
    pub token_key: String,
}

/// An identity as plain mathematical values.
pub struct IdentityView {
    pub user_name: Seq<char>,
    pub roles: Seq<UserRole>,
    pub token_key: Seq<char>,
}

impl View for Identity {
    type V = IdentityView;

    open spec fn view(&self) -> IdentityView {
        IdentityView { user_name: self.user_name@, roles: self.roles@, token_key: self.token_key@ }
    }
}

/// The view of a result that holds an identity.
pub open spec fn identity_of(r: Result<Identity, AuthError>) -> Result<IdentityView, AuthError> {
    match r {
        Ok(identity) => Ok(identity@),
        Err(e) => Err(e),
    }
}

/// What the guard makes of claims whose signature was found to fit, at the
/// second `now`: a token is expired from the second after its expiry on.
pub open spec fn judgement(
    claims: Claims,
    required_role: UserRole,
    revoked: Set<Seq<char>>,
    now: int,
) -> Result<IdentityView, AuthError> {
    if now > claims.token_expire_date {
        Err(AuthError::TokenExpired)
    } else if revoked.contains(claims.token_key) {
        Err(AuthError::TokenRevoked)
    } else if !any_implies(claims.user_roles, required_role) {
        Err(AuthError::InsufficientRole)
    } else {
        Ok(
            IdentityView {
                user_name: claims.user_name,
                roles: claims.user_roles,
                token_key: claims.token_key,
            },
        )
    }
}

/// Whether a request with the given values of its authorization header
/// carries a token: the header has exactly one value, and that value is not
/// empty.
pub open spec fn carries_token(header_values: Seq<Seq<char>>) -> bool {
    header_values.len() == 1 && header_values[0].len() > 0
}

/// What the guard makes of a request with the given values of its
/// authorization header, at the second `now`.
pub open spec fn authorization(
    header_values: Seq<Seq<char>>,
    required_role: UserRole,
    secret: Seq<char>,
    revoked: Set<Seq<char>>,
    now: int,
) -> Result<IdentityView, AuthError> {
    if !carries_token(header_values) {
        Err(AuthError::MissingToken)
    } else {
        match Jwt::decoding(header_values[0], secret) {
            Ok(claims) => judgement(claims, required_role, revoked, now),
            Err(_) => Err(AuthError::InvalidToken),
        }
    }
}

/// Judges claims whose signature was found to fit: the token must not be
/// expired, must not be revoked, and one of its roles must satisfy the
/// required one.
pub fn judge(
    jwt: Jwt,
    required_role: UserRole,
    registry: &RevocationRegistry,
    now: i64,
) -> (r: Result<Identity, AuthError>)
    ensures
        identity_of(r) == judgement(jwt@, required_role, registry@, now as int),
{
    if now > jwt.token_expire_date {
        Err(AuthError::TokenExpired)
    } else if registry.is_revoked(jwt.token_key.as_str()) {
        Err(AuthError::TokenRevoked)
    } else if !any_satisfies(&jwt.user_roles, required_role) {
        Err(AuthError::InsufficientRole)
    } else {
        Ok(Identity { user_name: jwt.user_name, roles: jwt.user_roles, token_key: jwt.token_key })
    }
}

/// Authorizes a request at the second `now`. `header_values` holds the
/// values of the request's authorization header: exactly one is expected,
/// the token. A request without a header value, with an empty one or with
/// several is turned away before anything is decoded.
pub fn authorize_at(
    header_values: &Vec<String>,
    required_role: UserRole,
    secret: &Secret,
    registry: &RevocationRegistry,
    now: i64,
) -> (r: Result<Identity, AuthError>)
    ensures
        identity_of(r) == authorization(
            texts_of(header_values@),
            required_role,
            secret.0@,
            registry@,
            now as int,
        ),
{
    if header_values.len() != 1 || header_values[0].as_str().is_empty() {
        return Err(AuthError::MissingToken);
    }
    match Jwt::decode_jwt_string(header_values[0].clone(), &secret.0) {
        Ok(jwt) => judge(jwt, required_role, registry, now),
        Err(_) => Err(AuthError::InvalidToken),
    }
}

/// Authorizes a request at the present second.
pub fn authorize(
    header_values: &Vec<String>,
    required_role: UserRole,
    secret: &Secret,
    registry: &RevocationRegistry,
) -> (r: Result<Identity, AuthError>)
    ensures
        exists|now: int|
            identity_of(r) == #[trigger] authorization(
                texts_of(header_values@),
                required_role,
                secret.0@,
                registry@,
                now,
            ),
        !carries_token(texts_of(header_values@)) ==> r == Err::<Identity, AuthError>(
            AuthError::MissingToken,
        ),
        carries_token(texts_of(header_values@)) && Jwt::decoding(
            header_values[0]@,
            secret.0@,
        ) is Err ==> r == Err::<Identity, AuthError>(AuthError::InvalidToken),
{
    let now: i64 = unix_now();
    authorize_at(header_values, required_role, secret, registry, now)
}

/// Whether the user of a token is the author that a request names. Nobody
/// writes or edits under another user's name.
pub fn is_same_user(token_user: &str, author: &str) -> (same: bool)
    ensures
        same == (token_user@ == author@),
{
    let user: String = token_user.to_owned();
    let named: String = author.to_owned();
    user == named
}

/// A request whose token does not decode is turned away as invalid and
/// yields no identity, whatever role is required, whatever is revoked and
/// whenever it comes.
pub proof fn lemma_undecodable_is_invalid(
    header_values: Seq<Seq<char>>,
    required_role: UserRole,
    secret: Seq<char>,
    revoked: Set<Seq<char>>,
    now: int,
)
    requires
        carries_token(header_values),
        Jwt::decoding(header_values[0], secret) is Err,
    ensures
        authorization(header_values, required_role, secret, revoked, now) == Err::<
            IdentityView,
            AuthError,
        >(AuthError::InvalidToken),
{
}

/// Expiry boundary: at the very second of its expiry a token is still good,
/// one second later it is expired.
pub proof fn lemma_expires_after_expiry(
    claims: Claims,
    required_role: UserRole,
    revoked: Set<Seq<char>>,
)
    ensures
        judgement(claims, required_role, revoked, claims.token_expire_date) != Err::<
            IdentityView,
            AuthError,
        >(AuthError::TokenExpired),
        judgement(claims, required_role, revoked, claims.token_expire_date + 1) == Err::<
            IdentityView,
            AuthError,
        >(AuthError::TokenExpired),
{
}

/// Revocation: once a key is revoked, every request that carries a token
/// with that key, signed with the right secret and not yet expired, is
/// turned away as revoked, whatever role is required.
pub proof fn lemma_revoked_is_turned_away(
    header_values: Seq<Seq<char>>,
    required_role: UserRole,
    secret: Seq<char>,
    revoked: Set<Seq<char>>,
    token_key: Seq<char>,
    now: int,
)
    requires
        carries_token(header_values),
        Jwt::decoding(header_values[0], secret) matches Ok(claims) && claims.token_key
            == token_key && now <= claims.token_expire_date,
    ensures
        authorization(header_values, required_role, secret, revoked.insert(token_key), now)
            == Err::<IdentityView, AuthError>(AuthError::TokenRevoked),
{
}

/// Revocation lasts: a request that is turned away as revoked stays turned
/// away however many more keys are revoked.
pub proof fn lemma_revocation_lasts(
    header_values: Seq<Seq<char>>,
    required_role: UserRole,
    secret: Seq<char>,
    revoked: Set<Seq<char>>,
    more: Set<Seq<char>>,
    now: int,
)
    requires
        authorization(header_values, required_role, secret, revoked, now) == Err::<
            IdentityView,
            AuthError,
        >(AuthError::TokenRevoked),
    ensures
        authorization(header_values, required_role, secret, revoked.union(more), now) == Err::<
            IdentityView,
            AuthError,
        >(AuthError::TokenRevoked),
{
}

/// Role hierarchy: claims that pass the guard for one requirement pass it
/// for every weaker one.
pub proof fn lemma_weaker_requirement_passes(
    claims: Claims,
    strong: UserRole,
    weak: UserRole,
    revoked: Set<Seq<char>>,
    now: int,
)
    requires
        strong.implies(weak),
        judgement(claims, strong, revoked, now) is Ok,
    ensures
        judgement(claims, weak, revoked, now) == judgement(claims, strong, revoked, now),
{
    super::role::lemma_any_implies_weaker(claims.user_roles, strong, weak);
}

} // verus!
