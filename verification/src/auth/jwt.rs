//! Session tokens: the claims they carry, and how they are signed and opened.

use super::payload::{claims_text, parse_claims, read_claims, write_claims};
use super::role::UserRole;
use vstd::prelude::*;
use vstd::string::StringSliceAdditionalSpecFns;
use vstd::utf8::encode_utf8;

verus! {

/// The claims of a session token.
#[derive(Clone, Debug, PartialEq, Eq)]
pub struct Jwt {
    /// Name of the identity that the token was issued to.
    pub user_name: String,
    /// Roles that the identity had when the token was issued.
    pub user_roles: Vec<UserRole>,
    /// Random key of this token, by which it can be revoked.
    pub token_key: String,
    /// Second after which the token is expired, counted from the Unix epoch.
    pub token_expire_date: i64,
}

/// The claims of a session token, as plain mathematical values.
pub struct Claims {
    pub user_name: Seq<char>,
    pub user_roles: Seq<UserRole>,
    pub token_key: Seq<char>,
    pub token_expire_date: int,
}

impl View for Jwt {
    type V = Claims;

    open spec fn view(&self) -> Claims {
        Claims {
            user_name: self.user_name@,
            user_roles: self.user_roles@,
            token_key: self.token_key@,
            token_expire_date: self.token_expire_date as int,
        }
    }
}

/// Why a token could not be made or read.
#[derive(Clone, Copy, Debug, PartialEq, Eq, Structural)]
pub enum JwtError {
    /// The claims could not be turned into a signed token.
    EncodingError,
    /// The signature does not fit the secret, or the token or its payload is
    /// malformed.
    DecodingError,
}

/// The most bytes that a secret may have: the signing library takes the
/// length of its key as a 32-bit signed number.
pub const MAX_SECRET_BYTES: usize = 0x7fff_ffff;

/// Whether a secret is short enough to sign with.
pub open spec fn secret_fits(secret: Seq<char>) -> bool {
    encode_utf8(secret).len() <= MAX_SECRET_BYTES
}

/// `frank_jwt::Error`, the error of the crate frank_jwt.
#[verifier::external_type_specification]
#[verifier::external_body]
pub struct ExTokenFault(frank_jwt::Error);

/// The token that `encode` of the crate frank_jwt makes of a payload, with
/// an empty header and the algorithm HS256: header, payload and signature
/// in base64, joined by dots. Nothing where it fails.
pub uninterp spec fn hs256_token(payload: Seq<char>, secret: Seq<char>) -> Option<Seq<char>>;

/// The payload that `decode` of the crate frank_jwt finds in a token whose
/// HS256 signature fits the secret, as compact JSON. Nothing where the token
/// has no three parts, a part is malformed or the signature does not fit.
pub uninterp spec fn hs256_payload(token: Seq<char>, secret: Seq<char>) -> Option<Seq<char>>;

/// Calls `encode` of the crate frank_jwt on the payload, which
/// `serde_json::from_str` turns into a JSON value first, with an empty
/// header and the algorithm HS256.
///
/// The contract gives the result its name and claims nothing else.
/// `requires` keeps to secrets whose length `PKey::hmac` of the crate
/// openssl, to which `encode` hands the key, takes without panicking.
#[verifier::external_body]
fn sign_hs256(payload: &str, secret: &str) -> (r: Result<String, frank_jwt::Error>)
    requires
        secret.spec_bytes().len() <= 0x7fff_ffff,
    ensures
        match r {
            Ok(token) => hs256_token(payload@, secret@) == Some(token@),
            Err(_) => hs256_token(payload@, secret@) is None,
        },
{
    let claims: serde_json::Value = serde_json::from_str(payload)?;
    let header = serde_json::Value::Object(serde_json::Map::new());
    frank_jwt::encode(header, &secret, &claims, frank_jwt::Algorithm::HS256)
}

/// Calls `decode` of the crate frank_jwt with the algorithm HS256 and with
/// its own test of the expiry switched off, and writes the payload that it
/// returns as compact JSON.
///
/// The contract gives the result its name and claims nothing else.
/// `requires` keeps to secrets whose length `PKey::hmac` of the crate
/// openssl, to which `decode` hands the key, takes without panicking.
#[verifier::external_body]
fn open_hs256(token: &str, secret: &str) -> (r: Result<String, frank_jwt::Error>)
    requires
        secret.spec_bytes().len() <= 0x7fff_ffff,
    ensures
        match r {
            Ok(payload) => hs256_payload(token@, secret@) == Some(payload@),
            Err(_) => hs256_payload(token@, secret@) is None,
        },
{
    let options = frank_jwt::ValidationOptions::dangerous();
    let (_header, payload) = frank_jwt::decode(token, &secret, frank_jwt::Algorithm::HS256, &options)?;
    Ok(payload.to_string())
}

impl Jwt {
    /// What decoding `token` under `secret` comes to: the claims of its
    /// payload where the secret is short enough to sign with, the signature
    /// fits and the payload is well formed. Neither the expiry nor a
    /// revocation is looked at.
    pub open spec fn decoding(token: Seq<char>, secret: Seq<char>) -> Result<Claims, JwtError> {
        if !secret_fits(secret) {
            Err(JwtError::DecodingError)
        } else {
            match hs256_payload(token, secret) {
                Some(payload) => match parse_claims(payload) {
                    Some(claims) => Ok(claims),
                    None => Err(JwtError::DecodingError),
                },
                None => Err(JwtError::DecodingError),
            }
        }
    }

    /// What encoding `claims` under `secret` comes to: the signed token, if
    /// the secret is short enough to sign with and a token could be made that
    /// decodes to the same claims again.
    pub open spec fn encoding(claims: Claims, secret: Seq<char>) -> Result<Seq<char>, JwtError> {
        if !secret_fits(secret) {
            Err(JwtError::EncodingError)
        } else {
            match hs256_token(claims_text(claims), secret) {
                Some(token) => if Jwt::decoding(token, secret) == Ok::<Claims, JwtError>(claims) {
                    Ok(token)
                } else {
                    Err(JwtError::EncodingError)
                },
                None => Err(JwtError::EncodingError),
            }
        }
    }

    /// Whether two tokens carry the same claims.
    pub fn same_claims(&self, other: &Jwt) -> (same: bool)
        ensures
            same == (self@ == other@),
    {
        if self.user_name != other.user_name || self.token_key != other.token_key
            || self.token_expire_date != other.token_expire_date || self.user_roles.len()
            != other.user_roles.len() {
            return false;
        }
        let mut i: usize = 0;
        while i < self.user_roles.len()
            invariant
                i <= self.user_roles.len(),
                self.user_roles.len() == other.user_roles.len(),
                forall|j: int| 0 <= j < i ==> self.user_roles@[j] == other.user_roles@[j],
            decreases self.user_roles.len() - i,
        {
            if self.user_roles[i] != other.user_roles[i] {
                return false;
            }
            i += 1;
        }
        assert(self.user_roles@ =~= other.user_roles@);
        true
    }

    /// Makes the signed token that carries these claims. Before the token is
    /// handed out it is decoded again: a token that would not give back the
    /// claims it was made from is never issued.
    pub fn encode_jwt_string(&self, secret: &String) -> (r: Result<String, JwtError>)
        ensures
            match r {
                Ok(token) => Jwt::encoding(self@, secret@) == Ok::<Seq<char>, JwtError>(token@),
                Err(e) => Jwt::encoding(self@, secret@) == Err::<Seq<char>, JwtError>(e),
            },
    {
        if secret.as_str().as_bytes().len() > MAX_SECRET_BYTES {
            return Err(JwtError::EncodingError);
        }
        let payload = write_claims(self);
        let token = match sign_hs256(payload.as_str(), secret.as_str()) {
            Ok(token) => token,
            Err(_) => {
                return Err(JwtError::EncodingError);
            },
        };
        match Jwt::decode_jwt_string(token.clone(), secret) {
            Ok(read) => if self.same_claims(&read) {
                Ok(token)
            } else {
                Err(JwtError::EncodingError)
            },
            Err(_) => Err(JwtError::EncodingError),
        }
    }

    /// Reads the claims out of a signed token. Fails where the signature does
    /// not fit the secret, where the token has no three parts, and where its
    /// payload is not a well-formed set of claims. Neither the expiry nor a
    /// revocation is looked at.
    pub fn decode_jwt_string(jwt_str: String, secret: &String) -> (r: Result<Jwt, JwtError>)
        ensures
            match r {
                Ok(jwt) => Jwt::decoding(jwt_str@, secret@) == Ok::<Claims, JwtError>(jwt@),
                Err(e) => Jwt::decoding(jwt_str@, secret@) == Err::<Claims, JwtError>(e),
            },
    {
        if secret.as_str().as_bytes().len() > MAX_SECRET_BYTES {
            return Err(JwtError::DecodingError);
        }
        let payload = match open_hs256(jwt_str.as_str(), secret.as_str()) {
            Ok(payload) => payload,
            Err(_) => {
                return Err(JwtError::DecodingError);
            },
        };
        match read_claims(payload.as_str()) {
            Some(jwt) => Ok(jwt),
            None => Err(JwtError::DecodingError),
        }
    }
}

/// Round trip: a token that was made from some claims decodes, under the
/// same secret, to those claims.
pub proof fn lemma_decoding_inverts_encoding(claims: Claims, secret: Seq<char>)
    requires
        Jwt::encoding(claims, secret) is Ok,
    ensures
        Jwt::decoding(Jwt::encoding(claims, secret)->Ok_0, secret) == Ok::<Claims, JwtError>(
            claims,
        ),
{
}

} // verus!
