//! Salted one-way hashing of passwords with scrypt, and their verification.
//!
//! A stored hash has the form `$rscrypt$0$<cost>$<salt>$<key>$`, where the
//! three fields are written in base64 and `<cost>` holds the cost parameters
//! of scrypt in three bytes.

use crate::text::{chars_of, has_at, starts_with};
use vstd::prelude::*;

verus! {

/// Why a password could not be hashed or checked.
#[derive(Clone, Copy, Debug, PartialEq, Eq, Structural)]
pub enum HashingError {
    /// The hash could not be computed, for want of random numbers or
    /// because the result was not of the expected form.
    HashingFailed,
    /// The stored hash is not of the form described above, or asks for more
    /// work than this library is willing to do.
    MalformedHash,
}

/// Base-two logarithm of the scrypt parameter `N` that new hashes are made
/// with.
pub const HASH_LOG_N: u8 = 12;

/// Scrypt parameter `r` that new hashes are made with.
pub const HASH_R: u32 = 8;

/// Scrypt parameter `p` that new hashes are made with.
pub const HASH_P: u32 = 1;

/// Largest base-two logarithm of `N` that is accepted in a stored hash.
pub const MAX_LOG_N: u8 = 16;

/// Largest `r` that is accepted in a stored hash.
pub const MAX_R: u32 = 16;

/// Largest `p` that is accepted in a stored hash.
pub const MAX_P: u32 = 16;

/// Largest number of characters that is accepted in a stored hash.
pub const MAX_HASH_LEN: usize = 1024;

/// Whether scrypt can run with these cost parameters and this library is
/// willing to let it.
pub open spec fn cost_supported(log_n: nat, r: nat, p: nat) -> bool {
    &&& 1 <= log_n <= MAX_LOG_N
    &&& 1 <= r <= MAX_R
    &&& 1 <= p <= MAX_P
    &&& log_n < r * 16
}

/// The six bits that a character of the base64 alphabet stands for.
pub open spec fn base64_value(c: char) -> Option<nat> {
    if 'A' <= c && c <= 'Z' {
        Some((c as int - 'A' as int) as nat)
    } else if 'a' <= c && c <= 'z' {
        Some((c as int - 'a' as int + 26) as nat)
    } else if '0' <= c && c <= '9' {
        Some((c as int - '0' as int + 52) as nat)
    } else if c == '+' {
        Some(62)
    } else if c == '/' {
        Some(63)
    } else {
        None
    }
}

/// The cost parameters `(log_n, r, p)` that four base64 characters at
/// position `i` stand for: three bytes, one for each parameter.
pub open spec fn parse_cost(h: Seq<char>, i: int) -> Option<(nat, nat, nat)> {
    if 0 <= i && i + 4 <= h.len() {
        match (
            base64_value(h[i]),
            base64_value(h[i + 1]),
            base64_value(h[i + 2]),
            base64_value(h[i + 3]),
        ) {
            (Some(a), Some(b), Some(c), Some(d)) => Some(
                (a * 4 + b / 16, (b % 16) * 16 + c / 4, (c % 4) * 64 + d),
            ),
            _ => None,
        }
    } else {
        None
    }
}

/// The first position at or after `i` that holds a `$`, or the length of the
/// text where there is none.
pub open spec fn next_dollar(h: Seq<char>, i: int) -> int
    decreases h.len() - i,
{
    if 0 <= i < h.len() && h[i] != '$' {
        next_dollar(h, i + 1)
    } else {
        i
    }
}

/// What every stored hash starts with: the name of the format and the mark
/// of its compact form.
pub open spec fn hash_prefix() -> Seq<char> {
    seq!['$', 'r', 's', 'c', 'r', 'y', 'p', 't', '$', '0', '$']
}

/// Whether `h` is a stored hash that this library checks passwords against:
/// it starts with `$rscrypt$0$`, then holds four base64 characters that
/// stand for supported cost parameters, a `$`, a salt, a `$`, a key that
/// starts with a base64 character, and a `$` at its very end.
///
/// This is narrower than what scrypt can read. The bounds `MAX_LOG_N`,
/// `MAX_R`, `MAX_P` and `MAX_HASH_LEN` are a ceiling on the work and the
/// memory that a stored hash may ask for; the expanded form `$rscrypt$1$`
/// only serves costs beyond that ceiling and is not accepted at all.
pub open spec fn acceptable_hash(h: Seq<char>) -> bool {
    &&& h.len() <= MAX_HASH_LEN
    &&& has_at(h, 0, hash_prefix())
    &&& match parse_cost(h, 11) {
        Some((log_n, r, p)) => cost_supported(log_n, r, p),
        None => false,
    }
    &&& 15 < h.len()
    &&& h[15] == '$'
    &&& {
        let salt_end = next_dollar(h, 16);
        let key_end = next_dollar(h, salt_end + 1);
        &&& salt_end + 1 < key_end
        &&& key_end + 1 == h.len()
        &&& base64_value(h[salt_end + 1]) is Some
    }
}

/// What `scrypt_check` of the crate rust-crypto makes of a password and a
/// stored hash: whether they match, or nothing where it cannot read the
/// hash.
pub uninterp spec fn scrypt_verdict(password: Seq<char>, hash: Seq<char>) -> Option<bool>;

/// `std::io::Error`, the error of the random number source.
#[verifier::external_type_specification]
#[verifier::external_body]
pub struct ExIoError(std::io::Error);

/// Calls `ScryptParams::new` and `scrypt_simple` of the crate rust-crypto,
/// which draws a fresh salt and gives the stored hash for the password.
///
/// The contract claims that `scrypt_check` finds the password to match the
/// hash that comes back. `requires` keeps to parameters that
/// `ScryptParams::new` takes without panicking.
#[verifier::external_body]
fn scrypt_simple_hash(password: &str, log_n: u8, r: u32, p: u32) -> (hash: Result<
    String,
    std::io::Error,
>)
    requires
        cost_supported(log_n as nat, r as nat, p as nat),
    ensures
        hash matches Ok(h) ==> scrypt_verdict(password@, h@) == Some(true),
{
    let params = crypto::scrypt::ScryptParams::new(log_n, r, p);
    crypto::scrypt::scrypt_simple(password, &params)
}

/// Calls `scrypt_check` of the crate rust-crypto, which reads the cost
/// parameters, the salt and the key out of the stored hash, derives a key
/// from the password and compares the two.
///
/// `requires` keeps to hashes on which `scrypt_check` does not panic: those
/// whose cost parameters `ScryptParams::new` takes and whose key is not
/// empty.
#[verifier::external_body]
fn scrypt_check_hash(password: &str, hash: &str) -> (verdict: Result<bool, &'static str>)
    requires
        acceptable_hash(hash@),
    ensures
        match verdict {
            Ok(b) => scrypt_verdict(password@, hash@) == Some(b),
            Err(_) => scrypt_verdict(password@, hash@) is None,
        },
{
    crypto::scrypt::scrypt_check(password, hash)
}

fn base64_digit(c: char) -> (v: Option<u32>)
    ensures
        match v {
            Some(bits) => base64_value(c) == Some(bits as nat) && bits < 64,
            None => base64_value(c) is None,
        },
{
    if 'A' <= c && c <= 'Z' {
        Some(c as u32 - 65)
    } else if 'a' <= c && c <= 'z' {
        Some(c as u32 - 97 + 26)
    } else if '0' <= c && c <= '9' {
        Some(c as u32 - 48 + 52)
    } else if c == '+' {
        Some(62)
    } else if c == '/' {
        Some(63)
    } else {
        None
    }
}

fn read_cost(h: &Vec<char>, i: usize) -> (cost: Option<(u32, u32, u32)>)
    requires
        i <= h.len(),
    ensures
        match cost {
            Some((log_n, r, p)) => parse_cost(h@, i as int) == Some(
                (log_n as nat, r as nat, p as nat),
            ) && log_n < 256 && r < 256 && p < 256,
            None => parse_cost(h@, i as int) is None,
        },
{
    if h.len() - i < 4 {
        return None;
    }
    match (
        base64_digit(h[i]),
        base64_digit(h[i + 1]),
        base64_digit(h[i + 2]),
        base64_digit(h[i + 3]),
    ) {
        (Some(a), Some(b), Some(c), Some(d)) => Some(
            (a * 4 + b / 16, (b % 16) * 16 + c / 4, (c % 4) * 64 + d),
        ),
        _ => None,
    }
}

fn find_dollar(h: &Vec<char>, i: usize) -> (at: usize)
    requires
        i <= h.len(),
    ensures
        at == next_dollar(h@, i as int),
        i <= at <= h.len(),
{
    let mut j: usize = i;
    while j < h.len() && h[j] != '$'
        invariant
            i <= j <= h.len(),
            next_dollar(h@, i as int) == next_dollar(h@, j as int),
        decreases h.len() - j,
    {
        j += 1;
    }
    j
}

fn cost_is_supported(log_n: u32, r: u32, p: u32) -> (yes: bool)
    requires
        r < 256,
    ensures
        yes == cost_supported(log_n as nat, r as nat, p as nat),
{
    1 <= log_n && log_n <= MAX_LOG_N as u32 && 1 <= r && r <= MAX_R && 1 <= p && p <= MAX_P
        && log_n < r * 16
}

/// Whether `h` is a stored hash that this library checks passwords against.
pub fn is_acceptable_hash(h: &Vec<char>) -> (yes: bool)
    ensures
        yes == acceptable_hash(h@),
{
    proof {
        reveal_strlit("$rscrypt$0$");
        assert("$rscrypt$0$"@ =~= hash_prefix());
    }
    if h.len() > MAX_HASH_LEN || !starts_with(h, "$rscrypt$0$") {
        return false;
    }
    match read_cost(h, 11) {
        Some((log_n, r, p)) => {
            if !cost_is_supported(log_n, r, p) {
                return false;
            }
        },
        None => {
            return false;
        },
    }
    if h.len() <= 15 || h[15] != '$' {
        return false;
    }
    let salt_end: usize = find_dollar(h, 16);
    if salt_end >= h.len() {
        return false;
    }
    let key_end: usize = find_dollar(h, salt_end + 1);
    if salt_end + 1 >= key_end || key_end >= h.len() || key_end + 1 != h.len() {
        return false;
    }
    base64_digit(h[salt_end + 1]).is_some()
}

/// What checking `password` against the stored hash `hash` comes to.
pub open spec fn verification(password: Seq<char>, hash: Seq<char>) -> Result<bool, HashingError> {
    if !acceptable_hash(hash) {
        Err(HashingError::MalformedHash)
    } else {
        match scrypt_verdict(password, hash) {
            Some(matches) => Ok(matches),
            None => Err(HashingError::MalformedHash),
        }
    }
}

/// Checks a password against a stored hash. A hash of the right form that
/// was made from another password gives `Ok(false)`; a hash that is
/// malformed gives an error. So does a hash that is well formed but asks for
/// more work than the ceiling of `acceptable_hash` allows: the check is not
/// run on it.
pub fn verify_hash(password: &str, expected_hash: &str) -> (r: Result<bool, HashingError>)
    ensures
        r == verification(password@, expected_hash@),
{
    let h = chars_of(expected_hash);
    if !is_acceptable_hash(&h) {
        return Err(HashingError::MalformedHash);
    }
    match scrypt_check_hash(password, expected_hash) {
        Ok(matches) => Ok(matches),
        Err(_) => Err(HashingError::MalformedHash),
    }
}

/// What is made of a hash that was newly drawn for a password: it is handed
/// out where it has the form of a stored hash and carries the cost
/// `HASH_LOG_N`, `HASH_R`, `HASH_P`, and is an error otherwise.
pub open spec fn new_hash_outcome(drawn: Seq<char>) -> Result<Seq<char>, HashingError> {
    if acceptable_hash(drawn) && parse_cost(drawn, 11) == Some(
        (HASH_LOG_N as nat, HASH_R as nat, HASH_P as nat),
    ) {
        Ok(drawn)
    } else {
        Err(HashingError::HashingFailed)
    }
}

/// Looks a newly drawn hash over before it is handed out: it must have the
/// form of a stored hash and carry the cost that new hashes are made with.
pub fn accept_new_hash(drawn: String) -> (r: Result<String, HashingError>)
    ensures
        match r {
            Ok(hash) => new_hash_outcome(drawn@) == Ok::<Seq<char>, HashingError>(hash@),
            Err(e) => new_hash_outcome(drawn@) == Err::<Seq<char>, HashingError>(e),
        },
{
    let h = chars_of(drawn.as_str());
    if !is_acceptable_hash(&h) {
        return Err(HashingError::HashingFailed);
    }
    match read_cost(&h, 11) {
        Some((log_n, r, p)) => if log_n == HASH_LOG_N as u32 && r == HASH_R && p == HASH_P {
            Ok(drawn)
        } else {
            Err(HashingError::HashingFailed)
        },
        None => Err(HashingError::HashingFailed),
    }
}

/// Hashes a password with a fresh random salt, which becomes part of the
/// hash, at the cost `HASH_LOG_N`, `HASH_R`, `HASH_P`. Every hash that comes
/// back has passed `accept_new_hash` and verifies against the password.
pub fn hash_password(password: &str) -> (r: Result<String, HashingError>)
    ensures
        match r {
            Ok(hash) => verification(password@, hash@) == Ok::<bool, HashingError>(true)
                && new_hash_outcome(hash@) == Ok::<Seq<char>, HashingError>(hash@),
            Err(e) => e == HashingError::HashingFailed,
        },
{
    match scrypt_simple_hash(password, HASH_LOG_N, HASH_R, HASH_P) {
        Ok(drawn) => accept_new_hash(drawn),
        Err(_) => Err(HashingError::HashingFailed),
    }
}

} // verus!
