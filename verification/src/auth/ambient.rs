//! What the library takes from its surroundings: random characters and the
//! time of day.

use vstd::prelude::*;

verus! {

/// Whether `c` is a letter of the English alphabet, in either case, or a
/// digit.
pub open spec fn is_alphanumeric(c: char) -> bool {
    ('A' <= c && c <= 'Z') || ('a' <= c && c <= 'z') || ('0' <= c && c <= '9')
}

/// Whether `s` is made of letters and digits only.
pub open spec fn all_alphanumeric(s: Seq<char>) -> bool {
    forall|i: int| 0 <= i < s.len() ==> is_alphanumeric(#[trigger] s[i])
}

/// Draws `count` characters from `gen_ascii_chars` of the thread's random
/// number generator of the crate rand, each one of `A-Z`, `a-z` or `0-9`.
///
/// The contract says how many characters come back and from which set, and
/// nothing of which they are. The generator panics where the system has no
/// entropy to seed it with.
#[verifier::external_body]
pub(crate) fn random_alphanumeric(count: usize) -> (s: String)
    ensures
        s@.len() == count,
        all_alphanumeric(s@),
{
    rand::Rng::gen_ascii_chars(&mut rand::thread_rng()).take(count).collect()
}

/// Reads the clock through `Utc::now` of the crate chrono: the seconds that
/// have passed since the Unix epoch.
///
/// Nothing is claimed of the result. `Utc::now` panics where the system's
/// clock stands before the Unix epoch.
#[verifier::external_body]
pub(crate) fn unix_now() -> i64 {
    chrono::Utc::now().timestamp()
}

} // verus!
