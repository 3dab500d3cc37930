//! Verified core of the forum server: password hashing, signed session
//! tokens, login, request authorization and token revocation.

use vstd::prelude::*;

pub mod auth;
pub mod db;
pub mod decimal;
pub mod json;
pub mod requests;
pub mod routes;
pub mod text;

verus! {

/// Prefixes a route path with the API mount point.
///
/// `path` is expected to start with a `/`.
pub fn format_api(path: &str) -> (full: String)
    ensures
        full@ == "/api"@ + path@,
{
    let mut full = String::new();
    text::push_str(&mut full, "/api");
    text::push_str(&mut full, path);
    full
}

} // verus!
