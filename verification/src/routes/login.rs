//! The route of the login page, `auth/login`.

use crate::text::{text_is, texts_of};
use vstd::prelude::*;

verus! {

/// Whether the segments of a path lead into the pages for authentication:
/// the first segment is `auth`.
pub open spec fn is_auth_path(path_segments: Seq<Seq<char>>) -> bool {
    path_segments.len() > 0 && path_segments[0] == "auth"@
}

/// Whether the segments of a path name the login page: the second segment
/// is `login`.
pub open spec fn is_login_path(path_segments: Seq<Seq<char>>) -> bool {
    path_segments.len() > 1 && path_segments[1] == "login"@
}

/// Whether the login page will try to resolve the route with these path
/// segments.
pub fn will_try_to_route(path_segments: &Vec<String>) -> (will: bool)
    ensures
        will == is_auth_path(texts_of(path_segments@)),
{
    path_segments.len() > 0 && text_is(&path_segments[0], "auth")
}

/// The properties of the login page for the route with these path segments,
/// of which it has none, where the route names the login page.
pub fn resolve_props(path_segments: &Vec<String>) -> (props: Option<()>)
    ensures
        props is Some == is_login_path(texts_of(path_segments@)),
{
    if path_segments.len() > 1 && text_is(&path_segments[1], "login") {
        return Some(());
    }
    None
}

} // verus!
