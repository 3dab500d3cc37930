//! The routes of the forum pages: `/` for the list of forums, `/7` for a
//! forum, `/7/12` for a thread of it and `/7/create` for the form that
//! starts a new thread in it.

use crate::decimal::{decimal_text, lemma_parse_i32_decimal, parse_i32, push_decimal, read_i32};
use crate::text::{chars_of, push_str, text_is, texts_of};
use vstd::prelude::*;

verus! {

/// A page of the forum.
#[derive(Debug, PartialEq, Eq, Clone, Copy, Structural)]
pub enum ForumRoute {
    ForumList,
    Forum { forum_id: i32 },
    Thread { forum_id: i32, thread_id: i32 },
    CreateThread { forum_id: i32 },
}

impl Default for ForumRoute {
    /// The list of forums.
    fn default() -> (route: ForumRoute)
        ensures
            route == ForumRoute::ForumList,
    {
        ForumRoute::ForumList
    }
}

impl ForumRoute {
    /// The forum that the page belongs to, if it belongs to one.
    pub open spec fn forum(self) -> Option<i32> {
        match self {
            ForumRoute::ForumList => None,
            ForumRoute::Forum { forum_id } => Some(forum_id),
            ForumRoute::Thread { forum_id, .. } => Some(forum_id),
            ForumRoute::CreateThread { forum_id } => Some(forum_id),
        }
    }

    /// The segments of the page's path.
    pub open spec fn segments(self) -> Seq<Seq<char>> {
        match self {
            ForumRoute::ForumList => Seq::<Seq<char>>::empty(),
            ForumRoute::Forum { forum_id } => seq![decimal_text(forum_id as int)],
            ForumRoute::Thread { forum_id, thread_id } => seq![
                decimal_text(forum_id as int),
                decimal_text(thread_id as int),
            ],
            ForumRoute::CreateThread { forum_id } => seq![
                decimal_text(forum_id as int),
                "create"@,
            ],
        }
    }

    /// The page's path: a slash, then the segments with slashes between
    /// them.
    pub open spec fn path(self) -> Seq<char> {
        match self {
            ForumRoute::ForumList => seq!['/'],
            ForumRoute::Forum { forum_id } => seq!['/'] + decimal_text(forum_id as int),
            ForumRoute::Thread { forum_id, thread_id } => seq!['/'] + decimal_text(
                forum_id as int,
            ) + seq!['/'] + decimal_text(thread_id as int),
            ForumRoute::CreateThread { forum_id } => seq!['/'] + decimal_text(forum_id as int)
                + seq!['/'] + "create"@,
        }
    }

    /// The page that the segments of a path stand for. A path whose first
    /// segment is no number stands for the list of forums, as the empty path
    /// does. Where a forum is named, the second segment must be `create` or
    /// the number of a thread; further segments are not looked at.
    pub open spec fn parsed(segments: Seq<Seq<char>>) -> Option<ForumRoute> {
        if segments.len() == 0 {
            Some(ForumRoute::ForumList)
        } else {
            match parse_i32(segments[0]) {
                None => Some(ForumRoute::ForumList),
                Some(forum) => if segments.len() == 1 {
                    Some(ForumRoute::Forum { forum_id: forum as i32 })
                } else if segments[1] == "create"@ {
                    Some(ForumRoute::CreateThread { forum_id: forum as i32 })
                } else {
                    match parse_i32(segments[1]) {
                        Some(thread) => Some(
                            ForumRoute::Thread { forum_id: forum as i32, thread_id: thread as i32 },
                        ),
                        None => None,
                    }
                },
            }
        }
    }

    /// The forum that the page belongs to, if it belongs to one.
    pub fn get_forum_id(&self) -> (id: Option<i32>)
        ensures
            id == self.forum(),
    {
        match self {
            ForumRoute::Forum { forum_id } => Some(*forum_id),
            ForumRoute::Thread { forum_id, .. } => Some(*forum_id),
            ForumRoute::CreateThread { forum_id } => Some(*forum_id),
            _ => None,
        }
    }

    /// The page's path.
    pub fn to_route(&self) -> (path: String)
        ensures
            path@ == self.path(),
    {
        let mut path = String::new();
        path.push('/');
        match *self {
            ForumRoute::ForumList => {},
            ForumRoute::Forum { forum_id } => {
                push_decimal(&mut path, forum_id as i64);
            },
            ForumRoute::Thread { forum_id, thread_id } => {
                push_decimal(&mut path, forum_id as i64);
                path.push('/');
                push_decimal(&mut path, thread_id as i64);
            },
            ForumRoute::CreateThread { forum_id } => {
                push_decimal(&mut path, forum_id as i64);
                path.push('/');
                push_str(&mut path, "create");
            },
        }
        assert(path@ =~= self.path());
        path
    }

    /// The page that the segments of a path stand for.
    pub fn from_route(segments: &Vec<String>) -> (route: Option<ForumRoute>)
        ensures
            route == ForumRoute::parsed(texts_of(segments@)),
    {
        if segments.len() == 0 {
            return Some(ForumRoute::ForumList);
        }
        let first = chars_of(segments[0].as_str());
        match read_i32(&first) {
            Some(forum_id) => {
                if segments.len() == 1 {
                    Some(ForumRoute::Forum { forum_id })
                } else if text_is(&segments[1], "create") {
                    Some(ForumRoute::CreateThread { forum_id })
                } else {
                    let second = chars_of(segments[1].as_str());
                    match read_i32(&second) {
                        Some(thread_id) => Some(ForumRoute::Thread { forum_id, thread_id }),
                        None => None,
                    }
                }
            },
            None => Some(ForumRoute::ForumList),
        }
    }
}

/// Every page is found again from the segments of its path.
pub proof fn lemma_route_found_again(route: ForumRoute)
    ensures
        ForumRoute::parsed(route.segments()) == Some(route),
{
    match route {
        ForumRoute::ForumList => {},
        ForumRoute::Forum { forum_id } => {
            lemma_parse_i32_decimal(forum_id as int);
        },
        ForumRoute::Thread { forum_id, thread_id } => {
            lemma_parse_i32_decimal(forum_id as int);
            lemma_parse_i32_decimal(thread_id as int);
            reveal_strlit("create");
            assert("create"@[0] == 'c');
        },
        ForumRoute::CreateThread { forum_id } => {
            lemma_parse_i32_decimal(forum_id as int);
        },
    }
}

} // verus!
