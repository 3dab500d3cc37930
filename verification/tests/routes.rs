use weekend_at_joes::auth::role::roles_from_ids;
use weekend_at_joes::auth::UserRole;
use weekend_at_joes::decimal::read_i32;
use weekend_at_joes::routes::forum::ForumRoute;
use weekend_at_joes::routes::login::{resolve_props, will_try_to_route};

fn segments(path: &[&str]) -> Vec<String> {
    path.iter().map(|segment| segment.to_string()).collect()
}

fn number(text: &str) -> Option<i32> {
    read_i32(&text.chars().collect())
}

#[test]
fn whole_texts_are_read_as_numbers() {
    assert_eq!(number("0"), Some(0));
    assert_eq!(number("7"), Some(7));
    assert_eq!(number("+7"), Some(7));
    assert_eq!(number("-7"), Some(-7));
    assert_eq!(number("007"), Some(7));
    assert_eq!(number("-0"), Some(0));
    assert_eq!(number("2147483647"), Some(i32::MAX));
    assert_eq!(number("-2147483648"), Some(i32::MIN));
    assert_eq!(number("00000000000000000000002147483647"), Some(i32::MAX));
    assert_eq!(number("2147483648"), None);
    assert_eq!(number("-2147483649"), None);
    assert_eq!(number("99999999999999999999"), None);
    assert_eq!(number(""), None);
    assert_eq!(number("+"), None);
    assert_eq!(number("-"), None);
    assert_eq!(number("--1"), None);
    assert_eq!(number("1 "), None);
    assert_eq!(number(" 1"), None);
    assert_eq!(number("1a"), None);
    assert_eq!(number("12345678901a"), None);
    assert_eq!(number("create"), None);
    assert_eq!(number("\u{661}"), None);
}

#[test]
fn numbers_are_read_as_the_standard_library_reads_them() {
    for text in ["0", "+7", "-7", "007", "-0", "2147483647", "2147483648", "-2147483648", "", "+", "-", "1 ", "1_0", "0x10", "1e3"] {
        assert_eq!(number(text), text.parse::<i32>().ok(), "{:?}", text);
    }
}

#[test]
fn forum_routes_have_paths() {
    assert_eq!(ForumRoute::ForumList.to_route(), "/");
    assert_eq!(ForumRoute::Forum { forum_id: 7 }.to_route(), "/7");
    assert_eq!(ForumRoute::Thread { forum_id: 7, thread_id: 12 }.to_route(), "/7/12");
    assert_eq!(ForumRoute::CreateThread { forum_id: 7 }.to_route(), "/7/create");
    assert_eq!(
        ForumRoute::Thread { forum_id: i32::MIN, thread_id: i32::MAX }.to_route(),
        "/-2147483648/2147483647"
    );
}

#[test]
fn forum_routes_are_found_from_segments() {
    assert_eq!(ForumRoute::from_route(&segments(&[])), Some(ForumRoute::ForumList));
    assert_eq!(ForumRoute::from_route(&segments(&["forums"])), Some(ForumRoute::ForumList));
    assert_eq!(ForumRoute::from_route(&segments(&[""])), Some(ForumRoute::ForumList));
    assert_eq!(ForumRoute::from_route(&segments(&["x", "12"])), Some(ForumRoute::ForumList));
    assert_eq!(ForumRoute::from_route(&segments(&["7"])), Some(ForumRoute::Forum { forum_id: 7 }));
    assert_eq!(
        ForumRoute::from_route(&segments(&["7", "12"])),
        Some(ForumRoute::Thread { forum_id: 7, thread_id: 12 })
    );
    assert_eq!(
        ForumRoute::from_route(&segments(&["7", "create"])),
        Some(ForumRoute::CreateThread { forum_id: 7 })
    );
    assert_eq!(
        ForumRoute::from_route(&segments(&["7", "12", "more"])),
        Some(ForumRoute::Thread { forum_id: 7, thread_id: 12 })
    );
    assert_eq!(ForumRoute::from_route(&segments(&["7", "Create"])), None);
    assert_eq!(ForumRoute::from_route(&segments(&["7", ""])), None);
    assert_eq!(ForumRoute::from_route(&segments(&["7", "2147483648"])), None);
    assert_eq!(ForumRoute::from_route(&segments(&["2147483648", "1"])), Some(ForumRoute::ForumList));
}

#[test]
fn forum_routes_round_trip() {
    for route in [
        ForumRoute::ForumList,
        ForumRoute::Forum { forum_id: 0 },
        ForumRoute::Forum { forum_id: -3 },
        ForumRoute::Thread { forum_id: 1, thread_id: i32::MAX },
        ForumRoute::Thread { forum_id: i32::MIN, thread_id: -1 },
        ForumRoute::CreateThread { forum_id: 99 },
    ] {
        let path = route.to_route();
        let parts: Vec<String> =
            path.split('/').filter(|part| !part.is_empty()).map(|part| part.to_string()).collect();
        assert_eq!(ForumRoute::from_route(&parts), Some(route));
    }
}

#[test]
fn forum_routes_know_their_forum() {
    assert_eq!(ForumRoute::default(), ForumRoute::ForumList);
    assert_eq!(ForumRoute::ForumList.get_forum_id(), None);
    assert_eq!(ForumRoute::Forum { forum_id: 7 }.get_forum_id(), Some(7));
    assert_eq!(ForumRoute::Thread { forum_id: 8, thread_id: 1 }.get_forum_id(), Some(8));
    assert_eq!(ForumRoute::CreateThread { forum_id: 9 }.get_forum_id(), Some(9));
}

#[test]
fn login_page_is_routed() {
    assert!(will_try_to_route(&segments(&["auth"])));
    assert!(will_try_to_route(&segments(&["auth", "create"])));
    assert!(!will_try_to_route(&segments(&[])));
    assert!(!will_try_to_route(&segments(&["forums", "auth"])));
    assert!(!will_try_to_route(&segments(&["Auth"])));
    assert_eq!(resolve_props(&segments(&["auth", "login"])), Some(()));
    assert_eq!(resolve_props(&segments(&["anything", "login", "more"])), Some(()));
    assert_eq!(resolve_props(&segments(&["auth"])), None);
    assert_eq!(resolve_props(&segments(&["login"])), None);
    assert_eq!(resolve_props(&segments(&["auth", "create"])), None);
    assert_eq!(resolve_props(&segments(&[])), None);
}

#[test]
fn roles_have_numbers_in_the_store() {
    let all = [UserRole::Unprivileged, UserRole::NormalUser, UserRole::Moderator, UserRole::Admin];
    for (i, role) in all.iter().enumerate() {
        assert_eq!(role.role_id(), i as i32 + 1);
        assert_eq!(UserRole::from_role_id(role.role_id()), Some(*role));
    }
    assert_eq!(UserRole::from_role_id(0), None);
    assert_eq!(UserRole::from_role_id(5), None);
    assert_eq!(UserRole::from_role_id(-1), None);
    assert_eq!(
        roles_from_ids(&vec![3, 0, 1, 9, 3, 4, 2]),
        vec![
            UserRole::Moderator,
            UserRole::Unprivileged,
            UserRole::Unprivileged,
            UserRole::Unprivileged,
            UserRole::Moderator,
            UserRole::Admin,
            UserRole::NormalUser
        ]
    );
    assert_eq!(roles_from_ids(&vec![i32::MIN, i32::MAX]), vec![UserRole::Unprivileged; 2]);
    assert_eq!(roles_from_ids(&vec![]), vec![]);
}
