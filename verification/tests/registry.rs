use chat_session::registry::{position_of, Registry, RosterEvent};
use chat_session::roster::NameMatch;
use chat_session::user::User;

fn user(name: &str, level: i32) -> User {
    User { username: name.to_string(), level }
}

fn names(users: &[User]) -> Vec<&str> {
    users.iter().map(|u| u.username.as_str()).collect()
}

fn registry_of(users: Vec<User>) -> Registry {
    let mut registry = Registry::new();
    registry.replace_all(users);
    registry
}

/// The roster as a plain list of pairs, changed as the events say.
fn replay_on_pairs(start: Vec<(String, i32)>, events: &[RosterEvent]) -> Vec<(String, i32)> {
    let mut pairs = start;
    for event in events {
        match event {
            RosterEvent::Replace(users) => {
                pairs = users.iter().map(|u| (u.username.clone(), u.level)).collect();
            }
            RosterEvent::Join(user) => pairs.push((user.username.clone(), user.level)),
            RosterEvent::Leave(name) => {
                if let Some(at) = pairs.iter().position(|p| &p.0 == name) {
                    pairs.remove(at);
                }
            }
        }
    }
    pairs
}

fn pairs_of(registry: &Registry) -> Vec<(String, i32)> {
    registry.snapshot().into_iter().map(|u| (u.username, u.level)).collect()
}

#[test]
fn new_registry_is_empty() {
    let registry = Registry::new();
    assert_eq!(registry.len(), 0);
    assert!(registry.is_empty());
    assert!(registry.snapshot().is_empty());
    assert!(registry.sorted_desc().is_empty());
}

#[test]
fn replace_all_keeps_the_order_of_the_list() {
    let mut registry = registry_of(vec![user("old", 1)]);
    registry.replace_all(vec![user("bob", 100), user("alice", 500), user("carol", 9999)]);
    assert_eq!(registry.len(), 3);
    assert_eq!(
        registry.snapshot(),
        vec![user("bob", 100), user("alice", 500), user("carol", 9999)]
    );
}

#[test]
fn add_appends_even_a_name_that_is_there() {
    let mut registry = registry_of(vec![user("bob", 100)]);
    registry.add(user("alice", 500));
    registry.add(user("bob", 999));
    assert_eq!(
        registry.snapshot(),
        vec![user("bob", 100), user("alice", 500), user("bob", 999)]
    );
}

#[test]
fn remove_takes_the_first_of_that_name() {
    let mut registry =
        registry_of(vec![user("bob", 100), user("alice", 500), user("bob", 999)]);
    assert!(registry.remove_by_username("bob"));
    assert_eq!(registry.snapshot(), vec![user("alice", 500), user("bob", 999)]);
    assert!(registry.remove_by_username("bob"));
    assert_eq!(registry.snapshot(), vec![user("alice", 500)]);
}

#[test]
fn remove_of_an_absent_name_changes_nothing() {
    let mut registry = registry_of(vec![user("bob", 100), user("alice", 500)]);
    assert!(!registry.remove_by_username("carol"));
    assert!(!registry.remove_by_username("Bob"));
    assert!(!registry.remove_by_username(""));
    assert_eq!(registry.snapshot(), vec![user("bob", 100), user("alice", 500)]);
    let mut empty = Registry::new();
    assert!(!empty.remove_by_username("bob"));
    assert!(empty.is_empty());
}

#[test]
fn find_exact_wants_every_letter() {
    let registry = registry_of(vec![user("Alice", 500), user("alice", 100)]);
    assert_eq!(registry.find("alice", NameMatch::Exact), Some(user("alice", 100)));
    assert_eq!(registry.find("Alice", NameMatch::Exact), Some(user("Alice", 500)));
    assert_eq!(registry.find("ALICE", NameMatch::Exact), None);
}

#[test]
fn find_ignoring_case_takes_the_first_match() {
    let registry = registry_of(vec![user("bob", 1), user("Alice", 500), user("alice", 100)]);
    assert_eq!(registry.find("alice", NameMatch::IgnoreCase), Some(user("Alice", 500)));
    assert_eq!(registry.find("ALICE", NameMatch::IgnoreCase), Some(user("Alice", 500)));
    assert_eq!(registry.find("BOB", NameMatch::IgnoreCase), Some(user("bob", 1)));
    assert_eq!(registry.find("carol", NameMatch::IgnoreCase), None);
}

#[test]
fn find_ignoring_case_follows_unicode() {
    // The Kelvin sign is an upper-case letter whose lower case is the
    // plain k.
    let registry = registry_of(vec![user("\u{212A}arl", 1), user("ÉMILE", 2)]);
    assert_eq!(
        registry.find("karl", NameMatch::IgnoreCase),
        Some(user("\u{212A}arl", 1))
    );
    assert_eq!(registry.find("émile", NameMatch::IgnoreCase), Some(user("ÉMILE", 2)));
    assert_eq!(registry.find("karl", NameMatch::Exact), None);
}

#[test]
fn position_of_gives_the_first_place() {
    let keys: Vec<String> = vec!["a".into(), "b".into(), "a".into(), "".into()];
    assert_eq!(position_of(&keys, &"a".to_string()), Some(0));
    assert_eq!(position_of(&keys, &"b".to_string()), Some(1));
    assert_eq!(position_of(&keys, &"".to_string()), Some(3));
    assert_eq!(position_of(&keys, &"c".to_string()), None);
    assert_eq!(position_of(&Vec::new(), &"a".to_string()), None);
}

#[test]
fn sorted_desc_lists_the_latest_name_first() {
    let registry = registry_of(vec![user("bob", 1), user("alice", 2), user("carol", 3)]);
    assert_eq!(names(&registry.sorted_desc()), vec!["carol", "bob", "alice"]);
    // the registry itself keeps its order
    assert_eq!(names(&registry.snapshot()), vec!["bob", "alice", "carol"]);
}

#[test]
fn sorted_desc_goes_by_bytes() {
    let registry = registry_of(vec![
        user("alice", 1),
        user("Alice", 2),
        user("Zed", 3),
        user("émile", 4),
        user("", 5),
        user("al", 6),
    ]);
    assert_eq!(
        names(&registry.sorted_desc()),
        vec!["émile", "alice", "al", "Zed", "Alice", ""]
    );
}

#[test]
fn sorted_desc_keeps_users_of_one_name_in_order() {
    let registry = registry_of(vec![
        user("bob", 1),
        user("alice", 2),
        user("bob", 3),
        user("alice", 4),
        user("bob", 5),
    ]);
    assert_eq!(
        registry.sorted_desc(),
        vec![user("bob", 1), user("bob", 3), user("bob", 5), user("alice", 2), user("alice", 4)]
    );
}

#[test]
fn sorted_desc_agrees_with_a_stable_sort() {
    let users = vec![
        user("m", 0), user("a", 1), user("z", 2), user("m", 3), user("b", 4), user("z", 5),
        user("a", 6), user("k", 7), user("", 8), user("mm", 9),
    ];
    let registry = registry_of(users.clone());
    let mut expected = users;
    expected.sort_by(|a, b| b.username.cmp(&a.username));
    assert_eq!(registry.sorted_desc(), expected);
}

#[test]
fn apply_follows_each_kind_of_event() {
    let mut registry = Registry::new();
    registry.apply(&RosterEvent::Join(user("bob", 1)));
    registry.apply(&RosterEvent::Join(user("alice", 2)));
    assert_eq!(names(&registry.snapshot()), vec!["bob", "alice"]);
    registry.apply(&RosterEvent::Leave("bob".to_string()));
    assert_eq!(names(&registry.snapshot()), vec!["alice"]);
    registry.apply(&RosterEvent::Replace(vec![user("x", 1), user("y", 2)]));
    assert_eq!(registry.snapshot(), vec![user("x", 1), user("y", 2)]);
    registry.apply(&RosterEvent::Leave("nobody".to_string()));
    assert_eq!(registry.snapshot(), vec![user("x", 1), user("y", 2)]);
}

#[test]
fn replay_equals_the_replay_on_a_plain_list() {
    let events = vec![
        RosterEvent::Join(user("early", 1)),
        RosterEvent::Replace(vec![user("bob", 100), user("alice", 500)]),
        RosterEvent::Join(user("carol", 9999)),
        RosterEvent::Join(user("bob", 7)),
        RosterEvent::Leave("bob".to_string()),
        RosterEvent::Leave("nobody".to_string()),
        RosterEvent::Join(user("dave", 3)),
        RosterEvent::Leave("alice".to_string()),
    ];
    let mut registry = registry_of(vec![user("start", 0)]);
    registry.replay(&events);
    assert_eq!(
        pairs_of(&registry),
        replay_on_pairs(vec![("start".to_string(), 0)], &events)
    );
    assert_eq!(
        registry.snapshot(),
        vec![user("carol", 9999), user("bob", 7), user("dave", 3)]
    );
}

#[test]
fn replay_of_nothing_changes_nothing() {
    let mut registry = registry_of(vec![user("bob", 1)]);
    registry.replay(&Vec::new());
    assert_eq!(registry.snapshot(), vec![user("bob", 1)]);
}

#[test]
fn replay_of_every_short_list_of_events_matches_the_plain_list() {
    let pool = |i: usize| match i {
        0 => RosterEvent::Replace(vec![user("a", 1), user("b", 2)]),
        1 => RosterEvent::Replace(Vec::new()),
        2 => RosterEvent::Join(user("a", 3)),
        3 => RosterEvent::Join(user("c", 4)),
        4 => RosterEvent::Leave("a".to_string()),
        _ => RosterEvent::Leave("c".to_string()),
    };
    for x in 0..6 {
        for y in 0..6 {
            for z in 0..6 {
                for w in 0..6 {
                    let events = vec![pool(x), pool(y), pool(z), pool(w)];
                    let mut registry = registry_of(vec![user("a", 0), user("c", 0)]);
                    registry.replay(&events);
                    let start = vec![("a".to_string(), 0), ("c".to_string(), 0)];
                    assert_eq!(pairs_of(&registry), replay_on_pairs(start, &events));
                }
            }
        }
    }
}
