use chat_session::user::{Level, User};

fn user(name: &str, level: i32) -> User {
    User { username: name.to_string(), level }
}

#[test]
fn level_values_are_the_protocol_numbers() {
    assert_eq!(Level::Default.value(), 100);
    assert_eq!(Level::Trusted.value(), 500);
    assert_eq!(Level::ChanTrusted.value(), 8999);
    assert_eq!(Level::ChanMod.value(), 9999);
    assert_eq!(Level::ChanOwner.value(), 99999);
    assert_eq!(Level::Mod.value(), 999999);
    assert_eq!(Level::Admin.value(), 9999999);
}

#[test]
fn has_level_compares_with_the_value() {
    let trusted = user("alice", 500);
    assert!(trusted.has_level(Level::Default));
    assert!(trusted.has_level(Level::Trusted));
    assert!(!trusted.has_level(Level::ChanTrusted));
    assert!(!trusted.has_level(Level::Admin));
}

#[test]
fn has_level_at_the_edges() {
    assert!(!user("low", 99).has_level(Level::Default));
    assert!(user("low", 100).has_level(Level::Default));
    assert!(user("top", i32::MAX).has_level(Level::Admin));
    assert!(!user("neg", i32::MIN).has_level(Level::Default));
    assert!(!user("almost", 9999998).has_level(Level::Admin));
}

#[test]
fn clone_keeps_name_and_level() {
    let first = user("carol", 9999);
    let copy = first.clone();
    assert_eq!(copy, first);
    assert_eq!(copy.username, "carol");
    assert_eq!(copy.level, 9999);
}
