use flowerchat::role::Role;
use std::str::FromStr;

#[test]
fn test_roles() {
    const ROLES: &[Role] = &[
        Role::User,
        Role::Moderator,
        Role::Administrator,
        Role::Owner
    ];

    for i in 1..ROLES.len() {
        assert!(ROLES[i] > ROLES[i - 1]);
    }

    for role in ROLES {
        assert_eq!(Role::from_str(&role.to_string()), Ok(*role));
    }
}

#[test]
fn role_synonyms_and_unknown_words() {
    assert_eq!(Role::parse("member"), Ok(Role::User));
    assert_eq!(Role::parse("mod"), Ok(Role::Moderator));
    assert_eq!(Role::parse("moder"), Ok(Role::Moderator));
    assert_eq!(Role::parse("admin"), Ok(Role::Administrator));
    assert_eq!(Role::parse("creator"), Ok(Role::Owner));
    assert_eq!(Role::parse("author"), Ok(Role::Owner));
    assert_eq!(Role::parse("Owner"), Err(String::from("Owner")));
    assert_eq!(Role::parse(""), Err(String::new()));
    assert_eq!(Role::default(), Role::User);
    assert!(Role::User.is_below(&Role::Owner));
    assert!(!Role::Owner.is_below(&Role::Owner));
    assert!(!Role::Administrator.is_below(&Role::Moderator));
    assert_eq!(Role::Administrator.as_str(), "administrator");
}
