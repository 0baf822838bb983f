use ocean::clans::ClanSystem;

#[test]
fn members_join_in_order_and_are_counted() {
    let mut registry = ClanSystem::new();
    registry.add_member("red", "Pinch");
    registry.add_member("red", "Snippy");
    assert_eq!(registry.get_clan_member_names("red"), vec!["Pinch", "Snippy"]);
    assert_eq!(registry.get_clan_member_count("red"), 2);
    assert_eq!(registry.get_clan_count(), 1);
}

#[test]
fn unknown_clan_reads_as_empty() {
    let registry = ClanSystem::new();
    assert!(registry.get_clan_member_names("ghost").is_empty());
    assert_eq!(registry.get_clan_member_count("ghost"), 0);
    assert_eq!(registry.get_clan_count(), 0);
}

#[test]
fn duplicate_names_are_permitted() {
    let mut registry = ClanSystem::new();
    registry.add_member("red", "Pinch");
    registry.add_member("red", "Pinch");
    assert_eq!(registry.get_clan_member_names("red"), vec!["Pinch", "Pinch"]);
}

#[test]
fn largest_clan_of_empty_registry_is_none() {
    let registry = ClanSystem::new();
    assert!(registry.get_largest_clan_id().is_none());
}

#[test]
fn largest_clan_has_the_most_members() {
    let mut registry = ClanSystem::new();
    registry.add_member("a", "One");
    registry.add_member("a", "Two");
    registry.add_member("b", "Three");
    registry.add_member("b", "Four");
    registry.add_member("b", "Five");
    registry.add_member("b", "Six");
    registry.add_member("b", "Seven");
    assert_eq!(registry.get_largest_clan_id(), Some(String::from("b")));
}

#[test]
fn largest_clan_tie_keeps_the_first_registered() {
    let mut registry = ClanSystem::new();
    registry.add_member("a", "One");
    registry.add_member("b", "Two");
    assert_eq!(registry.get_largest_clan_id(), Some(String::from("a")));
}
