use ocean::beach::Beach;
use ocean::color::Color;
use ocean::crab::Crab;
use ocean::diet::Diet;
use ocean::ocean::Ocean;
use ocean::reef::Prey;

#[test]
fn beaches_are_kept_in_creation_order() {
    let mut sea = Ocean::new();
    let mut first = Beach::new();
    first.add_crab(Crab::new(String::from("Pinch"), 3, Color::Red, Diet::Fish));
    let second = Beach::new();
    sea.add_beach(first);
    sea.add_beach(second);
    let beaches = sea.beaches();
    assert_eq!(beaches.len(), 2);
    assert_eq!(beaches[0].size(), 1);
    assert_eq!(beaches[1].size(), 0);
}

#[test]
fn generated_reef_is_populated_in_order() {
    let mut sea = Ocean::new();
    let handle = sea.generate_reef(2, 3, 0, 1);
    let reef = sea.reef(&handle);
    assert_eq!(reef.size(), 6);
    assert_eq!(*reef.prey_at(0), Prey::Minnow { speed: 25 });
    assert_eq!(*reef.prey_at(1), Prey::Minnow { speed: 25 });
    assert_eq!(*reef.prey_at(2), Prey::Shrimp { energy: 1 });
    assert_eq!(*reef.prey_at(3), Prey::Shrimp { energy: 1 });
    assert_eq!(*reef.prey_at(4), Prey::Shrimp { energy: 1 });
    assert_eq!(*reef.prey_at(5), Prey::Algae);
}

#[test]
fn empty_counts_give_an_empty_reef() {
    let mut sea = Ocean::new();
    let handle = sea.generate_reef(0, 0, 0, 0);
    assert_eq!(sea.reef(&handle).size(), 0);
}

#[test]
fn caller_and_ocean_hold_handles_to_the_same_reef() {
    let mut sea = Ocean::new();
    let returned = sea.generate_reef(1, 0, 0, 0);
    let stored = sea.reefs();
    assert_eq!(stored.len(), 1);
    assert_eq!(stored[0], returned);
    // The two handles observe identical contents.
    assert_eq!(sea.reef(&returned).size(), sea.reef(&stored[0]).size());
    // A mutation made through one handle is visible through the other.
    sea.add_prey_to_reef(&returned, Prey::Clam);
    assert_eq!(sea.reef(&stored[0]).size(), 2);
    assert_eq!(*sea.reef(&stored[0]).prey_at(1), Prey::Clam);
}

#[test]
fn each_generated_reef_gets_its_own_handle() {
    let mut sea = Ocean::new();
    let first = sea.generate_reef(1, 0, 0, 0);
    let second = sea.generate_reef(0, 2, 0, 0);
    assert_ne!(first, second);
    assert_eq!(sea.reef(&first).size(), 1);
    assert_eq!(sea.reef(&second).size(), 2);
    let handles = sea.reefs();
    assert_eq!(handles, vec![first, second]);
}

#[test]
fn color_crossing_walks_the_palette() {
    assert_eq!(Color::cross(Color::Red, Color::Red), Color::Red);
    assert_eq!(Color::cross(Color::Red, Color::Green), Color::Green);
    assert_eq!(Color::cross(Color::Green, Color::Blue), Color::Red);
    assert_eq!(Color::cross(Color::Blue, Color::Blue), Color::Green);
}

#[test]
fn random_diet_yields_a_variant() {
    let diet = Diet::random_diet();
    assert!(matches!(diet, Diet::Plants | Diet::Fish | Diet::Shrimp));
}
