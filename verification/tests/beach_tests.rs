use ocean::beach::Beach;
use ocean::color::Color;
use ocean::crab::Crab;
use ocean::diet::Diet;

fn crab(name: &str, speed: u32, color: Color) -> Crab {
    Crab::new(String::from(name), speed, color, Diet::Plants)
}

#[test]
fn add_crab_counts_and_keeps_call_order() {
    let mut beach = Beach::new();
    assert_eq!(beach.size(), 0);
    beach.add_crab(crab("Pinch", 3, Color::Red));
    beach.add_crab(crab("Sandy", 7, Color::Green));
    beach.add_crab(crab("Snippy", 5, Color::Blue));
    assert_eq!(beach.size(), 3);
    let names: Vec<&String> = beach.crabs().iter().map(|c| c.name()).collect();
    assert_eq!(names, vec!["Pinch", "Sandy", "Snippy"]);
}

#[test]
fn added_crab_is_last() {
    let mut beach = Beach::new();
    beach.add_crab(crab("Pinch", 3, Color::Red));
    beach.add_crab(crab("Sandy", 7, Color::Green));
    let last = beach.get_crab(beach.size() - 1);
    assert_eq!(last.name(), "Sandy");
    assert_eq!(last.speed(), 7);
    assert_eq!(last.color(), Color::Green);
}

#[test]
fn breeding_appends_a_crab_with_crossed_color() {
    let mut beach = Beach::new();
    beach.add_crab(crab("Pinch", 3, Color::Red));
    beach.add_crab(crab("Sandy", 7, Color::Green));
    beach.breed_crabs(0, 1, String::from("Junior"));
    assert_eq!(beach.size(), 3);
    let junior = beach.get_crab(2);
    assert_eq!(junior.name(), "Junior");
    assert_eq!(junior.speed(), 1);
    assert_eq!(junior.color(), Color::cross(Color::Red, Color::Green));
    assert_eq!(junior.color(), Color::Green);
}

#[test]
fn fastest_crab_on_empty_beach_is_none() {
    let beach = Beach::new();
    assert!(beach.get_fastest_crab().is_none());
}

#[test]
fn fastest_crab_takes_last_of_equal_maxima() {
    let mut beach = Beach::new();
    beach.add_crab(crab("Slow", 3, Color::Red));
    beach.add_crab(crab("QuickOne", 7, Color::Red));
    beach.add_crab(crab("QuickTwo", 7, Color::Red));
    beach.add_crab(crab("Slower", 2, Color::Red));
    let fastest = beach.get_fastest_crab().expect("beach is not empty");
    assert_eq!(fastest.speed(), 7);
    assert_eq!(fastest.name(), "QuickTwo");
}

#[test]
fn find_crabs_by_name_in_storage_order() {
    let mut beach = Beach::new();
    beach.add_crab(crab("Sandy", 1, Color::Red));
    beach.add_crab(crab("Pinch", 2, Color::Green));
    beach.add_crab(crab("Sandy", 3, Color::Blue));
    let sandies = beach.find_crabs_by_name("Sandy");
    assert_eq!(sandies.len(), 2);
    assert_eq!(sandies[0].speed(), 1);
    assert_eq!(sandies[1].speed(), 3);
    assert!(beach.find_crabs_by_name("Nemo").is_empty());
}

#[test]
fn winner_clan_no_winner_on_equal_averages() {
    let mut beach = Beach::new();
    beach.add_crab(crab("Pinch", 10, Color::Red));
    beach.add_crab(crab("Snippy", 10, Color::Red));
    beach.add_member_to_clan("a", "Pinch");
    beach.add_member_to_clan("b", "Snippy");
    let outcome = beach.get_winner_clan("a", "b").expect("both clans exist");
    assert!(outcome.is_none());
}

#[test]
fn winner_clan_higher_average_wins() {
    let mut beach = Beach::new();
    beach.add_crab(crab("Pinch", 12, Color::Red));
    beach.add_crab(crab("Shelly", 8, Color::Red));
    beach.add_crab(crab("Snippy", 9, Color::Red));
    beach.add_member_to_clan("a", "Pinch");
    beach.add_member_to_clan("a", "Shelly");
    beach.add_member_to_clan("b", "Snippy");
    let outcome = beach.get_winner_clan("a", "b").expect("both clans exist");
    assert_eq!(outcome, Some(String::from("a")));
}

#[test]
fn winner_clan_truncates_averages() {
    let mut beach = Beach::new();
    beach.add_crab(crab("Pinch", 5, Color::Red));
    beach.add_crab(crab("Shelly", 4, Color::Red));
    beach.add_crab(crab("Snippy", 4, Color::Red));
    beach.add_member_to_clan("a", "Pinch");
    beach.add_member_to_clan("a", "Shelly");
    beach.add_member_to_clan("b", "Snippy");
    // clan "a" averages 9 / 2 = 4 after truncation, the same as clan "b".
    let outcome = beach.get_winner_clan("a", "b").expect("both clans exist");
    assert!(outcome.is_none());
}

#[test]
fn winner_clan_unknown_id_is_an_error() {
    let mut beach = Beach::new();
    beach.add_crab(crab("Pinch", 10, Color::Red));
    beach.add_member_to_clan("a", "Pinch");
    let outcome = beach.get_winner_clan("a", "ghost");
    assert_eq!(outcome, Err(String::from("clan does not exist")));
}

#[test]
fn clan_system_is_readable_through_the_beach() {
    let mut beach = Beach::new();
    beach.add_member_to_clan("red", "Pinch");
    let registry = beach.get_clan_system();
    assert_eq!(registry.get_clan_count(), 1);
    assert_eq!(registry.get_clan_member_names("red"), vec!["Pinch"]);
}
