use rotation_curves::chart::ProfileKind;
use rotation_curves::language::{next_code, same_text, Language};

#[test]
fn texts_are_compared_by_their_characters() {
    assert!(same_text("de", "de"));
    assert!(same_text("", ""));
    assert!(!same_text("de", "en"));
    assert!(!same_text("de", "de-DE"));
    assert!(!same_text("de", "De"));
}

#[test]
fn languages_have_their_codes() {
    assert_eq!(Language::English.code(), "en");
    assert_eq!(Language::German.code(), "de");
    assert_eq!(Language::from_code("en"), Some(Language::English));
    assert_eq!(Language::from_code("de"), Some(Language::German));
    assert_eq!(Language::from_code("fr"), None);
    assert_eq!(Language::from_code(""), None);
    assert_eq!(Language::from_code("EN"), None);
}

#[test]
fn button_switches_to_the_other_language() {
    assert_eq!(Language::English.next(), Language::German);
    assert_eq!(Language::German.next(), Language::English);
    assert_eq!(next_code("en"), "de");
    assert_eq!(next_code("de"), "en");
    assert_eq!(next_code("fr"), "de");
    assert_eq!(next_code(""), "de");
}

#[test]
fn german_is_preferred_where_the_browser_lists_it() {
    let list = |codes: &[&str]| codes.iter().map(|c| c.to_string()).collect::<Vec<String>>();
    assert_eq!(Language::preferred(&list(&[])), Language::English);
    assert_eq!(Language::preferred(&list(&["en-US", "en"])), Language::English);
    assert_eq!(Language::preferred(&list(&["de"])), Language::German);
    assert_eq!(Language::preferred(&list(&["en", "fr", "de"])), Language::German);
    assert_eq!(Language::preferred(&list(&["de-DE", "en"])), Language::English);
}

#[test]
fn modes_have_their_names() {
    assert_eq!(ProfileKind::Velocity.name(), "velocity");
    assert_eq!(ProfileKind::Mass.name(), "mass");
    assert_eq!(ProfileKind::Density.name(), "density");
    for kind in [ProfileKind::Velocity, ProfileKind::Mass, ProfileKind::Density] {
        assert_eq!(ProfileKind::from_name(kind.name()), Some(kind));
        assert_eq!(ProfileKind::position_of(kind.name()), kind.index());
    }
    assert_eq!(ProfileKind::from_name("Velocity"), None);
    assert_eq!(ProfileKind::from_name(""), None);
}

#[test]
fn selector_stands_first_for_an_unknown_mode() {
    assert_eq!(ProfileKind::position_of("velocity"), 0);
    assert_eq!(ProfileKind::position_of("mass"), 1);
    assert_eq!(ProfileKind::position_of("density"), 2);
    assert_eq!(ProfileKind::position_of("energy"), 0);
}
