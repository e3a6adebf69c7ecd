use advanced_inputs::add_spaces_before_caps;
use advanced_inputs::display_names;
use advanced_inputs::parse_input;
use advanced_inputs::position_of;

#[test]
fn display_multi_word() {
    assert_eq!(add_spaces_before_caps("NorthWest"), "North West");
    assert_eq!(add_spaces_before_caps("SouthSouthEast"), "South South East");
}

#[test]
fn display_single_word() {
    assert_eq!(add_spaces_before_caps("North"), "North");
    assert_eq!(add_spaces_before_caps("up"), "up");
}

#[test]
fn display_acronym_boundary() {
    // a capital only gets a space when a lowercase letter follows it
    assert_eq!(add_spaces_before_caps("HTTPServer"), "HTTP Server");
    assert_eq!(add_spaces_before_caps("ABC"), "ABC");
}

#[test]
fn display_idempotent_single_word() {
    let once = add_spaces_before_caps("North");
    let twice = add_spaces_before_caps(&once);
    assert_eq!(once, twice);
}

#[test]
fn display_reapplied_with_remaining_boundary() {
    // a qualifying capital still follows the inserted space, so a second
    // application inserts another one: the derivation is not idempotent here
    let once = add_spaces_before_caps("NorthWest");
    let twice = add_spaces_before_caps(&once);
    assert_eq!(once, "North West");
    assert_eq!(twice, "North  West");
}

#[test]
fn display_names_keeps_order() {
    let raws = vec!["NorthWest".to_string(), "Up".to_string()];
    let names = display_names(&raws);
    assert_eq!(names, vec!["North West".to_string(), "Up".to_string()]);
}

fn dirs() -> Vec<String> {
    vec![
        "North".to_string(),
        "South".to_string(),
        "West".to_string(),
        "East".to_string(),
        "Up".to_string(),
        "Down".to_string(),
    ]
}

#[test]
fn parse_matches_raw_case_insensitively() {
    let raws = dirs();
    assert_eq!(parse_input("North", &raws), Some(0));
    assert_eq!(parse_input("north", &raws), Some(0));
    assert_eq!(parse_input("NORTH", &raws), Some(0));
    assert_eq!(parse_input("sOuTh", &raws), Some(1));
    assert_eq!(parse_input("down", &raws), Some(5));
}

#[test]
fn parse_matches_display_name() {
    let raws = vec!["NorthWest".to_string(), "SouthEast".to_string()];
    // the display form, with the space
    assert_eq!(parse_input("north west", &raws), Some(0));
    assert_eq!(parse_input("North West", &raws), Some(0));
    // the raw form, without it
    assert_eq!(parse_input("northwest", &raws), Some(0));
    assert_eq!(parse_input("SOUTHEAST", &raws), Some(1));
}

#[test]
fn parse_rejects_unknown_text() {
    let raws = dirs();
    assert_eq!(parse_input("sideways", &raws), None);
    assert_eq!(parse_input("", &raws), None);
    assert_eq!(parse_input("nort", &raws), None);
}

#[test]
fn position_of_finds_the_first_equal_name() {
    let names = vec!["Up".to_string(), "Down".to_string(), "Up".to_string()];
    assert_eq!(position_of(&names, "Up"), Some(0));
    assert_eq!(position_of(&names, "Down"), Some(1));
    assert_eq!(position_of(&names, "Sideways"), None);
}

#[test]
fn parse_first_declared_match_wins() {
    let raws = vec!["Up".to_string(), "UP".to_string()];
    // both lowercase to "up"; the first declared variant wins
    assert_eq!(parse_input("up", &raws), Some(0));
}
