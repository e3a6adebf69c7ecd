use advanced_inputs::Direction;
use advanced_inputs::PromptableEnum;

fn all() -> Vec<Direction> {
    vec![
        Direction::North,
        Direction::South,
        Direction::West,
        Direction::East,
        Direction::Up,
        Direction::Down,
    ]
}

#[test]
fn raw_names_in_declaration_order() {
    assert_eq!(
        Direction::variants_raw(),
        vec![
            "North".to_string(),
            "South".to_string(),
            "West".to_string(),
            "East".to_string(),
            "Up".to_string(),
            "Down".to_string()
        ]
    );
}

#[test]
fn display_name_of_single_word_is_the_raw_name() {
    assert_eq!(Direction::West.display_name(), "West");
    assert_eq!(Direction::Down.display_name(), "Down");
}

#[test]
fn round_trip_through_display_name() {
    for v in all() {
        assert_eq!(Direction::from_input_str(&v.display_name()), Some(v));
    }
}

#[test]
fn round_trip_through_raw_name() {
    for v in all() {
        assert_eq!(Direction::from_input_str(&v.raw_name()), Some(v));
    }
}

#[test]
fn round_trip_is_case_insensitive() {
    assert_eq!(Direction::from_input_str("nOrTh"), Some(Direction::North));
    assert_eq!(Direction::from_input_str("SOUTH"), Some(Direction::South));
    assert_eq!(Direction::from_input_str("up"), Some(Direction::Up));
}

#[test]
fn unknown_text_parses_to_nothing() {
    assert_eq!(Direction::from_input_str("sideways"), None);
    assert_eq!(Direction::from_input_str(""), None);
    assert_eq!(Direction::from_input_str("nor"), None);
}

#[test]
fn variants_as_strings_are_the_display_names() {
    assert_eq!(Direction::variants_as_strings(), Direction::variants_raw());
}
