use advanced_inputs::ActiveHelper;
use advanced_inputs::EnumCompleterHelper;
use advanced_inputs::FileCompleterHelper;

fn names(xs: &[&str]) -> Vec<String> {
    xs.iter().map(|x| x.to_string()).collect()
}

#[test]
fn enum_completion_is_case_insensitive_prefix() {
    let h = EnumCompleterHelper::new(names(&["North West", "South", "Up"]));
    assert_eq!(h.complete("nor", 3), (0, names(&["North West"])));
    assert_eq!(h.complete("SO", 2), (0, names(&["South"])));
    assert_eq!(h.complete("x", 1), (0, Vec::<String>::new()));
}

#[test]
fn enum_completion_offers_all_on_empty_line() {
    let h = EnumCompleterHelper::new(names(&["North West", "South"]));
    assert_eq!(h.complete("", 0), (0, names(&["North West", "South"])));
}

#[test]
fn enum_completion_matches_whole_line_up_to_cursor() {
    let h = EnumCompleterHelper::new(names(&["North West", "South"]));
    // the whole line, spaces included, is the word being matched
    assert_eq!(h.complete("north w", 7), (0, names(&["North West"])));
    // so a variant name after other text matches nothing
    assert_eq!(h.complete("go north", 8), (0, Vec::<String>::new()));
    // and only the part before the cursor counts
    assert_eq!(h.complete("north west", 3), (0, names(&["North West"])));
}

#[test]
fn file_completion_matches_the_current_token() {
    let h = FileCompleterHelper::new(names(&["a.json", "ab.json", "b.json"]));
    assert_eq!(h.complete("open a", 6), (5, names(&["a.json", "ab.json"])));
    assert_eq!(h.complete("a", 1), (0, names(&["a.json", "ab.json"])));
    assert_eq!(h.complete("open b", 6), (5, names(&["b.json"])));
}

#[test]
fn file_completion_anchors_after_path_separator() {
    let h = FileCompleterHelper::new(names(&["a.json", "b.json"]));
    assert_eq!(h.complete("dir/a", 5), (4, names(&["a.json"])));
}

#[test]
fn file_completion_is_case_sensitive() {
    let h = FileCompleterHelper::new(names(&["a.json"]));
    assert_eq!(h.complete("A", 1), (0, Vec::<String>::new()));
}

#[test]
fn inert_strategy_offers_nothing() {
    let h = ActiveHelper::Inert;
    assert_eq!(h.complete("abc", 2), (2, Vec::<String>::new()));
}

#[test]
fn dispatch_follows_the_active_strategy() {
    let e = ActiveHelper::Enum(EnumCompleterHelper::new(names(&["Up", "Down"])));
    assert_eq!(e.complete("u", 1), (0, names(&["Up"])));
    let f = ActiveHelper::File(FileCompleterHelper::new(names(&["a.json"])));
    assert_eq!(f.complete("x a", 3), (2, names(&["a.json"])));
}

#[test]
fn reset_makes_the_strategy_inert() {
    let mut h = ActiveHelper::Enum(EnumCompleterHelper::new(names(&["Up"])));
    h.reset();
    assert_eq!(h.complete("u", 1), (1, Vec::<String>::new()));
}
