use advanced_inputs::paginate;
use advanced_inputs::variant_list_lines;

#[test]
fn paginate_short_text_is_one_line() {
    let lines = paginate("North, South");
    assert_eq!(lines, vec!["North, South".to_string()]);
}

#[test]
fn paginate_wraps_at_spaces_and_loses_nothing() {
    // 30 words of five characters: 179 characters with spaces between
    let words: Vec<String> = (0..30).map(|i| format!("wd{:03}", i)).collect();
    let text = words.join(" ");
    assert!(text.len() > 100);
    let lines = paginate(&text);
    assert!(lines.len() > 1);
    // the first line fits the width and ends at a word boundary
    assert!(lines[0].len() <= 100);
    assert!(lines[0].chars().last() != Some(' '));
    // rejoining with a single space at each cut reproduces the text
    assert_eq!(lines.join(" "), text);
    // no line but a space-free one may run past the width
    for line in &lines {
        assert!(line.len() <= 100 || !line.contains(' '));
    }
}

#[test]
fn paginate_unbroken_word_is_emitted_whole() {
    let text = "a".repeat(150);
    let lines = paginate(&text);
    assert_eq!(lines, vec![text]);
}

#[test]
fn paginate_space_free_tail_after_cut() {
    let mut text = "lead ".to_string();
    text.push_str(&"b".repeat(120));
    let lines = paginate(&text);
    assert_eq!(lines, vec!["lead".to_string(), "b".repeat(120)]);
}

#[test]
fn variant_lines_without_default() {
    let raws = vec!["NorthWest".to_string(), "Up".to_string()];
    let lines = variant_list_lines(&raws, None);
    assert_eq!(lines, vec!["North West, Up".to_string()]);
}

#[test]
fn variant_lines_mark_the_default() {
    let raws = vec!["NorthWest".to_string(), "Up".to_string()];
    let lines = variant_list_lines(&raws, Some(1));
    assert_eq!(lines, vec!["North West, Up(*)".to_string()]);
}
