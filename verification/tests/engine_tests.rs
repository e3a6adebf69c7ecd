use advanced_inputs::default_file_path;
use advanced_inputs::enum_prompt_result;
use advanced_inputs::file_prompt_decision;
use advanced_inputs::file_prompt_result;
use advanced_inputs::index_prompt_result;
use advanced_inputs::index_range_prompt_result;
use advanced_inputs::string_prompt_result;
use advanced_inputs::FileDecision;
use advanced_inputs::ReadOutcome;

fn submitted(s: &str) -> ReadOutcome {
    ReadOutcome::Submitted(s.to_string())
}

fn dirs() -> Vec<String> {
    vec!["North".to_string(), "South".to_string(), "Up".to_string()]
}

#[test]
fn index_prompt_parses_trimmed_line() {
    assert_eq!(index_prompt_result(&submitted(" 12 ")), Some(12));
    assert_eq!(index_prompt_result(&submitted("twelve")), None);
    assert_eq!(index_prompt_result(&ReadOutcome::Aborted), None);
}

#[test]
fn index_range_prompt_discards_out_of_range() {
    assert_eq!(index_range_prompt_result(&submitted("3"), 1, 6), Some(3));
    assert_eq!(index_range_prompt_result(&submitted("7"), 1, 6), None);
    assert_eq!(index_range_prompt_result(&ReadOutcome::Aborted, 1, 6), None);
}

#[test]
fn string_prompt_returns_trimmed_line() {
    assert_eq!(string_prompt_result(&submitted("  hi there ")), Some("hi there".to_string()));
    assert_eq!(string_prompt_result(&submitted("")), Some(String::new()));
    assert_eq!(string_prompt_result(&ReadOutcome::Aborted), None);
}

#[test]
fn enum_prompt_empty_input_returns_default() {
    assert_eq!(enum_prompt_result(&submitted(""), &dirs(), Some(2)), Some(2));
    assert_eq!(enum_prompt_result(&submitted("   "), &dirs(), Some(2)), Some(2));
    assert_eq!(enum_prompt_result(&submitted(""), &dirs(), None), None);
}

#[test]
fn enum_prompt_unparsable_input_ignores_default() {
    assert_eq!(enum_prompt_result(&submitted("zzz"), &dirs(), Some(2)), None);
}

#[test]
fn enum_prompt_parses_nonempty_input() {
    assert_eq!(enum_prompt_result(&submitted(" north "), &dirs(), Some(2)), Some(0));
    assert_eq!(enum_prompt_result(&submitted("UP"), &dirs(), None), Some(2));
}

#[test]
fn enum_prompt_abort_returns_default() {
    assert_eq!(enum_prompt_result(&ReadOutcome::Aborted, &dirs(), Some(1)), Some(1));
    assert_eq!(enum_prompt_result(&ReadOutcome::Aborted, &dirs(), None), None);
}

#[test]
fn fallback_path_under_directory() {
    assert_eq!(default_file_path("/data"), "/data/JohnDoe.json");
    assert_eq!(default_file_path("/data/"), "/data/JohnDoe.json");
    assert_eq!(default_file_path(""), "JohnDoe.json");
}

#[test]
fn file_prompt_empty_input_yields_fallback_err() {
    let d = file_prompt_decision(&submitted("  "), "/data");
    match &d {
        FileDecision::Fallback(p) => assert_eq!(p, "/data/JohnDoe.json"),
        FileDecision::Chosen(_) => panic!("empty input must fall back"),
    }
    assert_eq!(file_prompt_result(d, false), Err("/data/JohnDoe.json".to_string()));
}

#[test]
fn file_prompt_abort_yields_fallback_err() {
    let d = file_prompt_decision(&ReadOutcome::Aborted, "/data");
    assert_eq!(file_prompt_result(d, true), Err("/data/JohnDoe.json".to_string()));
}

#[test]
fn file_prompt_existing_choice_is_ok() {
    let d = file_prompt_decision(&submitted(" save.json "), "/data");
    match &d {
        FileDecision::Chosen(p) => assert_eq!(p, "save.json"),
        FileDecision::Fallback(_) => panic!("non-empty input is a choice"),
    }
    assert_eq!(file_prompt_result(d, true), Ok("save.json".to_string()));
}

#[test]
fn file_prompt_new_choice_is_err_with_that_path() {
    let d = file_prompt_decision(&submitted("new.json"), "/data");
    assert_eq!(file_prompt_result(d, false), Err("new.json".to_string()));
}
