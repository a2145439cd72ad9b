use helperw::error::ParseError;
use helperw::interval::extract_time_intervals;
use helperw::options::extract_arguments_and_store;
use helperw::parse::phase_passed;
use helperw::parsed::ParsedArguments;
use helperw::search::{position_containing, position_of};
use helperw::text::{chars_of, contains_chars, same_text};

fn holds(text: &str, pattern: &str) -> bool {
    contains_chars(&chars_of(text), &chars_of(pattern))
}

fn token_list(items: &[&str]) -> Vec<String> {
    items.iter().map(|item| item.to_string()).collect()
}

#[test]
fn interval_leaves_with_its_separator() {
    let mut args = token_list(&["a", "b", "0900", "-", "1000", "c", "d"]);
    let mut parsed = ParsedArguments::new();
    assert_eq!(extract_time_intervals(&mut args, &mut parsed), Ok(()));
    assert_eq!(args, token_list(&["a", "b", "c", "d"]));
    assert_eq!(parsed.start_time, Some("0900".to_string()));
    assert_eq!(parsed.end_time, Some("1000".to_string()));
    assert_eq!(parsed.description, None);
    assert_eq!(parsed.project, None);
    assert_eq!(parsed.tags, None);
}

#[test]
fn interval_alone_leaves_nothing() {
    let mut args = token_list(&["0900", "-", "1000"]);
    let mut parsed = ParsedArguments::new();
    assert_eq!(extract_time_intervals(&mut args, &mut parsed), Ok(()));
    assert!(args.is_empty());
    assert_eq!(parsed.start_time, Some("0900".to_string()));
    assert_eq!(parsed.end_time, Some("1000".to_string()));
}

#[test]
fn leading_separator_changes_nothing() {
    let mut args = token_list(&["-", "1000", "note"]);
    let mut parsed = ParsedArguments::new();
    assert_eq!(extract_time_intervals(&mut args, &mut parsed), Err(ParseError::MissingStartDate));
    assert_eq!(args, token_list(&["-", "1000", "note"]));
    assert_eq!(parsed.start_time, None);
    assert_eq!(parsed.end_time, None);
}

#[test]
fn trailing_separator_changes_nothing() {
    let mut args = token_list(&["note", "0900", "-"]);
    let mut parsed = ParsedArguments::new();
    assert_eq!(extract_time_intervals(&mut args, &mut parsed), Err(ParseError::MissingEndDate));
    assert_eq!(args, token_list(&["note", "0900", "-"]));
    assert_eq!(parsed.start_time, None);
    assert_eq!(parsed.end_time, None);
}

#[test]
fn missing_separator_changes_nothing() {
    let mut args = token_list(&["note", "0900", "1000", "--", "-x", "x-"]);
    let mut parsed = ParsedArguments::new();
    assert_eq!(extract_time_intervals(&mut args, &mut parsed), Err(ParseError::MissingInterval));
    assert_eq!(args, token_list(&["note", "0900", "1000", "--", "-x", "x-"]));
    assert_eq!(parsed.start_time, None);
    assert_eq!(parsed.end_time, None);
}

#[test]
fn later_separator_stays() {
    let mut args = token_list(&["x", "a", "-", "b", "-", "c"]);
    let mut parsed = ParsedArguments::new();
    assert_eq!(extract_time_intervals(&mut args, &mut parsed), Ok(()));
    assert_eq!(args, token_list(&["x", "-", "c"]));
}

#[test]
fn first_separator_decides_though_another_is_last() {
    let mut args = token_list(&["a", "-", "b", "-"]);
    let mut parsed = ParsedArguments::new();
    assert_eq!(extract_time_intervals(&mut args, &mut parsed), Ok(()));
    assert_eq!(args, token_list(&["-"]));
    assert_eq!(parsed.start_time, Some("a".to_string()));
    assert_eq!(parsed.end_time, Some("b".to_string()));
}

#[test]
fn interval_keeps_fields_of_other_phases() {
    let mut args = token_list(&["0900", "-", "1000"]);
    let mut parsed = ParsedArguments::new();
    parsed.project = Some("p".to_string());
    parsed.description = Some("d".to_string());
    assert_eq!(extract_time_intervals(&mut args, &mut parsed), Ok(()));
    assert_eq!(parsed.project, Some("p".to_string()));
    assert_eq!(parsed.description, Some("d".to_string()));
}

#[test]
fn project_is_the_next_token() {
    let mut args = token_list(&["note", "--project", "phoenix", "more"]);
    let mut parsed = ParsedArguments::new();
    assert_eq!(extract_arguments_and_store(&mut args, &mut parsed, "--project"), Ok(()));
    assert_eq!(parsed.project, Some("phoenix".to_string()));
    assert_eq!(parsed.tags, None);
    assert_eq!(args, token_list(&["note", "--project", "phoenix", "more"]));
}

#[test]
fn project_followed_by_tags_prefix_misses_input() {
    let mut args = token_list(&["note", "--project", "--tags", "a"]);
    let mut parsed = ParsedArguments::new();
    assert_eq!(
        extract_arguments_and_store(&mut args, &mut parsed, "--project"),
        Err(ParseError::MissingInput)
    );
    assert_eq!(parsed.project, None);
    assert_eq!(args, token_list(&["note", "--project", "--tags", "a"]));
}

#[test]
fn project_in_last_place_misses_input() {
    let mut args = token_list(&["note", "--project"]);
    let mut parsed = ParsedArguments::new();
    assert_eq!(
        extract_arguments_and_store(&mut args, &mut parsed, "--project"),
        Err(ParseError::MissingInput)
    );
    assert_eq!(parsed.project, None);
}

#[test]
fn project_may_be_another_project_prefix() {
    let mut args = token_list(&["--project", "--project"]);
    let mut parsed = ParsedArguments::new();
    assert_eq!(extract_arguments_and_store(&mut args, &mut parsed, "--project"), Ok(()));
    assert_eq!(parsed.project, Some("--project".to_string()));
}

#[test]
fn tags_run_to_the_end() {
    let mut args = token_list(&["note", "--tags", "urgent", "work", "urgent"]);
    let mut parsed = ParsedArguments::new();
    assert_eq!(extract_arguments_and_store(&mut args, &mut parsed, "--tags"), Ok(()));
    assert_eq!(parsed.tags, Some(token_list(&["urgent", "work", "urgent"])));
    assert_eq!(parsed.project, None);
    assert_eq!(args, token_list(&["note", "--tags", "urgent", "work", "urgent"]));
}

#[test]
fn tags_stop_before_project() {
    let mut args = token_list(&["--tags", "b", "a", "--project", "p", "c"]);
    let mut parsed = ParsedArguments::new();
    assert_eq!(extract_arguments_and_store(&mut args, &mut parsed, "--tags"), Ok(()));
    assert_eq!(parsed.tags, Some(token_list(&["b", "a"])));
}

#[test]
fn tags_in_last_place_miss_input() {
    let mut args = token_list(&["note", "--tags"]);
    let mut parsed = ParsedArguments::new();
    assert_eq!(
        extract_arguments_and_store(&mut args, &mut parsed, "--tags"),
        Err(ParseError::MissingInput)
    );
    assert_eq!(parsed.tags, None);
}

#[test]
fn tags_right_before_project_miss_input() {
    let mut args = token_list(&["--tags", "--project", "p"]);
    let mut parsed = ParsedArguments::new();
    assert_eq!(
        extract_arguments_and_store(&mut args, &mut parsed, "--tags"),
        Err(ParseError::MissingInput)
    );
    assert_eq!(parsed.tags, None);
}

#[test]
fn tags_hold_a_later_tags_prefix() {
    let mut args = token_list(&["--tags", "a", "--tags", "b"]);
    let mut parsed = ParsedArguments::new();
    assert_eq!(extract_arguments_and_store(&mut args, &mut parsed, "--tags"), Ok(()));
    assert_eq!(parsed.tags, Some(token_list(&["a", "--tags", "b"])));
}

#[test]
fn tags_stop_only_at_the_exact_project_prefix() {
    let mut args = token_list(&["--tags", "a", "--projects", "b"]);
    let mut parsed = ParsedArguments::new();
    assert_eq!(extract_arguments_and_store(&mut args, &mut parsed, "--tags"), Ok(()));
    assert_eq!(parsed.tags, Some(token_list(&["a", "--projects", "b"])));
}

#[test]
fn prefix_is_found_inside_a_token() {
    let mut args = token_list(&["note", "my--projects", "phoenix"]);
    let mut parsed = ParsedArguments::new();
    assert_eq!(extract_arguments_and_store(&mut args, &mut parsed, "--project"), Ok(()));
    assert_eq!(parsed.project, Some("phoenix".to_string()));
}

#[test]
fn absent_prefix_is_not_found() {
    let mut args = token_list(&["note", "--tags", "a", "-project", "--projec"]);
    let mut parsed = ParsedArguments::new();
    assert_eq!(
        extract_arguments_and_store(&mut args, &mut parsed, "--project"),
        Err(ParseError::CommandNotFound)
    );
    assert_eq!(parsed.project, None);
    assert_eq!(parsed.tags, None);
}

#[test]
fn other_prefix_is_unsupported() {
    let mut args = token_list(&["note", "--verbose", "--project", "p"]);
    let mut parsed = ParsedArguments::new();
    assert_eq!(
        extract_arguments_and_store(&mut args, &mut parsed, "--verbose"),
        Err(ParseError::UnsupportedPrefix)
    );
    assert_eq!(
        extract_arguments_and_store(&mut args, &mut parsed, "--tag"),
        Err(ParseError::UnsupportedPrefix)
    );
    assert_eq!(
        extract_arguments_and_store(&mut args, &mut parsed, ""),
        Err(ParseError::UnsupportedPrefix)
    );
    assert_eq!(parsed.project, None);
    assert_eq!(args, token_list(&["note", "--verbose", "--project", "p"]));
}

#[test]
fn option_replaces_only_its_own_field() {
    let mut args = token_list(&["--project", "new", "--tags", "t"]);
    let mut parsed = ParsedArguments::new();
    parsed.start_time = Some("s".to_string());
    parsed.project = Some("old".to_string());
    assert_eq!(extract_arguments_and_store(&mut args, &mut parsed, "--project"), Ok(()));
    assert_eq!(parsed.project, Some("new".to_string()));
    assert_eq!(parsed.start_time, Some("s".to_string()));
    assert_eq!(parsed.tags, None);
    assert_eq!(extract_arguments_and_store(&mut args, &mut parsed, "--tags"), Ok(()));
    assert_eq!(parsed.tags, Some(token_list(&["t"])));
    assert_eq!(parsed.project, Some("new".to_string()));
}

#[test]
fn phases_in_turn_on_tags_without_values() {
    let mut args = token_list(&["note", "20230101T0900", "-", "20230101T1000", "--tags"]);
    let mut parsed = ParsedArguments::new();
    assert_eq!(extract_time_intervals(&mut args, &mut parsed), Ok(()));
    assert_eq!(args, token_list(&["note", "--tags"]));
    assert_eq!(
        extract_arguments_and_store(&mut args, &mut parsed, "--project"),
        Err(ParseError::CommandNotFound)
    );
    assert_eq!(
        extract_arguments_and_store(&mut args, &mut parsed, "--tags"),
        Err(ParseError::MissingInput)
    );
}

#[test]
fn only_an_absent_prefix_lets_the_parse_go_on() {
    assert_eq!(phase_passed(Ok(())), Ok(()));
    assert_eq!(phase_passed(Err(ParseError::CommandNotFound)), Ok(()));
    assert_eq!(phase_passed(Err(ParseError::MissingInput)), Err(ParseError::MissingInput));
    assert_eq!(
        phase_passed(Err(ParseError::UnsupportedPrefix)),
        Err(ParseError::UnsupportedPrefix)
    );
}

#[test]
fn new_and_default_set_nothing() {
    let fresh = ParsedArguments::new();
    assert_eq!(fresh.start_time, None);
    assert_eq!(fresh.end_time, None);
    assert_eq!(fresh.description, None);
    assert_eq!(fresh.project, None);
    assert_eq!(fresh.tags, None);
    let default = ParsedArguments::default();
    assert_eq!(default.start_time, None);
    assert_eq!(default.end_time, None);
    assert_eq!(default.description, None);
    assert_eq!(default.project, None);
    assert_eq!(default.tags, None);
}

#[test]
fn each_error_has_its_message() {
    assert_eq!(
        ParseError::MissingInterval.message(),
        "Time interval is missing. Have you added '-' between your two datetimes e.g. 20000102T0000 - 20000102T0100 ?"
    );
    assert_eq!(
        ParseError::MissingStartDate.message(),
        "Missing a start date. Make sure to put the date before `-`"
    );
    assert_eq!(
        ParseError::MissingEndDate.message(),
        "Missing an end date. Make sure to put the date after `-`"
    );
    assert_eq!(ParseError::UnsupportedPrefix.message(), "Prefix can only be --project or --tags");
    assert_eq!(ParseError::CommandNotFound.message(), "Command not found");
    assert_eq!(ParseError::MissingInput.message(), "Missing input to --project or --tags");
}

#[test]
fn same_text_compares_characters() {
    assert!(same_text("-", "-"));
    assert!(same_text("", ""));
    assert!(same_text("née", "née"));
    assert!(!same_text("-", "--"));
    assert!(!same_text("--", "-"));
    assert!(!same_text("abc", "abd"));
    assert!(!same_text("", "a"));
    assert!(!same_text("é", "e"));
}

#[test]
fn contains_chars_finds_unbroken_runs() {
    assert!(holds("--project", "--project"));
    assert!(holds("x--projecty", "--project"));
    assert!(holds("abc", ""));
    assert!(holds("", ""));
    assert!(holds("aab", "ab"));
    assert!(holds("日本語のテキスト", "語の"));
    assert!(!holds("", "a"));
    assert!(!holds("--projec", "--project"));
    assert!(!holds("--pro-ject", "--project"));
    assert!(!holds("ab", "ba"));
    assert!(!holds("abc", "abcd"));
}

#[test]
fn chars_are_taken_in_order() {
    assert_eq!(chars_of("a-é"), vec!['a', '-', 'é']);
    assert_eq!(chars_of(""), Vec::<char>::new());
    assert!(contains_chars(&chars_of("xaby"), &chars_of("ab")));
    assert!(!contains_chars(&chars_of("xaby"), &chars_of("ba")));
}

#[test]
fn position_of_finds_the_first_equal_token() {
    let args = token_list(&["a-", "-", "b", "-"]);
    assert_eq!(position_of(&args, "-"), Some(1));
    assert_eq!(position_of(&args, "b"), Some(2));
    assert_eq!(position_of(&args, "a"), None);
    assert_eq!(position_of(&Vec::new(), "-"), None);
}

#[test]
fn position_containing_finds_the_first_holder() {
    let args = token_list(&["a", "x--tags", "--tags", "b"]);
    assert_eq!(position_containing(&args, "--tags"), Some(1));
    assert_eq!(position_containing(&args, "b"), Some(3));
    assert_eq!(position_containing(&args, "--project"), None);
    assert_eq!(position_containing(&args, ""), Some(0));
    assert_eq!(position_containing(&Vec::new(), ""), None);
}
