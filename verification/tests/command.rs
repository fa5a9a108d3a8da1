use commit_formatter::command::generate_git_command;
use commit_formatter::styling::{present, present_clean, remove_ansi_colors};

#[test]
fn single_line_is_one_argument() {
    assert_eq!(generate_git_command("fix: typo"), "git commit -m \"fix: typo\"");
}

#[test]
fn quotes_are_escaped() {
    assert_eq!(generate_git_command("fix: say \"hi\""), "git commit -m \"fix: say \\\"hi\\\"\"");
}

#[test]
fn blank_line_in_the_middle_is_an_empty_argument() {
    assert_eq!(
        generate_git_command("feat(auth): add login\n\nCloses #12"),
        "git commit -m \"feat(auth): add login\" -m \"\" -m \"Closes #12\""
    );
}

#[test]
fn styling_is_taken_out() {
    assert_eq!(remove_ansi_colors("\x1b[92mfeat\x1b[0m: add"), Some("feat: add".to_string()));
}

#[test]
fn the_command_is_made_from_the_clean_message() {
    let shown = present("\x1b[1;97mfix: a\n\nb\x1b[0m").unwrap();
    assert_eq!(shown.clean_message, "fix: a\n\nb");
    assert_eq!(shown.git_command, "git commit -m \"fix: a\" -m \"\" -m \"b\"");
}

#[test]
fn an_empty_message_is_one_empty_argument() {
    assert_eq!(generate_git_command(""), "git commit -m \"\"");
}

#[test]
fn one_line_with_its_terminator_is_passed_whole() {
    assert_eq!(generate_git_command("fix: a\n"), "git commit -m \"fix: a\n\"");
}

#[test]
fn a_leading_blank_line_gives_no_argument() {
    assert_eq!(generate_git_command("\nfix: a"), "git commit -m \"fix: a\"");
    assert_eq!(generate_git_command("  \nfix: a\n \nb"), "git commit -m \"fix: a\" -m \"\" -m \"b\"");
}

#[test]
fn only_the_first_line_is_dropped_when_blank() {
    assert_eq!(generate_git_command("\n\nfix: a"), "git commit -m \"\" -m \"fix: a\"");
}

#[test]
fn every_line_of_a_body_is_an_argument() {
    assert_eq!(
        generate_git_command("feat!: x\n\none\ntwo\n\nBREAKING CHANGE: \"y\""),
        "git commit -m \"feat!: x\" -m \"\" -m \"one\" -m \"two\" -m \"\" -m \"BREAKING CHANGE: \\\"y\\\"\""
    );
}

#[test]
fn lines_are_passed_untrimmed_and_without_carriage_returns() {
    assert_eq!(generate_git_command(" a \r\n b"), "git commit -m \" a \" -m \" b\"");
}

#[test]
fn the_scenario_serialises_by_the_blank_line_rule() {
    let command = generate_git_command("feat(auth): add login\n\nCloses #12");
    assert_eq!(command.matches(" -m ").count(), 3);
    assert!(command.starts_with("git commit -m \"feat(auth): add login\""));
    assert!(command.ends_with(" -m \"Closes #12\""));
}

#[test]
fn text_without_styling_is_unchanged() {
    assert_eq!(remove_ansi_colors("fix: [0m] stays"), Some("fix: [0m] stays".to_string()));
    assert_eq!(remove_ansi_colors(""), Some(String::new()));
}

#[test]
fn only_complete_styling_sequences_are_taken_out() {
    assert_eq!(remove_ansi_colors("a\x1b[1;31;4mb\x1b[mc\x1b[0"), Some("abc\x1b[0".to_string()));
    assert_eq!(remove_ansi_colors("\x1b[2Jx"), Some("\x1b[2Jx".to_string()));
}

#[test]
fn a_clean_message_is_shown_with_its_command() {
    let shown = present_clean("fix: \"a\"".to_string());
    assert_eq!(shown.clean_message, "fix: \"a\"");
    assert_eq!(shown.git_command, "git commit -m \"fix: \\\"a\\\"\"");
}
