use commit_formatter::compose::{generate_commit_message, issues_block, title_line};

fn some(text: &str) -> Option<String> {
    Some(text.to_string())
}

#[test]
fn title_with_every_segment() {
    assert_eq!(title_line("feat", &some("auth"), true, "add login"), "feat(auth)!: add login");
}

#[test]
fn title_without_optional_segments() {
    assert_eq!(title_line("fix", &None, false, "handle empty input"), "fix: handle empty input");
}

#[test]
fn issue_tokens_are_normalised() {
    assert_eq!(issues_block("123, #456"), "Closes #123\nCloses #456");
}

#[test]
fn scenario_feature_with_scope_and_issue() {
    let message = generate_commit_message("feat", &some("auth"), "add login", &None, &None, &some("12"));
    assert_eq!(message, "feat(auth): add login\n\nCloses #12");
}

#[test]
fn every_section_in_order() {
    let message = generate_commit_message(
        "refactor",
        &some("core"),
        "split parser",
        &some("first line\nsecond line"),
        &some("parser API changed"),
        &some("#7,8"),
    );
    assert_eq!(
        message,
        "refactor(core)!: split parser\n\nfirst line\nsecond line\n\nBREAKING CHANGE: parser API changed\n\nCloses #7\nCloses #8"
    );
}

#[test]
fn an_empty_issue_token_still_gets_its_line() {
    assert_eq!(issues_block("1,"), "Closes #1\nCloses #");
    assert_eq!(issues_block(" , #2"), "Closes #\nCloses #2");
}

#[test]
fn issue_tokens_keep_their_order_and_inner_spaces() {
    assert_eq!(issues_block("#9,3 , a b ,##"), "Closes #9\nCloses #3\nCloses #a b\nCloses ##");
}

#[test]
fn no_trailing_line_feed_after_the_footer() {
    let message = generate_commit_message("fix", &None, "x", &None, &None, &some("123, #456"));
    assert_eq!(message, "fix: x\n\nCloses #123\nCloses #456");
    assert!(!message.ends_with('\n'));
}

#[test]
fn a_multi_line_body_is_kept_as_it_is() {
    let message = generate_commit_message("docs", &None, "x", &some(" a \n\n b \n"), &None, &None);
    assert_eq!(message, "docs: x\n\n a \n\n b \n");
}

#[test]
fn a_breaking_change_marks_the_title_and_gets_its_block() {
    let message = generate_commit_message("feat", &None, "x", &None, &some("y"), &None);
    assert_eq!(message, "feat!: x\n\nBREAKING CHANGE: y");
}

#[test]
fn the_type_is_taken_as_given() {
    let message = generate_commit_message("\x1b[92mfeat\x1b[0m", &None, "x", &None, &None, &None);
    assert_eq!(message, "\x1b[92mfeat\x1b[0m: x");
}
