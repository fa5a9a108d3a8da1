use commit_formatter::runner::{choose_mode, commit_arguments, report, Mode, Report, RunResult};

#[test]
fn the_message_is_one_argument_whatever_lines_it_has() {
    assert_eq!(
        commit_arguments("feat: a\n\nCloses #1"),
        vec!["commit".to_string(), "-m".to_string(), "feat: a\n\nCloses #1".to_string()]
    );
}

#[test]
fn success_is_reported_with_the_output() {
    let made = report(RunResult::Exited {
        success: true,
        stdout: "[main 1a2b3c] feat: a\n".to_string(),
        stderr: "warning".to_string(),
    });
    assert!(matches!(made, Report::Succeeded { output: Some(ref text) } if text == "[main 1a2b3c] feat: a\n"));
}

#[test]
fn empty_output_is_left_out() {
    let made = report(RunResult::Exited { success: true, stdout: String::new(), stderr: "x".to_string() });
    assert!(matches!(made, Report::Succeeded { output: None }));
    let failed = report(RunResult::Exited { success: false, stdout: "x".to_string(), stderr: String::new() });
    assert!(matches!(failed, Report::Failed { errors: None }));
}

#[test]
fn failure_is_reported_with_the_errors() {
    let failed = report(RunResult::Exited {
        success: false,
        stdout: "ignored".to_string(),
        stderr: "nothing to commit".to_string(),
    });
    assert!(matches!(failed, Report::Failed { errors: Some(ref text) } if text == "nothing to commit"));
}

#[test]
fn a_call_that_did_not_start_is_reported_with_its_reason() {
    let missing = report(RunResult::NotStarted { reason: "No such file or directory".to_string() });
    assert!(matches!(missing, Report::NotStarted { ref reason } if reason == "No such file or directory"));
}

#[test]
fn the_questionnaire_runs_on_the_flag_or_without_arguments() {
    assert_eq!(choose_mode(true, 2), Mode::Interactive);
    assert_eq!(choose_mode(false, 1), Mode::Interactive);
    assert_eq!(choose_mode(true, 1), Mode::Interactive);
    assert_eq!(choose_mode(false, 2), Mode::Hint);
    assert_eq!(choose_mode(false, 0), Mode::Hint);
}
