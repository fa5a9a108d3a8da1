use commit_formatter::commit_type::CommitType;
use commit_formatter::record::DescriptionError;
use commit_formatter::session::{Question, Rejection, Reply, Session, Stage};

fn text(input: &str) -> Reply {
    Reply::Text(input.to_string())
}

fn run(replies: Vec<Reply>) -> Session {
    let mut session = Session::new();
    for reply in replies {
        let (next, outcome) = session.answer(reply);
        assert!(outcome.is_ok());
        session = next;
    }
    session
}

fn some(text: &str) -> Option<String> {
    Some(text.to_string())
}

#[test]
fn a_session_starts_at_the_type_question() {
    let session = Session::new();
    assert_eq!(session.stage(), Stage::Asking(Question::CommitType));
    assert_eq!(session.line_number(), 1);
    assert!(session.into_record().is_none());
}

#[test]
fn the_shortest_run_asks_six_questions() {
    let mut session = Session::new();
    let script = vec![
        (Reply::Choice(0), Stage::Asking(Question::Scope)),
        (text(""), Stage::Asking(Question::Description)),
        (text("add login"), Stage::Asking(Question::WantBody)),
        (Reply::Confirm(false), Stage::Asking(Question::WantBreakingChange)),
        (Reply::Confirm(false), Stage::Asking(Question::WantIssues)),
        (Reply::Confirm(false), Stage::Complete),
    ];
    for (reply, expected) in script {
        let (next, outcome) = session.answer(reply);
        assert_eq!(outcome, Ok(expected));
        assert_eq!(next.stage(), expected);
        session = next;
    }
    let record = session.into_record().unwrap();
    assert_eq!(record.commit_type(), CommitType::Feat);
    assert_eq!(*record.scope(), None);
    assert_eq!(record.description(), "add login");
    assert_eq!(*record.body(), None);
    assert_eq!(*record.breaking_change(), None);
    assert_eq!(*record.issues(), None);
    assert_eq!(record.message(), "feat: add login");
}

#[test]
fn the_longest_run_fills_every_field() {
    let mut session = Session::new();
    let script = vec![
        (Reply::Choice(4), Stage::Asking(Question::Scope)),
        (text(" core "), Stage::Asking(Question::Description)),
        (text("split parser"), Stage::Asking(Question::WantBody)),
        (Reply::Confirm(true), Stage::Asking(Question::BodyLine)),
        (text("first line"), Stage::Asking(Question::BodyLine)),
        (text(" second line "), Stage::Asking(Question::BodyLine)),
        (text("  "), Stage::Asking(Question::WantBreakingChange)),
        (Reply::Confirm(true), Stage::Asking(Question::BreakingChange)),
        (text(" parser API changed "), Stage::Asking(Question::WantIssues)),
        (Reply::Confirm(true), Stage::Asking(Question::Issues)),
        (text(" #7,8 "), Stage::Complete),
    ];
    for (reply, expected) in script {
        let (next, outcome) = session.answer(reply);
        assert_eq!(outcome, Ok(expected));
        session = next;
    }
    let record = session.into_record().unwrap();
    assert_eq!(record.commit_type(), CommitType::Refactor);
    assert_eq!(*record.scope(), some("core"));
    assert_eq!(*record.body(), some("first line\n second line "));
    assert_eq!(*record.breaking_change(), some("parser API changed"));
    assert_eq!(*record.issues(), some("#7,8"));
    assert_eq!(
        record.message(),
        "refactor(core)!: split parser\n\nfirst line\n second line \n\nBREAKING CHANGE: parser API changed\n\nCloses #7\nCloses #8"
    );
}

#[test]
fn the_scenario_runs_through_the_questionnaire() {
    let session = run(vec![
        Reply::Choice(0),
        text("auth"),
        text("add login"),
        Reply::Confirm(false),
        Reply::Confirm(false),
        Reply::Confirm(true),
        text("12"),
    ]);
    let record = session.into_record().unwrap();
    assert_eq!(record.message(), "feat(auth): add login\n\nCloses #12");
}

#[test]
fn a_rejected_description_is_asked_for_again() {
    let session = run(vec![Reply::Choice(1), text("ui")]);
    let (session, outcome) = session.answer(text("   "));
    assert_eq!(outcome, Err(Rejection::Description(DescriptionError::Empty)));
    assert_eq!(session.stage(), Stage::Asking(Question::Description));
    let (session, outcome) = session.answer(text(&"d".repeat(51)));
    assert_eq!(outcome, Err(Rejection::Description(DescriptionError::TooLong)));
    assert_eq!(session.stage(), Stage::Asking(Question::Description));
    let (session, outcome) = session.answer(text(&"d".repeat(50)));
    assert_eq!(outcome, Ok(Stage::Asking(Question::WantBody)));
    assert_eq!(session.stage(), Stage::Asking(Question::WantBody));
}

#[test]
fn the_description_is_kept_as_typed() {
    let session = run(vec![
        Reply::Choice(1),
        text(""),
        text("  padded  "),
        Reply::Confirm(false),
        Reply::Confirm(false),
        Reply::Confirm(false),
    ]);
    assert_eq!(session.into_record().unwrap().description(), "  padded  ");
}

#[test]
fn a_body_without_lines_is_no_body() {
    let session = run(vec![
        Reply::Choice(2),
        text(""),
        text("x"),
        Reply::Confirm(true),
        text(""),
        Reply::Confirm(false),
        Reply::Confirm(false),
    ]);
    assert_eq!(*session.into_record().unwrap().body(), None);
}

#[test]
fn body_lines_are_numbered_from_one() {
    let session = run(vec![Reply::Choice(2), text(""), text("x"), Reply::Confirm(true)]);
    assert_eq!(session.line_number(), 1);
    let (session, _) = session.answer(text("one"));
    assert_eq!(session.line_number(), 2);
    let (session, _) = session.answer(text("two"));
    assert_eq!(session.line_number(), 3);
}

#[test]
fn blank_answers_leave_optional_fields_out() {
    let session = run(vec![
        Reply::Choice(3),
        text(" \t"),
        text("x"),
        Reply::Confirm(false),
        Reply::Confirm(true),
        text("  "),
        Reply::Confirm(true),
        text(""),
    ]);
    let record = session.into_record().unwrap();
    assert_eq!(*record.scope(), None);
    assert_eq!(*record.breaking_change(), None);
    assert_eq!(*record.issues(), None);
    assert_eq!(record.message(), "style: x");
}

#[test]
fn leaving_any_prompt_cancels_the_session() {
    let prefixes: Vec<Vec<Reply>> = vec![
        vec![],
        vec![Reply::Choice(0)],
        vec![Reply::Choice(0), text("")],
        vec![Reply::Choice(0), text(""), text("x")],
        vec![Reply::Choice(0), text(""), text("x"), Reply::Confirm(true)],
        vec![Reply::Choice(0), text(""), text("x"), Reply::Confirm(false)],
        vec![Reply::Choice(0), text(""), text("x"), Reply::Confirm(false), Reply::Confirm(true)],
        vec![Reply::Choice(0), text(""), text("x"), Reply::Confirm(false), Reply::Confirm(false)],
        vec![
            Reply::Choice(0),
            text(""),
            text("x"),
            Reply::Confirm(false),
            Reply::Confirm(false),
            Reply::Confirm(true),
        ],
    ];
    for prefix in prefixes {
        let session = run(prefix);
        assert!(matches!(session.stage(), Stage::Asking(_)));
        let (session, outcome) = session.answer(Reply::Cancel);
        assert_eq!(outcome, Ok(Stage::Cancelled));
        assert_eq!(session.stage(), Stage::Cancelled);
        let (session, outcome) = session.answer(Reply::Confirm(true));
        assert_eq!(outcome, Err(Rejection::Unexpected));
        assert_eq!(session.stage(), Stage::Cancelled);
        assert!(session.into_record().is_none());
    }
}

#[test]
fn a_choice_outside_the_list_is_turned_down() {
    let (session, outcome) = Session::new().answer(Reply::Choice(11));
    assert_eq!(outcome, Err(Rejection::NoSuchType));
    assert_eq!(session.stage(), Stage::Asking(Question::CommitType));
    let (session, outcome) = session.answer(Reply::Choice(10));
    assert_eq!(outcome, Ok(Stage::Asking(Question::Scope)));
    assert_eq!(session.stage(), Stage::Asking(Question::Scope));
}

#[test]
fn a_reply_of_the_wrong_kind_is_turned_down() {
    let (session, outcome) = Session::new().answer(text("feat"));
    assert_eq!(outcome, Err(Rejection::Unexpected));
    let (session, outcome) = session.answer(Reply::Confirm(true));
    assert_eq!(outcome, Err(Rejection::Unexpected));
    let (session, _) = session.answer(Reply::Choice(0));
    let (session, outcome) = session.answer(Reply::Choice(0));
    assert_eq!(outcome, Err(Rejection::Unexpected));
    let (session, outcome) = session.answer(Reply::Confirm(false));
    assert_eq!(outcome, Err(Rejection::Unexpected));
    assert_eq!(session.stage(), Stage::Asking(Question::Scope));
    let session = run(vec![Reply::Choice(0), text(""), text("x")]);
    let (session, outcome) = session.answer(text("yes"));
    assert_eq!(outcome, Err(Rejection::Unexpected));
    assert_eq!(session.stage(), Stage::Asking(Question::WantBody));
}

#[test]
fn a_complete_session_takes_no_more_replies() {
    let session = run(vec![
        Reply::Choice(0),
        text(""),
        text("x"),
        Reply::Confirm(false),
        Reply::Confirm(false),
        Reply::Confirm(false),
    ]);
    let (session, outcome) = session.answer(Reply::Cancel);
    assert_eq!(outcome, Err(Rejection::Unexpected));
    assert_eq!(session.stage(), Stage::Complete);
    assert!(session.into_record().is_some());
}

#[test]
fn no_record_before_the_last_question() {
    let session = run(vec![
        Reply::Choice(0),
        text(""),
        text("x"),
        Reply::Confirm(false),
        Reply::Confirm(false),
    ]);
    assert_eq!(session.stage(), Stage::Asking(Question::WantIssues));
    assert!(session.into_record().is_none());
}
