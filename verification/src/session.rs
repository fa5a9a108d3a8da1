//! The questionnaire: which question is asked next, what each reply does to
//! the fields gathered so far, and when a record comes out of them.

use crate::commit_type::CommitType;
use crate::compose::text_of;
use crate::record::{
    body_of, description_verdict, is_normalized, join_body, lemma_normalized_is_normalized,
    normalize, normalized, record_of, texts, valid_record, validate_description,
    CommitRecord, DescriptionError, RecordView,
};
use crate::text::{blank, is_blank, is_whitespace, join};
use vstd::prelude::*;

verus! {

/// What the user is asked, in the order in which it is asked. The three
/// questions that start with `Want` are answered with yes or no and decide
/// whether the one after them is asked.
#[derive(Clone, Copy, Debug, PartialEq, Eq, Structural)]
pub enum Question {
    CommitType,
    Scope,
    Description,
    WantBody,
    BodyLine,
    WantBreakingChange,
    BreakingChange,
    WantIssues,
    Issues,
}

/// Where a session stands.
#[derive(Clone, Copy, Debug, PartialEq, Eq, Structural)]
pub enum Stage {
    /// The question is open.
    Asking(Question),
    /// Every question is answered: the record can be taken.
    Complete,
    /// The user gave up: no record will come of this session.
    Cancelled,
}

/// What comes back from a prompt.
#[derive(Debug)]
pub enum Reply {
    /// The place of the entry picked from a list, from 0.
    Choice(usize),
    /// A line of text, as it was typed.
    Text(String),
    /// Yes or no.
    Confirm(bool),
    /// The user left the prompt without an answer.
    Cancel,
}

/// A reply, its text as characters.
pub enum ReplyView {
    Choice(usize),
    Text(Seq<char>),
    Confirm(bool),
    Cancel,
}

impl View for Reply {
    type V = ReplyView;

    open spec fn view(&self) -> ReplyView {
        match self {
            Reply::Choice(index) => ReplyView::Choice(*index),
            Reply::Text(text) => ReplyView::Text(text@),
            Reply::Confirm(yes) => ReplyView::Confirm(*yes),
            Reply::Cancel => ReplyView::Cancel,
        }
    }
}

/// Why a reply changes nothing, so that the same question stays open.
#[derive(Clone, Copy, Debug, PartialEq, Eq, Structural)]
pub enum Rejection {
    /// The text cannot be a description.
    Description(DescriptionError),
    /// The list of commit types has no entry at the chosen place.
    NoSuchType,
    /// The reply is not of the kind that the open question takes, or no
    /// question is open.
    Unexpected,
}

/// What a session holds.
pub struct SessionView {
    pub stage: Stage,
    pub commit_type: Option<CommitType>,
    pub scope: Option<Seq<char>>,
    pub description: Option<Seq<char>>,
    pub body_lines: Seq<Seq<char>>,
    pub breaking_change: Option<Seq<char>>,
    pub issues: Option<Seq<char>>,
}

/// A session before the first question is answered.
pub open spec fn initial() -> SessionView {
    SessionView {
        stage: Stage::Asking(Question::CommitType),
        commit_type: None,
        scope: None,
        description: None,
        body_lines: Seq::empty(),
        breaking_change: None,
        issues: None,
    }
}

/// Why `reply` is turned down in `session`, or `None` where it is taken.
/// Leaving a prompt is always taken while a question is open.
pub open spec fn rejection(session: SessionView, reply: ReplyView) -> Option<Rejection> {
    match session.stage {
        Stage::Asking(question) => match reply {
            ReplyView::Cancel => None,
            ReplyView::Choice(index) => match question {
                Question::CommitType => if CommitType::at(index as int) is Some {
                    None
                } else {
                    Some(Rejection::NoSuchType)
                },
                _ => Some(Rejection::Unexpected),
            },
            ReplyView::Text(text) => match question {
                Question::Description => match description_verdict(text) {
                    Ok(_) => None,
                    Err(error) => Some(Rejection::Description(error)),
                },
                Question::Scope | Question::BodyLine | Question::BreakingChange
                | Question::Issues => None,
                _ => Some(Rejection::Unexpected),
            },
            ReplyView::Confirm(_) => match question {
                Question::WantBody | Question::WantBreakingChange | Question::WantIssues => None,
                _ => Some(Rejection::Unexpected),
            },
        },
        _ => Some(Rejection::Unexpected),
    }
}

/// The session after `reply`. A reply that is turned down changes nothing.
/// Leaving a prompt cancels the session. Any other reply fills the field
/// of the open question and opens the next: type, scope, description,
/// then body, breaking change and issues, each of these three only after
/// a yes. Body lines are taken as typed until a blank one ends them; the
/// description is kept as typed; scope, breaking-change note and issues
/// are normalized.
pub open spec fn step(session: SessionView, reply: ReplyView) -> SessionView {
    if rejection(session, reply) is Some {
        session
    } else {
        match (session.stage, reply) {
            (Stage::Asking(_), ReplyView::Cancel) => SessionView {
                stage: Stage::Cancelled,
                ..session
            },
            (Stage::Asking(Question::CommitType), ReplyView::Choice(index)) => SessionView {
                stage: Stage::Asking(Question::Scope),
                commit_type: CommitType::at(index as int),
                ..session
            },
            (Stage::Asking(Question::Scope), ReplyView::Text(text)) => SessionView {
                stage: Stage::Asking(Question::Description),
                scope: normalized(text),
                ..session
            },
            (Stage::Asking(Question::Description), ReplyView::Text(text)) => SessionView {
                stage: Stage::Asking(Question::WantBody),
                description: Some(text),
                ..session
            },
            (Stage::Asking(Question::WantBody), ReplyView::Confirm(yes)) => SessionView {
                stage: Stage::Asking(
                    if yes {
                        Question::BodyLine
                    } else {
                        Question::WantBreakingChange
                    },
                ),
                ..session
            },
            (Stage::Asking(Question::BodyLine), ReplyView::Text(text)) => if is_blank(text) {
                SessionView { stage: Stage::Asking(Question::WantBreakingChange), ..session }
            } else {
                SessionView { body_lines: session.body_lines.push(text), ..session }
            },
            (Stage::Asking(Question::WantBreakingChange), ReplyView::Confirm(yes)) => SessionView {
                stage: Stage::Asking(
                    if yes {
                        Question::BreakingChange
                    } else {
                        Question::WantIssues
                    },
                ),
                ..session
            },
            (Stage::Asking(Question::BreakingChange), ReplyView::Text(text)) => SessionView {
                stage: Stage::Asking(Question::WantIssues),
                breaking_change: normalized(text),
                ..session
            },
            (Stage::Asking(Question::WantIssues), ReplyView::Confirm(yes)) => SessionView {
                stage: if yes {
                    Stage::Asking(Question::Issues)
                } else {
                    Stage::Complete
                },
                ..session
            },
            (Stage::Asking(Question::Issues), ReplyView::Text(text)) => SessionView {
                stage: Stage::Complete,
                issues: normalized(text),
                ..session
            },
            _ => session,
        }
    }
}

/// What `answer` reports: the stage that the reply leads to, or why the
/// reply was turned down.
pub open spec fn outcome(session: SessionView, reply: ReplyView) -> Result<Stage, Rejection> {
    match rejection(session, reply) {
        Some(reason) => Err(reason),
        None => Ok(step(session, reply).stage),
    }
}

/// Whether the description question lies behind: it does once the question
/// after it has been opened.
pub open spec fn described(stage: Stage) -> bool {
    match stage {
        Stage::Asking(question) => question != Question::CommitType && question != Question::Scope
            && question != Question::Description,
        Stage::Complete => true,
        Stage::Cancelled => false,
    }
}

/// What holds of every session: once the type question lies behind, a type
/// is there; once the description question lies behind, an accepted
/// description is there; no body line is blank; scope, breaking-change note
/// and issues are in kept form.
pub open spec fn well_formed(session: SessionView) -> bool {
    &&& (described(session.stage) || session.stage == Stage::Asking(Question::Description)
        || session.stage == Stage::Asking(Question::Scope)) ==> session.commit_type is Some
    &&& described(session.stage) ==> session.description is Some && description_verdict(
        session.description->0,
    ) is Ok
    &&& forall|i: int| 0 <= i < session.body_lines.len() ==> !is_blank(#[trigger] session.body_lines[i])
    &&& is_normalized(session.scope)
    &&& is_normalized(session.breaking_change)
    &&& is_normalized(session.issues)
}

/// The record that a complete session gives.
pub open spec fn gathered(session: SessionView) -> RecordView {
    RecordView {
        commit_type: session.commit_type->0,
        scope: session.scope,
        description: session.description->0,
        body: body_of(session.body_lines),
        breaking_change: session.breaking_change,
        issues: session.issues,
    }
}

/// A text joined from parts is not blank where its last part is not.
pub proof fn lemma_join_not_blank(parts: Seq<Seq<char>>, sep: Seq<char>)
    requires
        parts.len() > 0,
        !is_blank(parts.last()),
    ensures
        !is_blank(join(parts, sep)),
{
    let last = parts.last();
    let at = choose|i: int| 0 <= i < last.len() && !is_whitespace(#[trigger] last[i]);
    let whole = join(parts, sep);
    if parts.len() == 1 {
        assert(!is_whitespace(whole[at]));
    } else {
        let before = join(parts.drop_last(), sep) + sep;
        assert(whole =~= before + last);
        assert(whole[before.len() + at] == last[at]);
    }
}

/// Every reply leaves a well-formed session well-formed.
pub proof fn lemma_step_keeps_well_formed(session: SessionView, reply: ReplyView)
    requires
        well_formed(session),
    ensures
        well_formed(step(session, reply)),
{
    if let ReplyView::Text(text) = reply {
        lemma_normalized_is_normalized(text);
    }
}

/// No reply changes a session in which no question is open: a complete
/// session stays complete, a cancelled one cancelled.
pub proof fn lemma_closed_session_stays(session: SessionView, reply: ReplyView)
    requires
        !(session.stage is Asking),
    ensures
        step(session, reply) == session,
        outcome(session, reply) == Err::<Stage, Rejection>(Rejection::Unexpected),
{
}

/// Leaving a prompt cancels the session whichever question is open, and
/// nothing that was gathered changes.
pub proof fn lemma_cancel_ends_session(session: SessionView)
    requires
        session.stage is Asking,
    ensures
        step(session, ReplyView::Cancel) == (SessionView { stage: Stage::Cancelled, ..session }),
        outcome(session, ReplyView::Cancel) == Ok::<Stage, Rejection>(Stage::Cancelled),
{
}

/// The place of a stage in the order of the questionnaire.
pub open spec fn progress(stage: Stage) -> int {
    match stage {
        Stage::Asking(Question::CommitType) => 0,
        Stage::Asking(Question::Scope) => 1,
        Stage::Asking(Question::Description) => 2,
        Stage::Asking(Question::WantBody) => 3,
        Stage::Asking(Question::BodyLine) => 4,
        Stage::Asking(Question::WantBreakingChange) => 5,
        Stage::Asking(Question::BreakingChange) => 6,
        Stage::Asking(Question::WantIssues) => 7,
        Stage::Asking(Question::Issues) => 8,
        Stage::Complete => 9,
        Stage::Cancelled => 10,
    }
}

/// The questions come in one fixed order: a reply that is taken moves the
/// session forward, except a body line, after which the next is asked for;
/// a reply that is turned down leaves the same question open.
pub proof fn lemma_questions_in_order(session: SessionView, reply: ReplyView)
    ensures
        progress(step(session, reply).stage) >= progress(session.stage),
        rejection(session, reply) is Some ==> step(session, reply) == session,
        rejection(session, reply) is None && session.stage != Stage::Asking(Question::BodyLine)
            ==> progress(step(session, reply).stage) > progress(session.stage),
{
}

/// The fields of a complete, well-formed session make a valid record.
pub proof fn lemma_complete_session_is_valid(session: SessionView)
    requires
        well_formed(session),
        session.stage == Stage::Complete,
    ensures
        valid_record(gathered(session)),
        gathered(session) == record_of(
            session.commit_type->0,
            session.scope,
            session.description->0,
            body_of(session.body_lines),
            session.breaking_change,
            session.issues,
        ),
{
    if session.body_lines.len() > 0 {
        lemma_join_not_blank(session.body_lines, "\n"@);
    }
}

/// A run of the questionnaire. It starts at the type question, takes one
/// reply at a time, and gives a record once it is complete. Every session
/// is `well_formed`.
#[derive(Debug)]
pub struct Session {
    stage: Stage,
    commit_type: Option<CommitType>,
    scope: Option<String>,
    description: Option<String>,
    body_lines: Vec<String>,
    breaking_change: Option<String>,
    issues: Option<String>,
}

impl View for Session {
    type V = SessionView;

    closed spec fn view(&self) -> SessionView {
        SessionView {
            stage: self.stage,
            commit_type: self.commit_type,
            scope: text_of(self.scope),
            description: text_of(self.description),
            body_lines: texts(self.body_lines@),
            breaking_change: text_of(self.breaking_change),
            issues: text_of(self.issues),
        }
    }
}

impl Session {
    #[verifier::type_invariant]
    spec fn holds_well_formed(&self) -> bool {
        well_formed(self@)
    }

    /// A session before the first question is answered.
    pub fn new() -> (session: Session)
        ensures
            session@ == initial(),
    {
        let session = Session {
            stage: Stage::Asking(Question::CommitType),
            commit_type: None,
            scope: None,
            description: None,
            body_lines: Vec::new(),
            breaking_change: None,
            issues: None,
        };
        assert(texts(session.body_lines@) =~= Seq::<Seq<char>>::empty());
        session
    }

    /// Where the session stands.
    pub fn stage(&self) -> (stage: Stage)
        ensures
            stage == self@.stage,
            well_formed(self@),
    {
        proof {
            use_type_invariant(self);
        }
        self.stage
    }

    /// The number of the body line that is asked for next, counted from 1;
    /// where the count does not fit the machine's integer, its largest
    /// value.
    pub fn line_number(&self) -> (number: usize)
        ensures
            number == if self@.body_lines.len() < usize::MAX {
                self@.body_lines.len() + 1
            } else {
                usize::MAX as nat
            },
    {
        let entered = self.body_lines.len();
        if entered < usize::MAX {
            entered + 1
        } else {
            entered
        }
    }

    /// Takes the reply to the open question. A reply that is turned down
    /// leaves the session as it was, and the reason comes back with it; any
    /// other moves the session on as `step` says, and the new stage comes
    /// back with it.
    pub fn answer(self, reply: Reply) -> (next: (Session, Result<Stage, Rejection>))
        ensures
            next.0@ == step(self@, reply@),
            next.1 == outcome(self@, reply@),
    {
        proof {
            use_type_invariant(&self);
        }
        let question = match self.stage {
            Stage::Asking(question) => question,
            _ => {
                return (self, Err(Rejection::Unexpected));
            },
        };
        let Session { stage, commit_type, scope, description, body_lines, breaking_change, issues } =
            self;
        let mut body_lines = body_lines;
        let ghost lines_before = body_lines@;
        let mut turned_down: Option<Rejection> = None;
        let mut stage = stage;
        let mut commit_type = commit_type;
        let mut scope = scope;
        let mut description = description;
        let mut breaking_change = breaking_change;
        let mut issues = issues;
        match reply {
            Reply::Cancel => {
                stage = Stage::Cancelled;
            },
            Reply::Choice(index) => {
                match question {
                    Question::CommitType => {
                        match CommitType::from_index(index) {
                            Some(chosen) => {
                                commit_type = Some(chosen);
                                stage = Stage::Asking(Question::Scope);
                            },
                            None => {
                                turned_down = Some(Rejection::NoSuchType);
                            },
                        }
                    },
                    _ => {
                        turned_down = Some(Rejection::Unexpected);
                    },
                }
            },
            Reply::Text(text) => {
                proof {
                    lemma_normalized_is_normalized(text@);
                }
                match question {
                    Question::Scope => {
                        scope = normalize(text.as_str());
                        stage = Stage::Asking(Question::Description);
                    },
                    Question::Description => {
                        match validate_description(text.as_str()) {
                            Ok(_) => {
                                description = Some(text);
                                stage = Stage::Asking(Question::WantBody);
                            },
                            Err(error) => {
                                turned_down = Some(Rejection::Description(error));
                            },
                        }
                    },
                    Question::BodyLine => {
                        if blank(text.as_str()) {
                            stage = Stage::Asking(Question::WantBreakingChange);
                        } else {
                            body_lines.push(text);
                            assert(texts(body_lines@) =~= texts(lines_before).push(text@));
                        }
                    },
                    Question::BreakingChange => {
                        breaking_change = normalize(text.as_str());
                        stage = Stage::Asking(Question::WantIssues);
                    },
                    Question::Issues => {
                        issues = normalize(text.as_str());
                        stage = Stage::Complete;
                    },
                    _ => {
                        turned_down = Some(Rejection::Unexpected);
                    },
                }
            },
            Reply::Confirm(yes) => {
                match question {
                    Question::WantBody => {
                        stage = Stage::Asking(
                            if yes {
                                Question::BodyLine
                            } else {
                                Question::WantBreakingChange
                            },
                        );
                    },
                    Question::WantBreakingChange => {
                        stage = Stage::Asking(
                            if yes {
                                Question::BreakingChange
                            } else {
                                Question::WantIssues
                            },
                        );
                    },
                    Question::WantIssues => {
                        stage = if yes {
                            Stage::Asking(Question::Issues)
                        } else {
                            Stage::Complete
                        };
                    },
                    _ => {
                        turned_down = Some(Rejection::Unexpected);
                    },
                }
            },
        }
        let result = match turned_down {
            Some(reason) => Err(reason),
            None => Ok(stage),
        };
        (
            Session { stage, commit_type, scope, description, body_lines, breaking_change, issues },
            result,
        )
    }

    /// The record that the session has gathered: there is one once the
    /// session is complete, and never before or after a cancel.
    pub fn into_record(self) -> (record: Option<CommitRecord>)
        ensures
            record is Some <==> self@.stage == Stage::Complete,
            record matches Some(made) ==> made@ == gathered(self@) && valid_record(made@),
    {
        proof {
            use_type_invariant(&self);
        }
        match self.stage {
            Stage::Complete => {},
            _ => {
                return None;
            },
        }
        proof {
            lemma_complete_session_is_valid(self@);
        }
        let Session { stage, commit_type, scope, description, body_lines, breaking_change, issues } =
            self;
        let body = join_body(&body_lines);
        match (commit_type, description) {
            (Some(commit_type), Some(description)) => {
                match CommitRecord::new(
                    commit_type,
                    scope,
                    description,
                    body,
                    breaking_change,
                    issues,
                ) {
                    Ok(made) => Some(made),
                    Err(_) => None,
                }
            },
            _ => None,
        }
    }
}

} // verus!
