//! The commit record: its fields, the rules they obey and how raw input is
//! brought under them.

use crate::commit_type::CommitType;
use crate::compose::{
    generate_commit_message, message_text, text_of, title_line, title_text, Fields,
};
use crate::text::{
    blank, chars_of, is_blank, join, lemma_join_push, lemma_trimmed_bounds, lemma_trimmed_twice,
    trim_span, trimmed,
};
use vstd::prelude::*;

verus! {

/// The longest description, in characters, that a record takes.
pub const MAX_DESCRIPTION_CHARS: usize = 50;

/// Why a description is turned down.
#[derive(Clone, Copy, Debug, PartialEq, Eq, Structural)]
pub enum DescriptionError {
    /// It holds nothing but white space.
    Empty,
    /// It has more than `MAX_DESCRIPTION_CHARS` characters.
    TooLong,
}

impl DescriptionError {
    /// What the user is told.
    pub open spec fn message_text(self) -> Seq<char> {
        match self {
            DescriptionError::Empty => "描述不能为空"@,
            DescriptionError::TooLong => "描述不应超过50个字符"@,
        }
    }

    /// What the user is told.
    pub fn message(self) -> (message: &'static str)
        ensures
            message@ == self.message_text(),
    {
        match self {
            DescriptionError::Empty => "描述不能为空",
            DescriptionError::TooLong => "描述不应超过50个字符",
        }
    }
}

/// The two rejections read differently.
pub proof fn lemma_rejections_differ()
    ensures
        DescriptionError::Empty.message_text() != DescriptionError::TooLong.message_text(),
{
    reveal_strlit("描述不能为空");
    reveal_strlit("描述不应超过50个字符");
    assert(DescriptionError::Empty.message_text().len() == 6);
    assert(DescriptionError::TooLong.message_text().len() == 11);
}

/// Whether `input` can be a description: it must hold more than white
/// space, and no more than `MAX_DESCRIPTION_CHARS` characters, white space
/// at its ends counted. Emptiness is looked at first.
pub open spec fn description_verdict(input: Seq<char>) -> Result<(), DescriptionError> {
    if is_blank(input) {
        Err(DescriptionError::Empty)
    } else if input.len() > MAX_DESCRIPTION_CHARS {
        Err(DescriptionError::TooLong)
    } else {
        Ok(())
    }
}

/// Checks `input` as a description.
pub fn validate_description(input: &str) -> (verdict: Result<(), DescriptionError>)
    ensures
        verdict == description_verdict(input@),
{
    let chars = chars_of(input);
    assert(chars@.subrange(0, chars.len() as int) =~= input@);
    let (start, end) = trim_span(&chars, 0, chars.len());
    if start == end {
        Err(DescriptionError::Empty)
    } else if chars.len() > MAX_DESCRIPTION_CHARS {
        Err(DescriptionError::TooLong)
    } else {
        Ok(())
    }
}

/// An optional free-text field as it is kept: trimmed, and absent where
/// nothing but white space was entered.
pub open spec fn normalized(input: Seq<char>) -> Option<Seq<char>> {
    if is_blank(input) {
        None
    } else {
        Some(trimmed(input))
    }
}

/// Brings the input for an optional free-text field into the form in which
/// it is kept.
pub fn normalize(input: &str) -> (kept: Option<String>)
    ensures
        text_of(kept) == normalized(input@),
{
    let chars = chars_of(input);
    assert(chars@.subrange(0, chars.len() as int) =~= input@);
    let (start, end) = trim_span(&chars, 0, chars.len());
    if start == end {
        None
    } else {
        Some(input.substring_char(start, end).to_owned())
    }
}

/// The texts of `lines`.
pub open spec fn texts(lines: Seq<String>) -> Seq<Seq<char>> {
    Seq::new(lines.len(), |i: int| lines[i]@)
}

/// The body made of `lines`: the lines, one per line, or none where there
/// are no lines.
pub open spec fn body_of(lines: Seq<Seq<char>>) -> Option<Seq<char>> {
    if lines.len() == 0 {
        None
    } else {
        Some(join(lines, "\n"@))
    }
}

/// Makes the body out of the lines entered for it.
pub fn join_body(lines: &Vec<String>) -> (body: Option<String>)
    ensures
        text_of(body) == body_of(texts(lines@)),
{
    if lines.len() == 0 {
        return None;
    }
    let ghost all = texts(lines@);
    let mut body = String::new();
    let mut i: usize = 0;
    assert(all.take(0) =~= Seq::<Seq<char>>::empty());
    while i < lines.len()
        invariant
            i <= lines.len(),
            all == texts(lines@),
            body@ == join(all.take(i as int), "\n"@),
        decreases lines.len() - i,
    {
        if i > 0 {
            body.append("\n");
        }
        body.append(lines[i].as_str());
        proof {
            lemma_join_push(all.take(i as int), all[i as int], "\n"@);
            assert(all.take(i as int).push(all[i as int]) =~= all.take(i + 1));
            assert(body@ =~= join(all.take(i + 1), "\n"@));
        }
        i += 1;
    }
    assert(all.take(i as int) =~= all);
    Some(body)
}

/// Whether an optional free-text field is in the form in which it is
/// kept: absent, or trimmed and holding more than white space.
pub open spec fn is_normalized(field: Option<Seq<char>>) -> bool {
    match field {
        Some(text) => !is_blank(text) && trimmed(text) == text,
        None => true,
    }
}

/// What `normalized` gives is in kept form.
pub proof fn lemma_normalized_is_normalized(input: Seq<char>)
    ensures
        is_normalized(normalized(input)),
{
    if !is_blank(input) {
        let (a, b) = lemma_trimmed_bounds(input);
        lemma_trimmed_twice(input);
        assert(trimmed(input)[0] == input[a]);
    }
}

/// An optional field as it is kept, from what was given for it.
pub open spec fn normalized_field(field: Option<Seq<char>>) -> Option<Seq<char>> {
    match field {
        Some(text) => normalized(text),
        None => None,
    }
}

/// A body as it is kept: as given, and absent where it holds nothing but
/// white space.
pub open spec fn kept_body(body: Option<Seq<char>>) -> Option<Seq<char>> {
    match body {
        Some(text) => if is_blank(text) {
            None
        } else {
            Some(text)
        },
        None => None,
    }
}

/// What a commit record holds.
pub struct RecordView {
    pub commit_type: CommitType,
    pub scope: Option<Seq<char>>,
    pub description: Seq<char>,
    pub body: Option<Seq<char>>,
    pub breaking_change: Option<Seq<char>>,
    pub issues: Option<Seq<char>>,
}

/// The rules of a record: the description is accepted by
/// `description_verdict`; scope, breaking-change note and issues are
/// absent or trimmed and not blank; the body is absent or not blank.
pub open spec fn valid_record(record: RecordView) -> bool {
    &&& description_verdict(record.description) is Ok
    &&& is_normalized(record.scope)
    &&& kept_body(record.body) == record.body
    &&& is_normalized(record.breaking_change)
    &&& is_normalized(record.issues)
}

/// The fields from which the message of `record` is made.
pub open spec fn fields_of(record: RecordView) -> Fields {
    Fields {
        commit_type: record.commit_type.tag_text(),
        scope: record.scope,
        description: record.description,
        body: record.body,
        breaking_change: record.breaking_change,
        issues: record.issues,
    }
}

/// The record made from raw input: the description as given, the body kept
/// unless blank, the other optional fields normalized.
pub open spec fn record_of(
    commit_type: CommitType,
    scope: Option<Seq<char>>,
    description: Seq<char>,
    body: Option<Seq<char>>,
    breaking_change: Option<Seq<char>>,
    issues: Option<Seq<char>>,
) -> RecordView {
    RecordView {
        commit_type,
        scope: normalized_field(scope),
        description,
        body: kept_body(body),
        breaking_change: normalized_field(breaking_change),
        issues: normalized_field(issues),
    }
}

/// Composing is a function of what a record holds: two records that hold
/// the same give the same title and the same message, character for
/// character.
pub proof fn lemma_message_is_determined(first: CommitRecord, second: CommitRecord)
    requires
        first@ == second@,
    ensures
        title_text(fields_of(first@)) == title_text(fields_of(second@)),
        message_text(fields_of(first@)) == message_text(fields_of(second@)),
{
}

/// What was given for an optional field, in the form in which it is kept.
pub fn normalize_field(field: &Option<String>) -> (kept: Option<String>)
    ensures
        text_of(kept) == normalized_field(text_of(*field)),
        is_normalized(text_of(kept)),
{
    match field {
        Some(text) => {
            proof {
                lemma_normalized_is_normalized(text@);
            }
            normalize(text.as_str())
        },
        None => None,
    }
}

/// The body as it is kept.
pub fn keep_body(body: Option<String>) -> (kept: Option<String>)
    ensures
        text_of(kept) == kept_body(text_of(body)),
{
    match body {
        Some(text) => {
            if blank(text.as_str()) {
                None
            } else {
                Some(text)
            }
        },
        None => None,
    }
}

/// The structured input of one commit message. A record obeys
/// `valid_record` from the moment it is made, and is not changed after.
#[derive(Debug)]
pub struct CommitRecord {
    commit_type: CommitType,
    scope: Option<String>,
    description: String,
    body: Option<String>,
    breaking_change: Option<String>,
    issues: Option<String>,
}

impl View for CommitRecord {
    type V = RecordView;

    closed spec fn view(&self) -> RecordView {
        RecordView {
            commit_type: self.commit_type,
            scope: text_of(self.scope),
            description: self.description@,
            body: text_of(self.body),
            breaking_change: text_of(self.breaking_change),
            issues: text_of(self.issues),
        }
    }
}

impl CommitRecord {
    #[verifier::type_invariant]
    spec fn obeys_rules(&self) -> bool {
        valid_record(self@)
    }

    /// Makes a record from raw input. The description must pass
    /// `description_verdict`, and is kept as given; a blank body is dropped;
    /// scope, breaking-change note and issues are trimmed, and dropped
    /// where blank.
    pub fn new(
        commit_type: CommitType,
        scope: Option<String>,
        description: String,
        body: Option<String>,
        breaking_change: Option<String>,
        issues: Option<String>,
    ) -> (made: Result<CommitRecord, DescriptionError>)
        ensures
            match made {
                Ok(record) => description_verdict(description@) is Ok && valid_record(record@)
                    && record@ == record_of(
                    commit_type,
                    text_of(scope),
                    description@,
                    text_of(body),
                    text_of(breaking_change),
                    text_of(issues),
                ),
                Err(error) => description_verdict(description@) == Err::<(), DescriptionError>(
                    error,
                ),
            },
    {
        match validate_description(description.as_str()) {
            Err(error) => Err(error),
            Ok(_) => {
                let scope = normalize_field(&scope);
                let breaking_change = normalize_field(&breaking_change);
                let issues = normalize_field(&issues);
                let body = keep_body(body);
                assert(kept_body(text_of(body)) == text_of(body));
                Ok(CommitRecord { commit_type, scope, description, body, breaking_change, issues })
            },
        }
    }

    /// The type of the change.
    pub fn commit_type(&self) -> (commit_type: CommitType)
        ensures
            commit_type == self@.commit_type,
            valid_record(self@),
    {
        proof {
            use_type_invariant(self);
        }
        self.commit_type
    }

    /// The part of the project that the change touches, if one was named.
    pub fn scope(&self) -> (scope: &Option<String>)
        ensures
            text_of(*scope) == self@.scope,
            valid_record(self@),
    {
        proof {
            use_type_invariant(self);
        }
        &self.scope
    }

    /// The subject of the change.
    pub fn description(&self) -> (description: &str)
        ensures
            description@ == self@.description,
            valid_record(self@),
    {
        proof {
            use_type_invariant(self);
        }
        self.description.as_str()
    }

    /// The longer account of the change, if one was given.
    pub fn body(&self) -> (body: &Option<String>)
        ensures
            text_of(*body) == self@.body,
            valid_record(self@),
    {
        proof {
            use_type_invariant(self);
        }
        &self.body
    }

    /// What the change breaks, if it breaks anything.
    pub fn breaking_change(&self) -> (breaking_change: &Option<String>)
        ensures
            text_of(*breaking_change) == self@.breaking_change,
            valid_record(self@),
    {
        proof {
            use_type_invariant(self);
        }
        &self.breaking_change
    }

    /// The issues that the change closes, separated by commas, if any.
    pub fn issues(&self) -> (issues: &Option<String>)
        ensures
            text_of(*issues) == self@.issues,
            valid_record(self@),
    {
        proof {
            use_type_invariant(self);
        }
        &self.issues
    }

    /// The title line of the message.
    pub fn title(&self) -> (title: String)
        ensures
            title@ == title_text(fields_of(self@)),
            valid_record(self@),
    {
        proof {
            use_type_invariant(self);
        }
        title_line(
            self.commit_type.tag(),
            &self.scope,
            self.breaking_change.is_some(),
            self.description.as_str(),
        )
    }

    /// The message of the commit.
    pub fn message(&self) -> (message: String)
        ensures
            message@ == message_text(fields_of(self@)),
            valid_record(self@),
    {
        proof {
            use_type_invariant(self);
        }
        generate_commit_message(
            self.commit_type.tag(),
            &self.scope,
            self.description.as_str(),
            &self.body,
            &self.breaking_change,
            &self.issues,
        )
    }
}

} // verus!
