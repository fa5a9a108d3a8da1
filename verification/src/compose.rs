//! Rendering the fields of a commit into the text of its message.

use crate::text::{
    chars_of, closed_section, cut, find_char, join, lemma_find_char, lemma_join_first,
    lemma_join_push, lemma_lines_of_joined, lemma_split_joined_sections, lemma_trimmed_bounds,
    lines, no_blank_line, single_line, spans_within, split_on, split_sections, split_spans,
    strip_cr, trim_span, trimmed,
};
use vstd::prelude::*;

verus! {

/// The fields that a commit message is made of, as plain text.
pub struct Fields {
    pub commit_type: Seq<char>,
    pub scope: Option<Seq<char>>,
    pub description: Seq<char>,
    pub body: Option<Seq<char>>,
    pub breaking_change: Option<Seq<char>>,
    pub issues: Option<Seq<char>>,
}

/// The text of an optional string.
pub open spec fn text_of(field: Option<String>) -> Option<Seq<char>> {
    match field {
        Some(text) => Some(text@),
        None => None,
    }
}

/// The title: the type, the scope in round brackets if there is one, an
/// exclamation mark if the change is breaking, a colon, a space and the
/// description.
pub open spec fn title_text(fields: Fields) -> Seq<char> {
    fields.commit_type + (match fields.scope {
        Some(scope) => "("@ + scope + ")"@,
        None => Seq::empty(),
    }) + (if fields.breaking_change is Some {
        "!"@
    } else {
        Seq::empty()
    }) + ": "@ + fields.description
}

/// The footer line that closes the issue named by `token`.
pub open spec fn closes_line(token: Seq<char>) -> Seq<char> {
    if token.len() > 0 && token[0] == '#' {
        "Closes "@ + token
    } else {
        "Closes #"@ + token
    }
}

/// One footer line for each comma-separated token of `issues`, in order.
pub open spec fn issue_lines(issues: Seq<char>) -> Seq<Seq<char>> {
    let tokens = split_on(issues, ',');
    Seq::new(tokens.len(), |k: int| closes_line(trimmed(tokens[k])))
}

/// The footer block: the issue lines, one per line.
pub open spec fn issues_text(issues: Seq<char>) -> Seq<char> {
    join(issue_lines(issues), "\n"@)
}

/// The section that a field contributes, if the field is there.
pub open spec fn section(field: Option<Seq<char>>) -> Seq<Seq<char>> {
    match field {
        Some(text) => seq![text],
        None => Seq::empty(),
    }
}

/// The sections of the message in order: the title, then the body, the
/// breaking-change note and the footer block, each only if its field is
/// there.
pub open spec fn sections(fields: Fields) -> Seq<Seq<char>> {
    seq![title_text(fields)] + section(fields.body) + section(
        match fields.breaking_change {
            Some(note) => Some("BREAKING CHANGE: "@ + note),
            None => None,
        },
    ) + section(
        match fields.issues {
            Some(issues) => Some(issues_text(issues)),
            None => None,
        },
    )
}

/// The message: its sections with one blank line between each two.
pub open spec fn message_text(fields: Fields) -> Seq<char> {
    join(sections(fields), "\n\n"@)
}

/// The message opens with the title, and where the title holds no line
/// feed it is the first line: all that stands before the first line feed
/// of the message.
pub proof fn lemma_title_is_first_line(fields: Fields)
    requires
        single_line(title_text(fields)),
    ensures
        sections(fields)[0] == title_text(fields),
        message_text(fields).take(title_text(fields).len() as int) == title_text(fields),
        find_char(message_text(fields), '\n') == title_text(fields).len(),
{
    reveal_strlit("\n\n");
    let parts = sections(fields);
    let title = title_text(fields);
    let message = message_text(fields);
    if parts.len() >= 2 {
        lemma_join_first(parts, "\n\n"@);
        let tail = "\n\n"@ + join(parts.drop_first(), "\n\n"@);
        assert(message =~= title + tail);
        assert(message[title.len() as int] == tail[0]);
    }
    assert(message.take(title.len() as int) =~= title);
    assert forall|i: int| 0 <= i < title.len() implies #[trigger] message[i] != '\n' by {
        assert(message[i] == title[i]);
    }
    lemma_find_char(message, '\n', title.len() as int);
}

/// Splitting the message at its blank lines gives back its sections: the
/// title, and the body, the breaking-change note behind its prefix and
/// the footer block, each where its field is there. This holds where the
/// blank lines between the sections are the only ones in the message and
/// are found first: no section holds a blank line, and none but the last
/// ends in a line feed.
pub proof fn lemma_message_splits_into_sections(fields: Fields)
    requires
        forall|k: int|
            0 <= k < sections(fields).len() - 1 ==> closed_section(#[trigger] sections(fields)[k]),
        no_blank_line(sections(fields).last()),
    ensures
        split_sections(message_text(fields)) == sections(fields),
{
    lemma_split_joined_sections(sections(fields));
}

/// There is a token for every comma and one more, so at least one.
pub proof fn lemma_split_on_len(s: Seq<char>, sep: char)
    ensures
        split_on(s, sep).len() >= 1,
{
}

/// The footer block holds one line for each comma-separated token of
/// `issues`, in the order of the tokens: `Closes`, a space, and the token
/// trimmed, with `#` before it unless it starts with one. Its lines are
/// those lines wherever no trimmed token holds a line feed.
pub proof fn lemma_issue_lines(issues: Seq<char>)
    ensures
        issue_lines(issues).len() == split_on(issues, ',').len(),
        issue_lines(issues).len() >= 1,
        forall|k: int|
            0 <= k < issue_lines(issues).len() ==> #[trigger] issue_lines(issues)[k]
                == closes_line(trimmed(split_on(issues, ',')[k])),
        (forall|k: int|
            0 <= k < issue_lines(issues).len() ==> single_line(#[trigger] issue_lines(issues)[k]))
            ==> lines(issues_text(issues)) == issue_lines(issues),
{
    lemma_split_on_len(issues, ',');
    let ls = issue_lines(issues);
    if forall|k: int| 0 <= k < ls.len() ==> single_line(#[trigger] ls[k]) {
        assert forall|k: int| 0 <= k < ls.len() implies strip_cr(#[trigger] ls[k]) == ls[k]
            && ls[k].len() > 0 by {
            lemma_closes_line_end(trimmed(split_on(issues, ',')[k]));
            lemma_trimmed_bounds(split_on(issues, ',')[k]);
        }
        lemma_lines_of_joined(ls);
    }
}

/// A footer line is not empty and ends in the last character of its
/// token, or in `#` where the token is empty.
pub proof fn lemma_closes_line_end(token: Seq<char>)
    ensures
        closes_line(token).len() > 0,
        closes_line(token).last() == if token.len() > 0 {
            token.last()
        } else {
            '#'
        },
{
    reveal_strlit("Closes ");
    reveal_strlit("Closes #");
}

/// Lines that hold no line feed and are not empty, joined by line feeds,
/// make a text without a blank line that does not end in a line feed.
pub proof fn lemma_joined_lines_closed(ls: Seq<Seq<char>>)
    requires
        ls.len() > 0,
        forall|k: int| 0 <= k < ls.len() ==> single_line(#[trigger] ls[k]) && ls[k].len() > 0,
    ensures
        closed_section(join(ls, "\n"@)),
        join(ls, "\n"@).len() > 0,
    decreases ls.len(),
{
    reveal_strlit("\n");
    let whole = join(ls, "\n"@);
    let last = ls.last();
    assert(single_line(last) && last.len() > 0);
    if ls.len() > 1 {
        let front = ls.drop_last();
        assert forall|k: int| 0 <= k < front.len() implies single_line(#[trigger] front[k])
            && front[k].len() > 0 by {
            assert(front[k] == ls[k]);
        }
        lemma_joined_lines_closed(front);
        let head = join(front, "\n"@);
        let n = head.len() as int;
        assert(whole =~= head + "\n"@ + last);
        assert forall|i: int| 0 <= i < whole.len() - 1 implies !(#[trigger] whole[i] == '\n'
            && whole[i + 1] == '\n') by {
            if i + 1 < n {
                assert(whole[i] == head[i]);
                assert(whole[i + 1] == head[i + 1]);
            } else if i + 1 == n {
                assert(whole[i] == head.last());
            } else if i == n {
                assert(whole[i + 1] == last[0]);
            } else {
                assert(whole[i] == last[i - n - 1]);
            }
        }
        assert(whole.last() == last.last());
    }
}

/// The message splits back into its sections wherever type, scope and
/// description hold no line feed, body and breaking-change note hold no
/// blank line and do not end in a line feed, and no issue token, trimmed,
/// holds a line feed.
pub proof fn lemma_plain_fields_split_into_sections(fields: Fields)
    requires
        single_line(fields.commit_type),
        fields.scope matches Some(scope) ==> single_line(scope),
        single_line(fields.description),
        fields.body matches Some(body) ==> closed_section(body),
        fields.breaking_change matches Some(note) ==> closed_section(note),
        fields.issues matches Some(issues) ==> forall|k: int|
            0 <= k < split_on(issues, ',').len() ==> single_line(
                trimmed(#[trigger] split_on(issues, ',')[k]),
            ),
    ensures
        split_sections(message_text(fields)) == sections(fields),
{
    reveal_strlit("(");
    reveal_strlit(")");
    reveal_strlit("!");
    reveal_strlit(": ");
    reveal_strlit("BREAKING CHANGE: ");
    reveal_strlit("Closes ");
    reveal_strlit("Closes #");
    let title = title_text(fields);
    assert(single_line(title) && title.len() > 0);
    assert(closed_section(title));
    if let Some(note) = fields.breaking_change {
        let prefix = "BREAKING CHANGE: "@;
        let block = prefix + note;
        assert forall|i: int| 0 <= i < block.len() - 1 implies !(#[trigger] block[i] == '\n'
            && block[i + 1] == '\n') by {
            if i >= prefix.len() {
                assert(block[i] == note[i - prefix.len()]);
                assert(block[i + 1] == note[i + 1 - prefix.len()]);
            }
        }
        if note.len() > 0 {
            assert(block.last() == note.last());
        }
        assert(closed_section(block));
    }
    if let Some(issues) = fields.issues {
        let ls = issue_lines(issues);
        lemma_split_on_len(issues, ',');
        assert forall|k: int| 0 <= k < ls.len() implies single_line(#[trigger] ls[k])
            && ls[k].len() > 0 by {
            let token = trimmed(split_on(issues, ',')[k]);
            assert(single_line(token));
            let line = closes_line(token);
            assert forall|i: int| 0 <= i < line.len() implies #[trigger] line[i] != '\n' by {
                if token.len() > 0 && token[0] == '#' {
                    if i >= 7 {
                        assert(line[i] == token[i - 7]);
                    }
                } else {
                    if i >= 8 {
                        assert(line[i] == token[i - 8]);
                    }
                }
            }
        }
        lemma_joined_lines_closed(ls);
    }
    lemma_message_splits_into_sections(fields);
}

/// The title line of a commit.
pub fn title_line(
    commit_type: &str,
    scope: &Option<String>,
    breaking: bool,
    description: &str,
) -> (title: String)
    ensures
        title@ == commit_type@ + (match scope {
            Some(scope) => "("@ + scope@ + ")"@,
            None => Seq::empty(),
        }) + (if breaking {
            "!"@
        } else {
            Seq::empty()
        }) + ": "@ + description@,
{
    let mut title = String::from_str(commit_type);
    match scope {
        Some(scope) => {
            title.append("(");
            title.append(scope.as_str());
            title.append(")");
            assert(title@ =~= commit_type@ + ("("@ + scope@ + ")"@));
        },
        None => {
            assert(title@ =~= commit_type@ + Seq::<char>::empty());
        },
    }
    let ghost scoped = title@;
    if breaking {
        title.append("!");
    } else {
        assert(title@ =~= scoped + Seq::<char>::empty());
    }
    title.append(": ");
    title.append(description);
    title
}

/// The footer block for `issues`: a `Closes` line for each comma-separated
/// token, trimmed, with `#` put before a token that does not start with it.
pub fn issues_block(issues: &str) -> (block: String)
    ensures
        block@ == issues_text(issues@),
{
    let chars = chars_of(issues);
    let spans = split_spans(&chars, ',');
    let ghost tokens = split_on(issues@, ',');
    let ghost lines = issue_lines(issues@);
    let mut block = String::new();
    let mut k: usize = 0;
    assert(lines.take(0) =~= Seq::<Seq<char>>::empty());
    while k < spans.len()
        invariant
            k <= spans.len(),
            chars@ == issues@,
            tokens == split_on(issues@, ','),
            lines == issue_lines(issues@),
            spans_within(spans@, chars@.len()),
            cut(chars@, spans@) == tokens,
            block@ == join(lines.take(k as int), "\n"@),
        decreases spans.len() - k,
    {
        let (start, end) = spans[k];
        assert(cut(chars@, spans@)[k as int] == chars@.subrange(start as int, end as int));
        let (a, b) = trim_span(&chars, start, end);
        let token = issues.substring_char(a, b);
        assert(token@ == trimmed(tokens[k as int]));
        if k > 0 {
            block.append("\n");
        }
        if a < b && chars[a] == '#' {
            assert(token@[0] == '#');
            block.append("Closes ");
        } else {
            block.append("Closes #");
        }
        block.append(token);
        proof {
            lemma_join_push(lines.take(k as int), lines[k as int], "\n"@);
            assert(lines.take(k as int).push(lines[k as int]) =~= lines.take(k + 1));
            assert(block@ =~= join(lines.take(k + 1), "\n"@));
        }
        k += 1;
    }
    assert(lines.take(k as int) =~= lines);
    block
}

/// The conventional-commit message for the given fields: the title, then
/// the body, the breaking-change note and the issue footer, each only if
/// given, with one blank line between sections.
pub fn generate_commit_message(
    commit_type: &str,
    scope: &Option<String>,
    description: &str,
    body: &Option<String>,
    breaking_change: &Option<String>,
    issues: &Option<String>,
) -> (message: String)
    ensures
        message@ == message_text(
            (Fields {
                commit_type: commit_type@,
                scope: text_of(*scope),
                description: description@,
                body: text_of(*body),
                breaking_change: text_of(*breaking_change),
                issues: text_of(*issues),
            }),
        ),
{
    let ghost fields = Fields {
        commit_type: commit_type@,
        scope: text_of(*scope),
        description: description@,
        body: text_of(*body),
        breaking_change: text_of(*breaking_change),
        issues: text_of(*issues),
    };
    let mut message = title_line(commit_type, scope, breaking_change.is_some(), description);
    let ghost mut parts = seq![title_text(fields)];
    assert(message@ =~= title_text(fields));
    if let Some(body) = body {
        message.append("\n\n");
        message.append(body.as_str());
        proof {
            lemma_join_push(parts, body@, "\n\n"@);
            parts = parts.push(body@);
        }
    }
    if let Some(note) = breaking_change {
        message.append("\n\nBREAKING CHANGE: ");
        message.append(note.as_str());
        proof {
            reveal_strlit("\n\nBREAKING CHANGE: ");
            reveal_strlit("\n\n");
            reveal_strlit("BREAKING CHANGE: ");
            assert("\n\nBREAKING CHANGE: "@ =~= "\n\n"@ + "BREAKING CHANGE: "@);
            lemma_join_push(parts, "BREAKING CHANGE: "@ + note@, "\n\n"@);
            assert(message@ =~= join(parts, "\n\n"@) + "\n\n"@ + ("BREAKING CHANGE: "@ + note@));
            parts = parts.push("BREAKING CHANGE: "@ + note@);
        }
    }
    if let Some(issues) = issues {
        message.append("\n\n");
        let block = issues_block(issues.as_str());
        message.append(block.as_str());
        proof {
            lemma_join_push(parts, block@, "\n\n"@);
            parts = parts.push(block@);
        }
    }
    assert(parts =~= sections(fields));
    message
}

} // verus!
