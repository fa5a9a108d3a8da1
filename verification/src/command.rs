//! Serialising a commit message into the `git commit` command line that
//! records it, one `-m` argument per line.

use crate::text::{
    chars_of, cut, find_from, is_blank, lemma_find_char, line_spans, lines, single_line,
    spans_within, trim_span,
};
use vstd::prelude::*;

verus! {

/// `s` with a backslash put before each double quote.
pub open spec fn escape_quotes(s: Seq<char>) -> Seq<char>
    decreases s.len(),
{
    if s.len() == 0 {
        Seq::empty()
    } else {
        escape_quotes(s.drop_last()) + (if s.last() == '"' {
            "\\\""@
        } else {
            seq![s.last()]
        })
    }
}

/// The value that a line of a multi-line message passes to `-m`: the line
/// itself, or nothing where the line is blank.
pub open spec fn paragraph(line: Seq<char>) -> Seq<char> {
    if is_blank(line) {
        Seq::empty()
    } else {
        line
    }
}

/// The values of the `-m` arguments for `message`, in order. A message of
/// at most one line is one argument, passed whole. Otherwise each line is
/// an argument of its own, a blank line an empty one, except that a blank
/// first line gives none.
pub open spec fn message_arguments(message: Seq<char>) -> Seq<Seq<char>> {
    let ls = lines(message);
    if ls.len() <= 1 {
        seq![message]
    } else if is_blank(ls[0]) {
        Seq::new((ls.len() - 1) as nat, |k: int| paragraph(ls[k + 1]))
    } else {
        Seq::new(ls.len(), |k: int| paragraph(ls[k]))
    }
}

/// One `-m` argument as it stands on the command line: the value in double
/// quotes, its own double quotes escaped.
pub open spec fn argument_text(value: Seq<char>) -> Seq<char> {
    " -m \""@ + escape_quotes(value) + "\""@
}

/// The command line that passes `values` as `-m` arguments, in order.
pub open spec fn command_text(values: Seq<Seq<char>>) -> Seq<char>
    decreases values.len(),
{
    if values.len() == 0 {
        "git commit"@
    } else {
        command_text(values.drop_last()) + argument_text(values.last())
    }
}

/// The command line that records `message`.
pub open spec fn git_command_text(message: Seq<char>) -> Seq<char> {
    command_text(message_arguments(message))
}

/// A text without a line feed has at most one line: itself, unless it is
/// empty.
pub proof fn lemma_single_line_has_one_line(message: Seq<char>)
    requires
        single_line(message),
    ensures
        lines(message) == if message.len() == 0 {
            Seq::<Seq<char>>::empty()
        } else {
            seq![message]
        },
{
    lemma_find_char(message, '\n', message.len() as int);
}

/// A message of at most one line is serialised to exactly one `-m`
/// argument, which passes it whole.
pub proof fn lemma_one_line_one_argument(message: Seq<char>)
    requires
        lines(message).len() <= 1,
    ensures
        message_arguments(message) == seq![message],
        git_command_text(message) == "git commit"@ + argument_text(message),
{
    lemma_command_text_push(Seq::empty(), message);
    assert(Seq::<Seq<char>>::empty().push(message) =~= seq![message]);
}

/// A message of several lines is serialised line by line. Every line after
/// the first gives one argument, an empty one where the line is blank. The
/// first line gives one too unless it is blank: then it gives none, so
/// that the arguments never start with the empty one of a leading blank
/// line.
pub proof fn lemma_lines_to_arguments(message: Seq<char>)
    requires
        lines(message).len() > 1,
    ensures
        is_blank(lines(message)[0]) ==> message_arguments(message).len() == lines(message).len()
            - 1 && forall|k: int|
            1 <= k < lines(message).len() ==> #[trigger] message_arguments(message)[k - 1]
                == paragraph(lines(message)[k]),
        !is_blank(lines(message)[0]) ==> message_arguments(message).len() == lines(
            message,
        ).len() && message_arguments(message)[0] == lines(message)[0] && forall|k: int|
            0 <= k < lines(message).len() ==> #[trigger] message_arguments(message)[k]
                == paragraph(lines(message)[k]),
{
}

/// Escaping goes part by part.
pub proof fn lemma_escape_quotes_concat(a: Seq<char>, b: Seq<char>)
    ensures
        escape_quotes(a + b) == escape_quotes(a) + escape_quotes(b),
    decreases b.len(),
{
    if b.len() == 0 {
        assert(a + b =~= a);
        assert(escape_quotes(a) + escape_quotes(b) =~= escape_quotes(a));
    } else {
        lemma_escape_quotes_concat(a, b.drop_last());
        assert((a + b).drop_last() =~= a + b.drop_last());
        assert((a + b).last() == b.last());
        let tail = if b.last() == '"' {
            "\\\""@
        } else {
            seq![b.last()]
        };
        assert(escape_quotes(a + b) =~= escape_quotes(a) + (escape_quotes(b.drop_last()) + tail));
    }
}

/// A text without double quotes is its own escaped form.
pub proof fn lemma_escape_quotes_plain(s: Seq<char>)
    requires
        forall|i: int| 0 <= i < s.len() ==> #[trigger] s[i] != '"',
    ensures
        escape_quotes(s) == s,
    decreases s.len(),
{
    if s.len() > 0 {
        lemma_escape_quotes_plain(s.drop_last());
        assert(s.drop_last() + seq![s.last()] =~= s);
    }
}

/// One more argument appends its text to the command line.
pub proof fn lemma_command_text_push(values: Seq<Seq<char>>, value: Seq<char>)
    ensures
        command_text(values.push(value)) == command_text(values) + argument_text(value),
{
    assert(values.push(value).drop_last() =~= values);
}

/// Appends `text[start..end]` to `out`, its double quotes escaped.
fn append_escaped(out: &mut String, text: &str, chars: &Vec<char>, start: usize, end: usize)
    requires
        chars@ == text@,
        start <= end <= chars.len(),
    ensures
        final(out)@ == old(out)@ + escape_quotes(text@.subrange(start as int, end as int)),
{
    let ghost part = text@.subrange(start as int, end as int);
    let mut from: usize = start;
    assert(part.take(0) =~= Seq::<char>::empty());
    assert(out@ =~= old(out)@ + escape_quotes(part.take(0)));
    while from < end
        invariant
            start <= from <= end <= chars.len(),
            chars@ == text@,
            part == text@.subrange(start as int, end as int),
            out@ == old(out)@ + escape_quotes(part.take(from - start)),
        decreases end - from,
    {
        let found = find_from(chars, from, '"');
        let at = if found < end {
            found
        } else {
            end
        };
        out.append(text.substring_char(from, at));
        let ghost run = text@.subrange(from as int, at as int);
        proof {
            lemma_escape_quotes_plain(run);
            lemma_escape_quotes_concat(part.take(from - start), run);
            assert(part.take(from - start) + run =~= part.take(at - start));
        }
        if at < end {
            out.append("\\\"");
            proof {
                assert(part.take(at + 1 - start).drop_last() =~= part.take(at - start));
                assert(part.take(at + 1 - start).last() == '"');
                assert(out@ =~= old(out)@ + escape_quotes(part.take(at + 1 - start)));
            }
            from = at + 1;
        } else {
            from = at;
        }
    }
    assert(part.take(end - start) =~= part);
}

/// The `git commit` command line that records `commit_message`: a message
/// of at most one line goes whole into one `-m` argument; of a longer one
/// each line gets an argument of its own, a blank line an empty one, and a
/// blank first line none. Double quotes are escaped with a backslash.
pub fn generate_git_command(commit_message: &str) -> (command: String)
    ensures
        command@ == git_command_text(commit_message@),
{
    let chars = chars_of(commit_message);
    let spans = line_spans(&chars);
    let ghost ls = lines(commit_message@);
    let ghost values = message_arguments(commit_message@);
    let mut command = String::from_str("git commit");
    if spans.len() <= 1 {
        command.append(" -m \"");
        append_escaped(&mut command, commit_message, &chars, 0, chars.len());
        command.append("\"");
        proof {
            assert(commit_message@.subrange(0, chars.len() as int) =~= commit_message@);
            assert(values =~= seq![commit_message@]);
            lemma_command_text_push(Seq::empty(), commit_message@);
            assert(Seq::<Seq<char>>::empty().push(commit_message@) =~= values);
            assert(command@ =~= command_text(Seq::empty()) + argument_text(commit_message@));
        }
        return command;
    }
    let ghost skipped: int = if is_blank(ls[0]) {
        1
    } else {
        0
    };
    let mut k: usize = 0;
    assert(values.take(0) =~= Seq::<Seq<char>>::empty());
    while k < spans.len()
        invariant
            k <= spans.len(),
            spans.len() > 1,
            chars@ == commit_message@,
            ls == lines(commit_message@),
            values == message_arguments(commit_message@),
            spans_within(spans@, chars@.len()),
            cut(chars@, spans@) == ls,
            skipped == if is_blank(ls[0]) { 1int } else { 0int },
            k == 0 ==> command@ == command_text(Seq::empty()),
            k > 0 ==> command@ == command_text(values.take(k - skipped)),
        decreases spans.len() - k,
    {
        let (start, end) = spans[k];
        assert(cut(chars@, spans@)[k as int] == chars@.subrange(start as int, end as int));
        let ghost line = ls[k as int];
        let (a, b) = trim_span(&chars, start, end);
        let ghost before = command@;
        if a < b {
            command.append(" -m \"");
            append_escaped(&mut command, commit_message, &chars, start, end);
            command.append("\"");
            assert(command@ =~= before + argument_text(paragraph(line)));
        } else if k > 0 {
            command.append(" -m \"\"");
            proof {
                reveal_strlit(" -m \"\"");
                reveal_strlit(" -m \"");
                reveal_strlit("\"");
                assert(escape_quotes(Seq::empty()) =~= Seq::<char>::empty());
                assert(command@ =~= before + argument_text(paragraph(line)));
            }
        }
        proof {
            if k > 0 || a < b {
                let done = if k == 0 {
                    Seq::<Seq<char>>::empty()
                } else {
                    values.take(k - skipped)
                };
                assert(done =~= values.take(k - skipped));
                lemma_command_text_push(done, paragraph(line));
                assert(values[k - skipped] == paragraph(line));
                assert(done.push(paragraph(line)) =~= values.take(k + 1 - skipped));
            } else {
                assert(values.take(0) =~= Seq::<Seq<char>>::empty());
            }
        }
        k += 1;
    }
    assert(values.take(k - skipped) =~= values);
    command
}

} // verus!
