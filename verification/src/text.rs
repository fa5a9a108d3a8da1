//! Character-level text primitives: white space, trimming, splitting and joining.

use vstd::prelude::*;

verus! {

/// Whether `c` is white space: the code points that carry the Unicode
/// property `White_Space`.
pub open spec fn is_whitespace(c: char) -> bool {
    let n = c as u32;
    ||| 0x09 <= n <= 0x0D
    ||| n == 0x20
    ||| n == 0x85
    ||| n == 0xA0
    ||| n == 0x1680
    ||| 0x2000 <= n <= 0x200A
    ||| n == 0x2028
    ||| n == 0x2029
    ||| n == 0x202F
    ||| n == 0x205F
    ||| n == 0x3000
}

/// Tells whether `c` is white space.
pub fn whitespace(c: char) -> (b: bool)
    ensures
        b == is_whitespace(c),
{
    let n: u32 = c as u32;
    (0x09 <= n && n <= 0x0D) || n == 0x20 || n == 0x85 || n == 0xA0 || n == 0x1680 || (0x2000 <= n
        && n <= 0x200A) || n == 0x2028 || n == 0x2029 || n == 0x202F || n == 0x205F || n == 0x3000
}

/// The characters of `s`, in order.
pub fn chars_of(s: &str) -> (chars: Vec<char>)
    ensures
        chars@ == s@,
{
    let mut chars: Vec<char> = Vec::new();
    for c in it: s.chars()
        invariant
            chars@ == it.seq().take(it.index()),
            it.seq() == s@,
    {
        chars.push(c);
    }
    chars
}

/// `s` without its leading white space.
pub open spec fn trim_start(s: Seq<char>) -> Seq<char>
    decreases s.len(),
{
    if s.len() > 0 && is_whitespace(s[0]) {
        trim_start(s.drop_first())
    } else {
        s
    }
}

/// `s` without its trailing white space.
pub open spec fn trim_end(s: Seq<char>) -> Seq<char>
    decreases s.len(),
{
    if s.len() > 0 && is_whitespace(s.last()) {
        trim_end(s.drop_last())
    } else {
        s
    }
}

/// `s` without its leading and trailing white space.
pub open spec fn trimmed(s: Seq<char>) -> Seq<char> {
    trim_end(trim_start(s))
}

/// Whether `s` holds nothing but white space.
pub open spec fn is_blank(s: Seq<char>) -> bool {
    forall|i: int| 0 <= i < s.len() ==> is_whitespace(#[trigger] s[i])
}

/// Dropping leading white space means skipping up to the first character
/// that is not white space.
pub proof fn lemma_trim_start_skips(s: Seq<char>, a: int)
    requires
        0 <= a <= s.len(),
        forall|i: int| 0 <= i < a ==> is_whitespace(#[trigger] s[i]),
        a == s.len() || !is_whitespace(s[a]),
    ensures
        trim_start(s) == s.skip(a),
    decreases a,
{
    if a == 0 {
        assert(s.skip(0) =~= s);
    } else {
        lemma_trim_start_skips(s.drop_first(), a - 1);
        assert(s.drop_first().skip(a - 1) =~= s.skip(a));
    }
}

/// Dropping trailing white space means keeping up to the last character
/// that is not white space.
pub proof fn lemma_trim_end_takes(s: Seq<char>, b: int)
    requires
        0 <= b <= s.len(),
        forall|i: int| b <= i < s.len() ==> is_whitespace(#[trigger] s[i]),
        b == 0 || !is_whitespace(s[b - 1]),
    ensures
        trim_end(s) == s.take(b),
    decreases s.len() - b,
{
    if b == s.len() {
        assert(s.take(b) =~= s);
    } else {
        lemma_trim_end_takes(s.drop_last(), b);
        assert(s.drop_last().take(b) =~= s.take(b));
    }
}

/// Where the trimmed part of `s` lies: bounds `(a, b)` with
/// `trimmed(s) == s.subrange(a, b)`, white space alone outside them, and
/// none at either end inside them.
pub proof fn lemma_trimmed_bounds(s: Seq<char>) -> (span: (int, int))
    ensures
        0 <= span.0 <= span.1 <= s.len(),
        trimmed(s) == s.subrange(span.0, span.1),
        forall|i: int| 0 <= i < span.0 ==> is_whitespace(#[trigger] s[i]),
        forall|i: int| span.1 <= i < s.len() ==> is_whitespace(#[trigger] s[i]),
        span.0 < span.1 ==> !is_whitespace(s[span.0]) && !is_whitespace(s[span.1 - 1]),
        span.0 == span.1 <==> is_blank(s),
{
    let a = leading_end(s);
    let rest = s.skip(a);
    let kept = trailing_start(rest);
    let b = a + kept;
    lemma_trim_start_skips(s, a);
    lemma_trim_end_takes(rest, kept);
    assert(rest.take(kept) =~= s.subrange(a, b));
    assert forall|i: int| b <= i < s.len() implies is_whitespace(#[trigger] s[i]) by {
        assert(s[i] == rest[i - a]);
    }
    if a < b {
        assert(rest[kept - 1] == s[b - 1]);
    } else {
        assert forall|i: int| 0 <= i < s.len() implies is_whitespace(#[trigger] s[i]) by {
            if i >= a {
                assert(s[i] == rest[i - a]);
            }
        }
    }
    (a, b)
}

/// The number of white-space characters that `s` starts with.
proof fn leading_end(s: Seq<char>) -> (a: int)
    ensures
        0 <= a <= s.len(),
        forall|i: int| 0 <= i < a ==> is_whitespace(#[trigger] s[i]),
        a == s.len() || !is_whitespace(s[a]),
    decreases s.len(),
{
    if s.len() > 0 && is_whitespace(s[0]) {
        let rest = s.drop_first();
        let inner = leading_end(rest);
        assert forall|i: int| 0 <= i < inner + 1 implies is_whitespace(#[trigger] s[i]) by {
            if i > 0 {
                assert(s[i] == rest[i - 1]);
            }
        }
        if inner < rest.len() {
            assert(rest[inner] == s[inner + 1]);
        }
        inner + 1
    } else {
        0
    }
}

/// The length of `s` without the white space that it ends with.
proof fn trailing_start(s: Seq<char>) -> (b: int)
    ensures
        0 <= b <= s.len(),
        forall|i: int| b <= i < s.len() ==> is_whitespace(#[trigger] s[i]),
        b == 0 || !is_whitespace(s[b - 1]),
    decreases s.len(),
{
    if s.len() > 0 && is_whitespace(s.last()) {
        let rest = s.drop_last();
        let inner = trailing_start(rest);
        assert forall|i: int| inner <= i < s.len() implies is_whitespace(#[trigger] s[i]) by {
            if i < rest.len() {
                assert(s[i] == rest[i]);
            }
        }
        if inner > 0 {
            assert(rest[inner - 1] == s[inner - 1]);
        }
        inner
    } else {
        s.len() as int
    }
}

/// Trimming a trimmed text changes nothing.
pub proof fn lemma_trimmed_twice(s: Seq<char>)
    ensures
        trimmed(trimmed(s)) == trimmed(s),
{
    let (a, b) = lemma_trimmed_bounds(s);
    let t = trimmed(s);
    if a < b {
        assert(t[0] == s[a]);
        assert(t.last() == s[b - 1]);
        lemma_trim_start_skips(t, 0);
        assert(t.skip(0) =~= t);
        lemma_trim_end_takes(t, t.len() as int);
        assert(t.take(t.len() as int) =~= t);
    } else {
        assert(t.len() == 0);
    }
}

/// The bounds of the trimmed part of `chars[start..end]`.
pub fn trim_span(chars: &Vec<char>, start: usize, end: usize) -> (span: (usize, usize))
    requires
        start <= end <= chars.len(),
    ensures
        start <= span.0 <= span.1 <= end,
        chars@.subrange(span.0 as int, span.1 as int) == trimmed(
            chars@.subrange(start as int, end as int),
        ),
        span.0 < span.1 ==> !is_whitespace(chars[span.0 as int]) && !is_whitespace(
            chars[span.1 - 1],
        ),
        span.0 == span.1 <==> is_blank(chars@.subrange(start as int, end as int)),
{
    let ghost part = chars@.subrange(start as int, end as int);
    let mut a: usize = start;
    while a < end && whitespace(chars[a])
        invariant
            start <= a <= end <= chars.len(),
            forall|i: int| start <= i < a ==> is_whitespace(#[trigger] chars[i]),
        decreases end - a,
    {
        a += 1;
    }
    let mut b: usize = end;
    while a < b && whitespace(chars[b - 1])
        invariant
            a <= b <= end <= chars.len(),
            forall|i: int| b <= i < end ==> is_whitespace(#[trigger] chars[i]),
        decreases b - a,
    {
        b -= 1;
    }
    proof {
        assert forall|i: int| 0 <= i < a - start implies is_whitespace(#[trigger] part[i]) by {
            assert(part[i] == chars[start + i]);
        }
        lemma_trim_start_skips(part, a - start);
        let rest = part.skip(a - start);
        assert(rest =~= chars@.subrange(a as int, end as int));
        assert forall|i: int| b - a <= i < rest.len() implies is_whitespace(#[trigger] rest[i]) by {
            assert(rest[i] == chars[a + i]);
        }
        lemma_trim_end_takes(rest, b - a);
        assert(rest.take(b - a) =~= chars@.subrange(a as int, b as int));
        if a == b {
            assert forall|i: int| 0 <= i < part.len() implies is_whitespace(#[trigger] part[i]) by {
                assert(part[i] == chars[start + i]);
            }
        } else {
            assert(part[a - start] == chars[a as int]);
        }
    }
    (a, b)
}

/// `s` without its leading and trailing white space.
pub fn trim(s: &str) -> (t: &str)
    ensures
        t@ == trimmed(s@),
{
    let chars = chars_of(s);
    let (a, b) = trim_span(&chars, 0, chars.len());
    assert(chars@.subrange(0, chars.len() as int) =~= s@);
    s.substring_char(a, b)
}

/// Tells whether `s` holds nothing but white space.
pub fn blank(s: &str) -> (b: bool)
    ensures
        b == is_blank(s@),
{
    let chars = chars_of(s);
    let (a, b) = trim_span(&chars, 0, chars.len());
    assert(chars@.subrange(0, chars.len() as int) =~= s@);
    a == b
}

/// The index of the first `c` in `s`, or `s.len()` where `s` holds none.
pub open spec fn find_char(s: Seq<char>, c: char) -> int
    decreases s.len(),
{
    if s.len() == 0 || s[0] == c {
        0
    } else {
        1 + find_char(s.drop_first(), c)
    }
}

/// `find_char` is the one index before which no `c` stands and at which
/// one does, unless it is the length.
pub proof fn lemma_find_char(s: Seq<char>, c: char, k: int)
    requires
        0 <= k <= s.len(),
        forall|i: int| 0 <= i < k ==> #[trigger] s[i] != c,
        k == s.len() || s[k] == c,
    ensures
        find_char(s, c) == k,
    decreases k,
{
    if k > 0 {
        lemma_find_char(s.drop_first(), c, k - 1);
    }
}

/// What `find_char` returns: an index within `0..=s.len()`, with no `c`
/// before it and a `c` at it unless it is the length.
pub proof fn lemma_find_char_bounds(s: Seq<char>, c: char)
    ensures
        0 <= find_char(s, c) <= s.len(),
        forall|i: int| 0 <= i < find_char(s, c) ==> #[trigger] s[i] != c,
        find_char(s, c) < s.len() ==> s[find_char(s, c)] == c,
    decreases s.len(),
{
    if s.len() > 0 && s[0] != c {
        let rest = s.drop_first();
        lemma_find_char_bounds(rest, c);
        assert forall|i: int| 0 <= i < find_char(s, c) implies #[trigger] s[i] != c by {
            if i > 0 {
                assert(s[i] == rest[i - 1]);
            }
        }
    }
}

/// The first index at or after `from` at which `chars` holds `c`, or the
/// length of `chars`.
pub fn find_from(chars: &Vec<char>, from: usize, c: char) -> (at: usize)
    requires
        from <= chars.len(),
    ensures
        from <= at <= chars.len(),
        at - from == find_char(chars@.skip(from as int), c),
        forall|i: int| from <= i < at ==> #[trigger] chars[i] != c,
        at < chars.len() ==> chars[at as int] == c,
{
    let mut at: usize = from;
    while at < chars.len() && chars[at] != c
        invariant
            from <= at <= chars.len(),
            forall|i: int| from <= i < at ==> #[trigger] chars[i] != c,
        decreases chars.len() - at,
    {
        at += 1;
    }
    proof {
        let rest = chars@.skip(from as int);
        assert forall|i: int| 0 <= i < at - from implies #[trigger] rest[i] != c by {
            assert(rest[i] == chars[from + i]);
        }
        lemma_find_char(rest, c, at - from);
    }
    at
}

/// The pieces of `s` between occurrences of `sep`: one more piece than
/// there are separators, empty pieces included.
pub open spec fn split_on(s: Seq<char>, sep: char) -> Seq<Seq<char>>
    decreases s.len(),
{
    let i = find_char(s, sep);
    if 0 <= i < s.len() {
        seq![s.take(i)] + split_on(s.skip(i + 1), sep)
    } else {
        seq![s]
    }
}

/// The pieces that `spans` cut out of `s`.
pub open spec fn cut(s: Seq<char>, spans: Seq<(usize, usize)>) -> Seq<Seq<char>> {
    Seq::new(spans.len(), |k: int| s.subrange(spans[k].0 as int, spans[k].1 as int))
}

/// Whether every span of `spans` lies within a text of `len` characters.
pub open spec fn spans_within(spans: Seq<(usize, usize)>, len: nat) -> bool {
    forall|k: int| 0 <= k < spans.len() ==> (#[trigger] spans[k]).0 <= spans[k].1 <= len
}

/// The bounds of the pieces of `chars` between occurrences of `sep`.
pub fn split_spans(chars: &Vec<char>, sep: char) -> (spans: Vec<(usize, usize)>)
    ensures
        spans_within(spans@, chars@.len()),
        cut(chars@, spans@) == split_on(chars@, sep),
{
    let mut spans: Vec<(usize, usize)> = Vec::new();
    let mut start: usize = 0;
    let mut open: bool = true;
    assert(chars@.skip(0) =~= chars@);
    assert(cut(chars@, spans@) + split_on(chars@, sep) =~= split_on(chars@, sep));
    while open
        invariant
            start <= chars.len(),
            spans_within(spans@, chars@.len()),
            open ==> cut(chars@, spans@) + split_on(chars@.skip(start as int), sep) == split_on(
                chars@,
                sep,
            ),
            !open ==> cut(chars@, spans@) == split_on(chars@, sep),
        decreases chars.len() - start + if open { 1int } else { 0int },
    {
        let at = find_from(chars, start, sep);
        let ghost before = spans@;
        let ghost rest = chars@.skip(start as int);
        spans.push((start, at));
        proof {
            assert(rest.take(at - start) =~= chars@.subrange(start as int, at as int));
            assert(cut(chars@, spans@) =~= cut(chars@, before) + seq![
                chars@.subrange(start as int, at as int),
            ]);
        }
        if at < chars.len() {
            proof {
                assert(rest.skip(at - start + 1) =~= chars@.skip(at + 1));
                assert(cut(chars@, spans@) + split_on(chars@.skip(at + 1), sep) =~= cut(
                    chars@,
                    before,
                ) + split_on(rest, sep));
            }
            start = at + 1;
        } else {
            proof {
                assert(rest.take(at - start) =~= rest);
                assert(cut(chars@, spans@) =~= cut(chars@, before) + split_on(rest, sep));
            }
            open = false;
        }
    }
    spans
}

/// `line` without the carriage return that ends it, if one does.
pub open spec fn strip_cr(line: Seq<char>) -> Seq<char> {
    if line.len() > 0 && line.last() == '\r' {
        line.drop_last()
    } else {
        line
    }
}

/// The lines of `s`. A line ends at a line feed, or at a carriage return
/// directly followed by one; the terminator is not part of the line, and
/// the last line needs none.
pub open spec fn lines(s: Seq<char>) -> Seq<Seq<char>>
    decreases s.len(),
{
    if s.len() == 0 {
        Seq::empty()
    } else {
        let i = find_char(s, '\n');
        if 0 <= i < s.len() {
            seq![strip_cr(s.take(i))] + lines(s.skip(i + 1))
        } else {
            seq![s]
        }
    }
}

/// The bounds of the lines of `chars`.
pub fn line_spans(chars: &Vec<char>) -> (spans: Vec<(usize, usize)>)
    ensures
        spans_within(spans@, chars@.len()),
        cut(chars@, spans@) == lines(chars@),
{
    let mut spans: Vec<(usize, usize)> = Vec::new();
    let mut start: usize = 0;
    assert(chars@.skip(0) =~= chars@);
    assert(cut(chars@, spans@) + lines(chars@) =~= lines(chars@));
    while start < chars.len()
        invariant
            start <= chars.len(),
            spans_within(spans@, chars@.len()),
            cut(chars@, spans@) + lines(chars@.skip(start as int)) == lines(chars@),
        decreases chars.len() - start,
    {
        let at = find_from(chars, start, '\n');
        let ghost before = spans@;
        let ghost rest = chars@.skip(start as int);
        if at < chars.len() {
            let end = if at > start && chars[at - 1] == '\r' {
                at - 1
            } else {
                at
            };
            spans.push((start, end));
            proof {
                let line = rest.take(at - start);
                assert(line =~= chars@.subrange(start as int, at as int));
                assert(strip_cr(line) =~= chars@.subrange(start as int, end as int));
                assert(rest.skip(at - start + 1) =~= chars@.skip(at + 1));
                assert(cut(chars@, spans@) =~= cut(chars@, before) + seq![strip_cr(line)]);
                assert(cut(chars@, spans@) + lines(chars@.skip(at + 1)) =~= cut(chars@, before)
                    + lines(rest));
            }
            start = at + 1;
        } else {
            spans.push((start, at));
            proof {
                assert(rest =~= chars@.subrange(start as int, at as int));
                assert(chars@.skip(at as int).len() == 0);
                assert(cut(chars@, spans@) =~= cut(chars@, before) + seq![rest]);
                assert(cut(chars@, spans@) + lines(chars@.skip(at as int)) =~= cut(
                    chars@,
                    before,
                ) + lines(rest));
            }
            start = at;
        }
    }
    assert(chars@.skip(start as int).len() == 0);
    assert(cut(chars@, spans@) + lines(chars@.skip(start as int)) =~= cut(chars@, spans@));
    spans
}

/// The texts of `parts` in order, with `sep` between each two.
pub open spec fn join(parts: Seq<Seq<char>>, sep: Seq<char>) -> Seq<char>
    decreases parts.len(),
{
    if parts.len() == 0 {
        Seq::empty()
    } else if parts.len() == 1 {
        parts[0]
    } else {
        join(parts.drop_last(), sep) + sep + parts.last()
    }
}

/// Joining one more part appends the separator and the part, or the part
/// alone where it is the first.
pub proof fn lemma_join_push(parts: Seq<Seq<char>>, part: Seq<char>, sep: Seq<char>)
    ensures
        join(parts.push(part), sep) == if parts.len() == 0 {
            part
        } else {
            join(parts, sep) + sep + part
        },
{
    assert(parts.push(part).drop_last() =~= parts);
}

/// A joined text starts with its first part: after it come the separator
/// and the other parts, joined.
pub proof fn lemma_join_first(parts: Seq<Seq<char>>, sep: Seq<char>)
    requires
        parts.len() >= 2,
    ensures
        join(parts, sep) == parts[0] + sep + join(parts.drop_first(), sep),
    decreases parts.len(),
{
    let front = parts.drop_last();
    let back = parts.drop_first();
    if parts.len() == 2 {
        assert(join(front, sep) == parts[0]);
        assert(join(back, sep) == parts[1]);
    } else {
        lemma_join_first(front, sep);
        assert(back.drop_last() =~= front.drop_first());
        assert(join(parts, sep) =~= parts[0] + sep + (join(back.drop_last(), sep) + sep
            + back.last()));
    }
}

/// Whether `s` holds no blank line: no two line feeds in a row.
pub open spec fn no_blank_line(s: Seq<char>) -> bool {
    forall|i: int| 0 <= i < s.len() - 1 ==> !(#[trigger] s[i] == '\n' && s[i + 1] == '\n')
}

/// Whether a blank line can follow `s` and be found again as the first:
/// `s` holds none and does not end in a line feed.
pub open spec fn closed_section(s: Seq<char>) -> bool {
    no_blank_line(s) && (s.len() == 0 || s.last() != '\n')
}

/// The index at which the first blank line of `s` starts, that is the
/// first of two line feeds in a row, or `s.len()` where `s` holds none.
pub open spec fn find_blank_line(s: Seq<char>) -> int
    decreases s.len(),
{
    if s.len() < 2 {
        s.len() as int
    } else if s[0] == '\n' && s[1] == '\n' {
        0
    } else {
        1 + find_blank_line(s.drop_first())
    }
}

/// The sections of `s`: the pieces between its blank lines, taken from the
/// left, so that of three line feeds in a row the third opens the next
/// section.
pub open spec fn split_sections(s: Seq<char>) -> Seq<Seq<char>>
    decreases s.len(),
{
    let i = find_blank_line(s);
    if 0 <= i && i + 2 <= s.len() {
        seq![s.take(i)] + split_sections(s.skip(i + 2))
    } else {
        seq![s]
    }
}

/// `find_blank_line` is the first index at which two line feeds stand.
pub proof fn lemma_find_blank_line(s: Seq<char>, k: int)
    requires
        0 <= k,
        k + 2 <= s.len(),
        s[k] == '\n' && s[k + 1] == '\n',
        forall|i: int| 0 <= i < k ==> !(#[trigger] s[i] == '\n' && s[i + 1] == '\n'),
    ensures
        find_blank_line(s) == k,
    decreases k,
{
    if k > 0 {
        let rest = s.drop_first();
        assert forall|i: int| 0 <= i < k - 1 implies !(#[trigger] rest[i] == '\n' && rest[i + 1]
            == '\n') by {
            assert(rest[i] == s[i + 1]);
            assert(rest[i + 1] == s[i + 2]);
        }
        assert(rest[k - 1] == s[k]);
        assert(rest[k] == s[k + 1]);
        lemma_find_blank_line(rest, k - 1);
        assert(!(s[0] == '\n' && s[1] == '\n'));
    }
}

/// Where `s` holds no blank line, `find_blank_line` is its length.
pub proof fn lemma_find_no_blank_line(s: Seq<char>)
    requires
        no_blank_line(s),
    ensures
        find_blank_line(s) == s.len(),
    decreases s.len(),
{
    if s.len() >= 2 {
        let rest = s.drop_first();
        assert forall|i: int| 0 <= i < rest.len() - 1 implies !(#[trigger] rest[i] == '\n'
            && rest[i + 1] == '\n') by {
            assert(rest[i] == s[i + 1]);
            assert(rest[i + 1] == s[i + 2]);
        }
        lemma_find_no_blank_line(rest);
        assert(!(s[0] == '\n' && s[1] == '\n'));
    }
}

/// Sections joined by blank lines split back into the same sections,
/// provided that the blank lines between them are the only ones and come
/// first where line feeds meet: no section holds a blank line, and none but
/// the last ends in a line feed.
pub proof fn lemma_split_joined_sections(parts: Seq<Seq<char>>)
    requires
        parts.len() > 0,
        forall|k: int| 0 <= k < parts.len() - 1 ==> closed_section(#[trigger] parts[k]),
        no_blank_line(parts.last()),
    ensures
        split_sections(join(parts, "\n\n"@)) == parts,
    decreases parts.len(),
{
    reveal_strlit("\n\n");
    let sep = "\n\n"@;
    let whole = join(parts, sep);
    if parts.len() == 1 {
        lemma_find_no_blank_line(whole);
        assert(split_sections(whole) =~= parts);
    } else {
        let first = parts[0];
        let rest = parts.drop_first();
        lemma_join_first(parts, sep);
        let tail = join(rest, sep);
        assert(whole =~= first + sep + tail);
        let k = first.len() as int;
        assert(closed_section(first));
        assert forall|i: int| 0 <= i < k implies !(#[trigger] whole[i] == '\n' && whole[i + 1]
            == '\n') by {
            assert(whole[i] == first[i]);
            if i + 1 < k {
                assert(whole[i + 1] == first[i + 1]);
            }
        }
        assert(whole[k] == sep[0]);
        assert(whole[k + 1] == sep[1]);
        lemma_find_blank_line(whole, k);
        assert(whole.take(k) =~= first);
        assert(whole.skip(k + 2) =~= tail);
        assert forall|j: int| 0 <= j < rest.len() - 1 implies closed_section(#[trigger] rest[j]) by {
            assert(rest[j] == parts[j + 1]);
        }
        assert(rest.last() == parts.last());
        lemma_split_joined_sections(rest);
        assert(seq![first] + rest =~= parts);
    }
}

/// Whether `s` holds no line feed.
pub open spec fn single_line(s: Seq<char>) -> bool {
    forall|i: int| 0 <= i < s.len() ==> #[trigger] s[i] != '\n'
}

/// Lines joined by line feeds split back into the same lines, provided
/// that none holds a line feed, none but the last ends in a carriage
/// return, and the last is not empty.
pub proof fn lemma_lines_of_joined(ls: Seq<Seq<char>>)
    requires
        ls.len() > 0,
        forall|k: int| 0 <= k < ls.len() ==> single_line(#[trigger] ls[k]),
        forall|k: int| 0 <= k < ls.len() - 1 ==> strip_cr(#[trigger] ls[k]) == ls[k],
        ls.last().len() > 0,
    ensures
        lines(join(ls, "\n"@)) == ls,
    decreases ls.len(),
{
    reveal_strlit("\n");
    let sep = "\n"@;
    let whole = join(ls, sep);
    if ls.len() == 1 {
        assert(single_line(ls[0]));
        lemma_find_char(whole, '\n', whole.len() as int);
        assert(lines(whole) =~= ls);
    } else {
        let first = ls[0];
        let rest = ls.drop_first();
        lemma_join_first(ls, sep);
        let tail = join(rest, sep);
        assert(whole =~= first + sep + tail);
        let k = first.len() as int;
        assert(single_line(first));
        assert forall|i: int| 0 <= i < k implies #[trigger] whole[i] != '\n' by {
            assert(whole[i] == first[i]);
        }
        assert(whole[k] == sep[0]);
        lemma_find_char(whole, '\n', k);
        assert(whole.take(k) =~= first);
        assert(whole.skip(k + 1) =~= tail);
        assert forall|j: int| 0 <= j < rest.len() implies single_line(#[trigger] rest[j]) by {
            assert(rest[j] == ls[j + 1]);
        }
        assert forall|j: int| 0 <= j < rest.len() - 1 implies strip_cr(#[trigger] rest[j])
            == rest[j] by {
            assert(rest[j] == ls[j + 1]);
        }
        assert(rest.last() == ls.last());
        lemma_lines_of_joined(rest);
        assert(strip_cr(first) == first);
        assert(seq![first] + rest =~= ls);
    }
}

} // verus!
