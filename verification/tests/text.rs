use commit_formatter::text::{
    blank, chars_of, find_from, line_spans, split_spans, trim, trim_span, whitespace,
};

fn cut(text: &str, spans: &[(usize, usize)]) -> Vec<String> {
    let chars: Vec<char> = text.chars().collect();
    spans.iter().map(|&(start, end)| chars[start..end].iter().collect()).collect()
}

const SAMPLES: [&str; 16] = [
    "",
    " ",
    "a",
    "  a  ",
    "\t\n a b \r\n",
    "a,b",
    ",",
    "a,,b,",
    "a\n",
    "a\n\nb",
    "\n",
    "\n\n",
    "a\r\nb\r",
    "\r\n\r\n",
    "\u{3000}宽 字\u{a0}",
    "a\rb\n\rc",
];

#[test]
fn whitespace_is_what_the_standard_library_calls_whitespace() {
    for code in 0..=0x10FFFFu32 {
        if let Some(c) = char::from_u32(code) {
            assert_eq!(whitespace(c), c.is_whitespace(), "U+{:04X}", code);
        }
    }
}

#[test]
fn chars_of_lists_the_characters() {
    assert_eq!(chars_of("a宽\n"), vec!['a', '宽', '\n']);
    assert_eq!(chars_of(""), Vec::<char>::new());
}

#[test]
fn trim_drops_white_space_at_both_ends() {
    assert_eq!(trim("  add login \t"), "add login");
    assert_eq!(trim("\u{3000}宽 字\u{a0}"), "宽 字");
    assert_eq!(trim(" \n\t"), "");
    for sample in SAMPLES {
        assert_eq!(trim(sample), sample.trim(), "{:?}", sample);
    }
}

#[test]
fn trim_span_stays_inside_its_range() {
    let chars = chars_of("ab  cd  ef");
    assert_eq!(trim_span(&chars, 2, 8), (4, 6));
    assert_eq!(trim_span(&chars, 2, 4), (4, 4));
    assert_eq!(trim_span(&chars, 0, 10), (0, 10));
}

#[test]
fn blank_means_white_space_only() {
    assert!(blank(""));
    assert!(blank(" \t\r\n"));
    assert!(!blank(" . "));
    for sample in SAMPLES {
        assert_eq!(blank(sample), sample.trim().is_empty(), "{:?}", sample);
    }
}

#[test]
fn find_from_gives_the_first_match_or_the_length() {
    let chars = chars_of("a,b,c");
    assert_eq!(find_from(&chars, 0, ','), 1);
    assert_eq!(find_from(&chars, 2, ','), 3);
    assert_eq!(find_from(&chars, 4, ','), 5);
    assert_eq!(find_from(&chars, 5, ','), 5);
}

#[test]
fn split_spans_cut_at_every_separator() {
    assert_eq!(cut("123, #456", &split_spans(&chars_of("123, #456"), ',')), vec!["123", " #456"]);
    assert_eq!(cut("", &split_spans(&chars_of(""), ',')), vec![""]);
    for sample in SAMPLES {
        let expected: Vec<String> = sample.split(',').map(str::to_string).collect();
        assert_eq!(cut(sample, &split_spans(&chars_of(sample), ',')), expected, "{:?}", sample);
    }
}

#[test]
fn line_spans_are_the_lines() {
    assert_eq!(cut("a\r\nb\n\nc", &line_spans(&chars_of("a\r\nb\n\nc"))), vec!["a", "b", "", "c"]);
    assert_eq!(line_spans(&chars_of("")), Vec::<(usize, usize)>::new());
    for sample in SAMPLES {
        let expected: Vec<String> = sample.lines().map(str::to_string).collect();
        assert_eq!(cut(sample, &line_spans(&chars_of(sample))), expected, "{:?}", sample);
    }
}
