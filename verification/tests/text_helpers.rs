use bdg::document::{detect_newline, join_lines, replace_all, split_on, Document, Newline};
use bdg::text::{
    char_is_ascii_letter, char_is_digit, char_is_whitespace, chars_before_char, chars_contain,
    chars_end_with, chars_eq_ignore_ascii_case, chars_lt, chars_start_with, chars_strip_trailing,
    chars_trim, chars_trim_start, find_in, from_chars, push_decimal, to_chars,
};
use bdg::version::parse_number;

fn chars(s: &str) -> Vec<char> {
    s.chars().collect()
}

fn string(v: &[char]) -> String {
    v.iter().collect()
}

const SAMPLES: [&str; 16] = [
    "",
    " ",
    "a",
    "  a b  ",
    "\t\r\n x \u{a0}\u{2003}\u{3000}",
    "\u{85}y\u{1680}",
    "\u{200b}z\u{200b}",
    "a.svg.svg",
    ".svg",
    "x.svg ",
    "git+https://github.com/me/it.git",
    "a\r\nb\nc\r\n",
    "\r\n\r\n",
    "äöü ✓ 日本",
    "aXbXXc",
    "XX",
];

#[test]
fn whitespace_is_the_unicode_property() {
    for code in 0..=0x10ffffu32 {
        if let Some(c) = char::from_u32(code) {
            assert_eq!(char_is_whitespace(c), c.is_whitespace(), "{:x}", code);
            assert_eq!(char_is_digit(c), c.is_ascii_digit(), "{:x}", code);
            assert_eq!(char_is_ascii_letter(c), c.is_ascii_alphabetic(), "{:x}", code);
        }
    }
}

#[test]
fn characters_round_trip() {
    for s in SAMPLES {
        assert_eq!(to_chars(s), chars(s));
        assert_eq!(from_chars(&chars(s)), s);
    }
}

#[test]
fn trimming_is_that_of_the_standard_library() {
    for s in SAMPLES {
        assert_eq!(string(&chars_trim(&chars(s))), s.trim(), "{:?}", s);
        assert_eq!(string(&chars_trim_start(&chars(s))), s.trim_start(), "{:?}", s);
        assert_eq!(
            string(&chars_strip_trailing(&chars(s), &chars(".svg"))),
            s.trim_end_matches(".svg"),
            "{:?}",
            s
        );
    }
}

#[test]
fn searching_is_that_of_the_standard_library() {
    for s in SAMPLES {
        for p in ["a", "X", "XX", "\r\n", ".svg", " ", "git+", "日"] {
            let found = find_in(&chars(s), &chars(p), 0);
            let expected = s.find(p).map(|byte| s[..byte].chars().count());
            assert_eq!(found, expected, "{:?} {:?}", s, p);
            assert_eq!(chars_contain(&chars(s), &chars(p)), s.contains(p));
            assert_eq!(chars_start_with(&chars(s), &chars(p)), s.starts_with(p));
            assert_eq!(chars_end_with(&chars(s), &chars(p)), s.ends_with(p));
            let pieces: Vec<String> =
                split_on(&chars(s), &chars(p)).iter().map(|v| string(v)).collect();
            let expected: Vec<String> = s.split(p).map(|x| x.to_string()).collect();
            assert_eq!(pieces, expected, "{:?} {:?}", s, p);
            assert_eq!(
                string(&replace_all(&chars(s), &chars(p), &chars("<>"))),
                s.replace(p, "<>"),
                "{:?} {:?}",
                s,
                p
            );
        }
        assert_eq!(
            string(&chars_before_char(&chars(s), 'X')),
            s.split('X').next().unwrap_or("")
        );
    }
    assert_eq!(find_in(&chars("abcabc"), &chars("bc"), 2), Some(4));
    assert_eq!(find_in(&chars("abc"), &chars("bc"), 3), None);
}

#[test]
fn order_and_case() {
    let words = ["", "a", "A", "ab", "b", "ä", "z", "日", "a/b", "a-b"];
    for a in words {
        for b in words {
            assert_eq!(chars_lt(&chars(a), &chars(b)), a < b, "{:?} {:?}", a, b);
            assert_eq!(
                chars_eq_ignore_ascii_case(&chars(a), &chars(b)),
                a.eq_ignore_ascii_case(b),
                "{:?} {:?}",
                a,
                b
            );
        }
    }
    assert!(chars_eq_ignore_ascii_case(&chars("DoCs"), &chars("docs")));
    assert!(!chars_eq_ignore_ascii_case(&chars("döcs"), &chars("dÖcs")));
}

#[test]
fn numbers_are_read_and_written() {
    for n in [0usize, 7, 10, 99, 100, 4294967295, usize::MAX] {
        let mut out = chars("n=");
        push_decimal(&mut out, n);
        assert_eq!(string(&out), format!("n={}", n));
    }
    for s in ["0", "007", "12", "+12", "4294967295", "4294967296", "99999999999999999999", "",
        "+", "-1", "1 ", " 1", "1_0", "１２", "+-1", "++1"]
    {
        assert_eq!(parse_number(&chars(s)), s.parse::<u32>().ok(), "{:?}", s);
    }
}

#[test]
fn documents_split_and_join() {
    for s in SAMPLES {
        let (newline, trailing) = detect_newline(&chars(s));
        assert_eq!(newline == Newline::Crlf, s.contains("\r\n"));
        let document = Document::read(s);
        assert_eq!(document.newline, newline);
        assert_eq!(document.trailing_newline, trailing);
        assert_eq!(string(&join_lines(&document.lines, newline, trailing)), s);
    }
    let lines: Vec<String> =
        Document::read("a\r\nb\nc\r\n").lines.iter().map(|l| string(l)).collect();
    assert_eq!(lines, vec!["a".to_string(), "b\nc".to_string()]);
    assert!(Document::read("").lines.is_empty());
    assert_eq!(Document::read("\n").lines, vec![Vec::<char>::new()]);
    assert_eq!(Document::read("x\n\n").lines, vec![chars("x"), chars("")]);
}
