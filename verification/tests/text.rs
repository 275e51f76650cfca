use dcw::numbers::{parse_i32, parse_u16, push_decimal, push_hex, to_digit};
use dcw::paths::join;
use dcw::text::{
    chars_of, join_text, contains, is_whitespace, split, split_lines, split_whitespace, string_of,
    suffix_after_last, text_eq, text_of, trim, Separator,
};

fn chars(s: &str) -> Vec<char> {
    s.chars().collect()
}

fn texts(pieces: Vec<Vec<char>>) -> Vec<String> {
    pieces.into_iter().map(|p| p.into_iter().collect()).collect()
}

const SAMPLES: [&str; 22] = [
    "",
    "a",
    "\n",
    "\r\n",
    "a\nb",
    "a\nb\n",
    "a\r\nb\r\n",
    "a\n\nb",
    "a\r",
    "a\r\n\r",
    "\r\r\n",
    "\n\n",
    "  a  b  ",
    "\ta\u{a0}b\u{2003}c\u{3000}",
    "a:b:c",
    ":",
    "::a",
    "a\tb\t\tc",
    " \u{85}x\u{1680}\u{2028}\u{2029}\u{202f}\u{205f} ",
    "\u{200b}zero width\u{feff}",
    "é\u{0301}\n\u{1f600} x",
    "x\u{b}y\u{c}z\u{1c}w",
];

#[test]
fn characters_are_copied_one_by_one() {
    for s in SAMPLES {
        assert_eq!(chars_of(s), chars(s));
        assert_eq!(string_of(&chars(s)), s);
    }
    assert_eq!(text_of(&chars("hello"), 1, 3), "el");
    assert_eq!(text_of(&chars("hello"), 2, 2), "");
    assert_eq!(join_text("ab", "cd"), "abcd");
}

#[test]
fn whitespace_is_what_the_standard_library_calls_so() {
    for n in 0..=0x10FFFFu32 {
        if let Some(c) = char::from_u32(n) {
            assert_eq!(is_whitespace(c), c.is_whitespace(), "U+{n:04X}");
        }
    }
}

#[test]
fn lines_are_those_of_the_standard_library() {
    for s in SAMPLES {
        let expected: Vec<String> = s.lines().map(|l| l.to_string()).collect();
        assert_eq!(texts(split_lines(&chars(s))), expected, "{s:?}");
    }
    assert_eq!(texts(split_lines(&chars("a\r\nb\n\nc\r"))), vec!["a", "b", "", "c\r"]);
}

#[test]
fn words_are_those_of_the_standard_library() {
    for s in SAMPLES {
        let expected: Vec<String> = s.split_whitespace().map(|l| l.to_string()).collect();
        assert_eq!(texts(split_whitespace(&chars(s))), expected, "{s:?}");
    }
    assert_eq!(texts(split_whitespace(&chars("  a \t b\n"))), vec!["a", "b"]);
}

#[test]
fn pieces_are_those_of_the_standard_library() {
    for s in SAMPLES {
        for sep in [':', '\t', '\n', 'a'] {
            let expected: Vec<String> = s.split(sep).map(|l| l.to_string()).collect();
            assert_eq!(texts(split(&chars(s), Separator::Char(sep))), expected, "{s:?} at {sep:?}");
            let last = s.rsplit(sep).next().unwrap();
            assert_eq!(string_of(&suffix_after_last(&chars(s), sep)), last, "{s:?} after {sep:?}");
            assert_eq!(last, s.split(sep).last().unwrap());
        }
        let expected: Vec<String> = s.split(char::is_whitespace).map(|l| l.to_string()).collect();
        assert_eq!(texts(split(&chars(s), Separator::Whitespace)), expected, "{s:?}");
    }
    assert_eq!(texts(split(&chars("a::b"), Separator::Char(':'))), vec!["a", "", "b"]);
    assert_eq!(string_of(&suffix_after_last(&chars("localhost:8080"), ':')), "8080");
}

#[test]
fn trimming_is_that_of_the_standard_library() {
    for s in SAMPLES {
        assert_eq!(string_of(&trim(&chars(s))), s.trim(), "{s:?}");
    }
    assert_eq!(string_of(&trim(&chars(" \t a b \n"))), "a b");
}

#[test]
fn searching_is_that_of_the_standard_library() {
    for s in SAMPLES {
        for pat in ["", "a", "b\n", "a\nb", "  ", "dcw", "\u{1f600}"] {
            assert_eq!(contains(&chars(s), &chars(pat)), s.contains(pat), "{pat:?} in {s:?}");
        }
        for t in SAMPLES {
            assert_eq!(text_eq(&chars(s), &chars(t)), s == t);
        }
    }
    assert!(contains(&chars("xxdcw"), &chars("dcw")));
    assert!(!contains(&chars("dc"), &chars("dcw")));
}

#[test]
fn numbers_are_read_as_the_standard_library_reads_them() {
    let texts = [
        "", "0", "7", "007", "+7", "-7", "+", "-", "++7", "+-7", "65535", "65536", "0065535",
        "99999999999999999999999999", "ffff", "FFFF", "FfFf", "10000", "0BB8", "1f90", "g", "1g",
        " 1", "1 ", "1_0", "0x10", "١٢", "z", "Z", "+0", "-0", "٣",
    ];
    for text in texts {
        for radix in [2u32, 8, 10, 16, 36] {
            assert_eq!(
                parse_u16(&chars(text), radix),
                u16::from_str_radix(text, radix).ok(),
                "{text:?} in {radix}"
            );
        }
        assert_eq!(parse_i32(&chars(text)), text.parse::<i32>().ok(), "{text:?}");
    }
    assert_eq!(parse_u16(&chars("0BB8"), 16), Some(3000));
    assert_eq!(parse_u16(&chars("8080"), 10), Some(8080));
    assert_eq!(parse_u16(&chars("65536"), 10), None);
    assert_eq!(parse_i32(&chars("-2147483648")), Some(i32::MIN));
    for n in 0..=0x7Fu32 {
        let c = char::from_u32(n).unwrap();
        for radix in [2u32, 10, 16, 36] {
            assert_eq!(to_digit(c, radix), c.to_digit(radix));
        }
    }
    assert_eq!(to_digit('٣', 10), None);
}

#[test]
fn numbers_are_written_as_the_standard_library_writes_them() {
    for n in [0u64, 1, 9, 10, 11, 99, 100, 3000, 65535, 4294967295, u64::MAX] {
        let mut out = String::from("x");
        push_decimal(&mut out, n);
        assert_eq!(out, format!("x{n}"));
    }
    for n in [0u64, 1, 0xbeef, 0x0123_4567, 0xffff_ffff, 0x1_0000_0001] {
        let mut out = String::from("#");
        push_hex(&mut out, n, 8);
        assert_eq!(out, format!("#{:08x}", n & 0xffff_ffff));
        let mut out = String::new();
        push_hex(&mut out, n, 0);
        assert_eq!(out, "");
    }
    let mut out = String::new();
    push_decimal(&mut out, 3000);
    assert_eq!(out, "3000");
    let mut out = String::new();
    push_hex(&mut out, 0xbeef, 8);
    assert_eq!(out, "0000beef");
}

#[test]
fn joining_is_that_of_the_standard_library() {
    let parts = ["", "a", "/", "/a", "a/", "/a/", "a/b", "..", ".", "//", "a//", "watch.pid"];
    for base in parts {
        for path in parts {
            let expected = std::path::Path::new(base).join(path).to_string_lossy().to_string();
            assert_eq!(join(base, path), expected, "{path:?} on {base:?}");
        }
    }
    assert_eq!(join("/run/user/1000", "dcw"), "/run/user/1000/dcw");
    assert_eq!(join("/run/", "dcw"), "/run/dcw");
    assert_eq!(join("/run", "/abs"), "/abs");
}
