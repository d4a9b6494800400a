use lumen_grabber::text::{
    chars_of, concat_str, decimal_chars, ends_with_str, find, is_whitespace_char, parse_i64_exec,
    second_piece_exec, split_on, split_words, trim_str, without_char_exec,
};

fn s(v: &[char]) -> String {
    v.iter().collect()
}

#[test]
fn whitespace_agrees_with_std_for_every_char() {
    for u in 0u32..=0x10ffff {
        if let Some(c) = char::from_u32(u) {
            assert_eq!(is_whitespace_char(c), c.is_whitespace(), "char {:#x}", u);
        }
    }
}

const SAMPLES: &[&str] = &[
    "",
    " ",
    "abc",
    "  abc  ",
    "\t\n a b \r\n",
    "\u{3000}x\u{2009}y\u{85}",
    "[download]  10.0% of 50.00MiB at 4.23MiB/s ETA 00:10",
    "a\u{a0}\u{a0}b",
    "\u{200b}zero-width\u{200b}",
    "  héllo wörld  ",
];

#[test]
fn trim_agrees_with_std() {
    for t in SAMPLES {
        assert_eq!(trim_str(t), t.trim());
    }
}

#[test]
fn split_words_agrees_with_std() {
    for t in SAMPLES {
        let v = chars_of(t);
        let words: Vec<String> = split_words(&v).iter().map(|w| s(w)).collect();
        let expected: Vec<String> = t.split_whitespace().map(String::from).collect();
        assert_eq!(words, expected);
    }
}

#[test]
fn split_on_agrees_with_std() {
    for t in ["", ":", "00:10", "1:02:03", "a::b:", "Unknown"] {
        let v = chars_of(t);
        let pieces: Vec<String> = split_on(&v, ':').iter().map(|w| s(w)).collect();
        let expected: Vec<String> = t.split(':').map(String::from).collect();
        assert_eq!(pieces, expected);
    }
}

#[test]
fn second_piece_agrees_with_split_nth() {
    let cases = [
        ("[download] Destination: /tmp/a.mp4", "Destination: "),
        ("x Destination: a Destination: b", "Destination: "),
        ("no marker here", "Destination: "),
        ("[download] Destination:", "Destination: "),
        ("aaa", "aa"),
        ("[Merger] Merging formats into \"/v/x.mp4\"", "into \""),
    ];
    for (line, pat) in cases {
        let got = second_piece_exec(&chars_of(line), &chars_of(pat)).map(|v| s(&v));
        let expected = line.split(pat).nth(1).map(String::from);
        assert_eq!(got, expected, "{:?} / {:?}", line, pat);
    }
}

#[test]
fn find_and_ends_with() {
    assert_eq!(find(&chars_of("hello world"), &chars_of("o w")), Some(4));
    assert_eq!(find(&chars_of("hello"), &chars_of("")), Some(0));
    assert_eq!(find(&chars_of("hello"), &chars_of("xyz")), None);
    assert_eq!(find(&chars_of("ab"), &chars_of("abc")), None);
    assert!(ends_with_str("bin/ffmpeg", "ffmpeg"));
    assert!(ends_with_str("ffmpeg", "ffmpeg"));
    assert!(!ends_with_str("ffmpeg.exe", "ffmpeg"));
    assert!(!ends_with_str("peg", "ffmpeg"));
}

#[test]
fn without_char_agrees_with_replace() {
    for t in ["", "\"a\"", "10.0%", "%%", "abc"] {
        assert_eq!(s(&without_char_exec(&chars_of(t), '"')), t.replace('"', ""));
        assert_eq!(s(&without_char_exec(&chars_of(t), '%')), t.replace('%', ""));
    }
}

#[test]
fn decimal_agrees_with_to_string() {
    let mut n: u128 = 0;
    while n < 100_000 {
        assert_eq!(s(&decimal_chars(n)), n.to_string());
        n += 7;
    }
    for n in [u128::MAX, u64::MAX as u128, 10, 99, 100, 1_000_000_000_000] {
        assert_eq!(s(&decimal_chars(n)), n.to_string());
    }
}

#[test]
fn parse_i64_agrees_with_std() {
    let cases = [
        "", "+", "-", "0", "-0", "+5", "-5", "007", "12", "1a", " 1", "1 ", "+-1", "--1",
        "9223372036854775807", "9223372036854775808", "-9223372036854775808",
        "-9223372036854775809", "99999999999999999999999999999", "\u{661}", "00:10",
    ];
    for t in cases {
        assert_eq!(parse_i64_exec(&chars_of(t)), t.parse::<i64>().ok(), "{:?}", t);
    }
}

#[test]
fn strings_round_trip() {
    assert_eq!(trim_str("ünïcödé ✓"), "ünïcödé ✓");
    assert_eq!(concat_str("ab", "cd"), "abcd");
    assert_eq!(concat_str("", ""), "");
}
