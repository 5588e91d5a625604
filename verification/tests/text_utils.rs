use sexy::text::{
    chars_of, decimal_chars, lines_of, parse_u32_chars, split_pieces, strings_of, trim_chars,
    trimmed_nonempty_exec,
};

fn s(v: &[char]) -> String {
    v.iter().collect()
}

fn parse(t: &str) -> Option<u32> {
    parse_u32_chars(&chars_of(t))
}

#[test]
fn parse_accepts_plain_and_plus_numbers() {
    assert_eq!(parse("123"), Some(123));
    assert_eq!(parse("+5"), Some(5));
    assert_eq!(parse("007"), Some(7));
    assert_eq!(parse("4294967295"), Some(u32::MAX));
}

#[test]
fn parse_rejects_what_str_parse_rejects() {
    for bad in ["", "+", "-1", "4294967296", "12a", " 12", "1 2", "++1"] {
        assert_eq!(parse(bad), None, "{:?}", bad);
        assert!(bad.parse::<u32>().is_err());
    }
}

#[test]
fn decimal_matches_format() {
    for n in [0u64, 7, 10, 99, 100, 2019035, u32::MAX as u64] {
        assert_eq!(s(&decimal_chars(n)), format!("{}", n));
    }
}

#[test]
fn decimal_reads_back() {
    for n in [0u32, 1, 9, 10, 12345, u32::MAX] {
        assert_eq!(parse_u32_chars(&decimal_chars(n as u64)), Some(n));
    }
}

#[test]
fn trim_removes_unicode_white_space() {
    let t = "\u{3000}\t a b \u{A0}\n";
    assert_eq!(s(&trim_chars(&chars_of(t))), t.trim());
    assert_eq!(s(&trim_chars(&chars_of("   "))), "");
}

#[test]
fn split_keeps_empty_pieces() {
    let p = strings_of(&split_pieces(&chars_of("/a//b/"), '/'));
    let expected: Vec<String> = "/a//b/".split('/').map(|x| x.to_string()).collect();
    assert_eq!(p, expected);
}

#[test]
fn lines_match_str_lines() {
    for t in ["a\r\nb\n", "a\n\nb", "a\r", "\n", "x\ny\r\nz"] {
        let got = strings_of(&lines_of(&chars_of(t)));
        let expected: Vec<String> = t.lines().map(|x| x.to_string()).collect();
        assert_eq!(got, expected, "{:?}", t);
    }
}

#[test]
fn trimmed_pieces_drop_empty_ones() {
    let p = split_pieces(&chars_of(" Naruto / / Bleach /"), '/');
    let q = strings_of(&trimmed_nonempty_exec(&p));
    assert_eq!(q, vec!["Naruto".to_string(), "Bleach".to_string()]);
}
