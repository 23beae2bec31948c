use msp::number::{parse_i32, parse_u16, parse_u8};
use msp::text::{chars_of, find, split, split_str, starts_with, string_of, trim};

fn chars(s: &str) -> Vec<char> {
    s.chars().collect()
}

fn text(v: &[char]) -> String {
    v.iter().collect()
}

#[test]
fn chars_and_strings_convert_both_ways() {
    assert_eq!(chars_of("a\u{A7}\u{1F600}"), vec!['a', '\u{A7}', '\u{1F600}']);
    assert_eq!(chars_of(""), Vec::<char>::new());
    assert_eq!(string_of(&['h', 'i', '\u{A7}']), "hi\u{A7}");
    assert_eq!(string_of(&[]), "");
}

#[test]
fn split_behaves_like_str_split() {
    for (s, sep) in [("a;b;c", ';'), ("", ';'), (";", ';'), ("a;;b;", ';'), ("abc", ';'),
        ("x\0y\0", '\0'), ("\u{A7}1\u{A7}", '\u{A7}')]
    {
        let expect: Vec<String> = s.split(sep).map(|p| p.to_string()).collect();
        let got: Vec<String> = split(&chars(s), sep).iter().map(|p| text(p)).collect();
        assert_eq!(got, expect);
        assert_eq!(split_str(s, sep), expect);
    }
}

#[test]
fn trim_behaves_like_str_trim() {
    for s in ["  a b \t", "", "   ", "\u{A0}x\u{3000}", "x", "\n\r x\u{2028}", "\u{200B}x"] {
        assert_eq!(text(&trim(&chars(s))), s.trim());
    }
}

#[test]
fn find_gives_the_first_occurrence() {
    assert_eq!(find(&chars("abcabc"), &chars("bc")), Some(1));
    assert_eq!(find(&chars("abcabc"), &chars("")), Some(0));
    assert_eq!(find(&chars("abc"), &chars("abcd")), None);
    assert_eq!(find(&chars("abc"), &chars("c")), Some(2));
    assert_eq!(find(&chars(""), &chars("")), Some(0));
    assert_eq!(find(&chars("aab"), &chars("ab")), Some(1));
    assert!(starts_with(&chars("\u{A7}1x"), &chars("\u{A7}1")));
    assert!(!starts_with(&chars("x\u{A7}1"), &chars("\u{A7}1")));
    assert!(!starts_with(&chars("a"), &chars("ab")));
}

#[test]
fn decimal_numbers_parse_like_std() {
    for s in ["0", "47", "-7", "+5", "-0", "", "+", "-", "2147483647", "2147483648",
        "-2147483648", "-2147483649", "00000000000000000012", "99999999999999999999", "1a",
        " 1", "1 ", "--1", "+-1", "\u{0661}"]
    {
        assert_eq!(parse_i32(&chars(s)), s.parse::<i32>().ok(), "i32 {:?}", s);
        assert_eq!(parse_u16(&chars(s)), s.parse::<u16>().ok(), "u16 {:?}", s);
        assert_eq!(parse_u8(&chars(s)), s.parse::<u8>().ok(), "u8 {:?}", s);
    }
    assert_eq!(parse_u16(&chars("65535")), Some(65535));
    assert_eq!(parse_u16(&chars("65536")), None);
    assert_eq!(parse_u8(&chars("255")), Some(255));
    assert_eq!(parse_u8(&chars("256")), None);
    assert_eq!(parse_u16(&chars("-1")), None);
}

#[test]
fn white_space_is_what_std_says() {
    for code in 0..=0x10FFFFu32 {
        if let Some(c) = char::from_u32(code) {
            assert_eq!(msp::text::is_whitespace(c), c.is_whitespace(), "U+{:04X}", code);
        }
    }
}

#[test]
fn text_functions_agree_with_std_on_many_strings() {
    let alphabet = [' ', '\t', '+', '-', '0', '1', '9', ':', ';', 'a', '\u{A0}', '\0', '\u{A7}', '2', '5'];
    let mut seed: u64 = 0x2545F4914F6CDD1D;
    let mut next = move |bound: usize| -> usize {
        seed ^= seed << 13;
        seed ^= seed >> 7;
        seed ^= seed << 17;
        (seed % bound as u64) as usize
    };
    for _ in 0..20000 {
        let len = next(13);
        let s: String = (0..len).map(|_| alphabet[next(alphabet.len())]).collect();
        let cs = chars(&s);
        assert_eq!(parse_i32(&cs), s.parse::<i32>().ok(), "{:?}", s);
        assert_eq!(parse_u16(&cs), s.parse::<u16>().ok(), "{:?}", s);
        assert_eq!(parse_u8(&cs), s.parse::<u8>().ok(), "{:?}", s);
        assert_eq!(text(&trim(&cs)), s.trim(), "{:?}", s);
        let expect: Vec<String> = s.split(':').map(|p| p.to_string()).collect();
        assert_eq!(split_str(&s, ':'), expect, "{:?}", s);
        let needle_len = next(3);
        let needle: String = (0..needle_len).map(|_| alphabet[next(alphabet.len())]).collect();
        let expect = s.find(&needle).map(|at| s[..at].chars().count());
        assert_eq!(find(&cs, &chars(&needle)), expect, "{:?} in {:?}", needle, s);
        assert_eq!(starts_with(&cs, &chars(&needle)), s.starts_with(&needle));
    }
}
