use map_editor::text::{
    contains_char, decimal_chars, ends_with_word, find, from_chars, is_all_digits, matches_word,
    parse_i32, parse_usize, split, split_once, starts_with_word, to_chars, trim,
};

fn chars(s: &str) -> Vec<char> {
    s.chars().collect()
}

fn text(s: &[char]) -> String {
    s.iter().collect()
}

#[test]
fn chars_round_trip() {
    assert_eq!(to_chars("a\u{e9}\u{4e2d}z"), vec!['a', '\u{e9}', '\u{4e2d}', 'z']);
    assert_eq!(from_chars(&['a', '\u{e9}', '\u{4e2d}', 'z']), "a\u{e9}\u{4e2d}z");
    assert_eq!(to_chars(""), Vec::<char>::new());
    assert_eq!(from_chars(&[]), "");
}

#[test]
fn trim_cuts_white_space_on_both_sides() {
    assert_eq!(text(trim(&chars("  a b \t\r\n"))), "a b");
    assert_eq!(text(trim(&chars("\u{a0}\u{3000}x\u{2003}"))), "x");
    assert_eq!(text(trim(&chars("   "))), "");
    assert_eq!(text(trim(&chars(""))), "");
    assert_eq!(text(trim(&chars("x"))), "x");
    assert_eq!(text(trim(&chars("\u{200b}x"))), "\u{200b}x");
}

#[test]
fn trim_agrees_with_the_standard_library() {
    for code in 0u32..0x3100 {
        if let Some(c) = char::from_u32(code) {
            let s = format!("{}x{}", c, c);
            assert_eq!(text(trim(&chars(&s))), s.trim(), "U+{:04X}", code);
        }
    }
}

#[test]
fn words_match_without_regard_to_case() {
    assert!(matches_word(&chars("LocalSize"), "localsize"));
    assert!(matches_word(&chars("map"), "map"));
    assert!(!matches_word(&chars("maps"), "map"));
    assert!(!matches_word(&chars("ma"), "map"));
    assert!(!matches_word(&chars(" map"), "map"));
    assert!(matches_word(&chars(""), ""));
    assert!(starts_with_word(&chars("WayPoint12"), "waypoint"));
    assert!(starts_with_word(&chars("waypoint"), "waypoint"));
    assert!(!starts_with_word(&chars("waypoin"), "waypoint"));
    assert!(ends_with_word(&chars("a/B.MPR"), ".mpr"));
    assert!(!ends_with_word(&chars("a/B.MPRX"), ".mpr"));
    assert!(!ends_with_word(&chars("mpr"), ".mpr"));
}

#[test]
fn find_gives_the_first_index_or_the_length() {
    let s = chars("a=b=c");
    assert_eq!(find(&s, '=', 0), 1);
    assert_eq!(find(&s, '=', 2), 3);
    assert_eq!(find(&s, '=', 4), 5);
    assert_eq!(find(&s, 'x', 0), 5);
    assert!(contains_char(&s, 'c'));
    assert!(!contains_char(&s, ','));
}

#[test]
fn split_keeps_empty_fields() {
    let s = chars("a,,b,");
    let parts: Vec<String> = split(&s, ',').into_iter().map(text).collect();
    assert_eq!(parts, vec!["a", "", "b", ""]);
    let s = chars("");
    let parts: Vec<String> = split(&s, ',').into_iter().map(text).collect();
    assert_eq!(parts, vec![""]);
    let s = chars("no separator");
    let parts: Vec<String> = split(&s, ',').into_iter().map(text).collect();
    assert_eq!(parts, vec!["no separator"]);
}

#[test]
fn split_agrees_with_the_standard_library() {
    for s in ["", ",", ",,", "a", "a,b", ",a", "a,", "1,2,3,4", "x,,y"] {
        let c = chars(s);
        let parts: Vec<String> = split(&c, ',').into_iter().map(text).collect();
        let expected: Vec<String> = s.split(',').map(|p| p.to_string()).collect();
        assert_eq!(parts, expected);
    }
}

#[test]
fn split_once_cuts_at_the_first_separator() {
    let s = chars("key=a=b");
    let (k, v) = split_once(&s, '=').unwrap();
    assert_eq!((text(k), text(v)), ("key".to_string(), "a=b".to_string()));
    let s = chars("=");
    let (k, v) = split_once(&s, '=').unwrap();
    assert_eq!((text(k), text(v)), (String::new(), String::new()));
    assert!(split_once(&chars("none"), '=').is_none());
}

#[test]
fn integers_parse_as_in_the_standard_library() {
    let cases = [
        "", "0", "7", "-7", "+7", "+", "-", "--1", "+-1", "2147483647", "2147483648",
        "-2147483648", "-2147483649", "0000000000000000012", "-000", "1 ", " 1", "1a", "a1",
        "1_000", "99999999999999999999999999999999999999999", "\u{661}", "1.0", "0x10",
    ];
    for s in cases {
        assert_eq!(parse_i32(&chars(s)), s.parse::<i32>().ok(), "{:?}", s);
        assert_eq!(parse_usize(&chars(s)), s.parse::<usize>().ok(), "{:?}", s);
    }
    let max = usize::MAX.to_string();
    assert_eq!(parse_usize(&chars(&max)), Some(usize::MAX));
    let over = format!("{}0", max);
    assert_eq!(parse_usize(&chars(&over)), None);
    let next = (usize::MAX as u128 + 1).to_string();
    assert_eq!(parse_usize(&chars(&next)), None);
}

#[test]
fn digits_only() {
    assert!(is_all_digits(&chars("0123456789")));
    assert!(is_all_digits(&chars("")));
    assert!(!is_all_digits(&chars("12a")));
    assert!(!is_all_digits(&chars("-1")));
}

#[test]
fn decimal_text_of_numbers() {
    assert_eq!(text(&decimal_chars(0)), "0");
    assert_eq!(text(&decimal_chars(9)), "9");
    assert_eq!(text(&decimal_chars(10)), "10");
    assert_eq!(text(&decimal_chars(1205)), "1205");
    assert_eq!(text(&decimal_chars(usize::MAX)), usize::MAX.to_string());
}

#[test]
fn fields_put_together_give_the_text_back() {
    for s in ["", ",", "a,b", ",a,,b,", "no separator", "x=1,y=2"] {
        let c = chars(s);
        let parts: Vec<String> = split(&c, ',').into_iter().map(text).collect();
        assert!(parts.iter().all(|p| !p.contains(',')));
        assert_eq!(parts.join(","), s);
    }
}
