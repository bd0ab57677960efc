use blumbotron::text::{
    chars_of, contains, decimal_string, find_first_from, find_last, lower_char, matches_at,
    parse_u32, reads_ignoring_case,
};

fn chars(text: &str) -> Vec<char> {
    text.chars().collect()
}

#[test]
fn chars_are_taken_in_order() {
    assert_eq!(chars_of("héllo"), vec!['h', 'é', 'l', 'l', 'o']);
    assert_eq!(chars_of(""), Vec::<char>::new());
}

#[test]
fn contains_agrees_with_std() {
    let hays = ["", "a", "abc", "aaab", "lockForConfiguration", "xxlockForConfigurationyy", "abcabd"];
    let needles = ["", "a", "b", "ab", "abd", "aab", "lockForConfiguration", "abcd"];
    for hay in hays {
        for needle in needles {
            assert_eq!(contains(hay, needle), hay.contains(needle), "{:?} in {:?}", needle, hay);
        }
    }
}

#[test]
fn matches_at_compares_in_place() {
    assert!(matches_at(&chars("hello"), &chars("ll"), 2));
    assert!(!matches_at(&chars("hello"), &chars("ll"), 1));
    assert!(matches_at(&chars("hello"), &chars(""), 5));
}

#[test]
fn searches_find_the_outermost_occurrence() {
    let text = chars("a(b)c(d)e");
    assert_eq!(find_last(&text, '('), Some(5));
    assert_eq!(find_last(&text, 'z'), None);
    assert_eq!(find_first_from(&text, ')', 0), Some(3));
    assert_eq!(find_first_from(&text, ')', 4), Some(7));
    assert_eq!(find_first_from(&text, ')', 8), None);
    assert_eq!(find_first_from(&text, ')', 9), None);
    assert_eq!(find_last(&chars(""), '('), None);
}

#[test]
fn parse_agrees_with_std() {
    let texts = [
        "", "0", "7", "42", "007", "+5", "+", "-5", "++5", "5+", " 5", "5 ", "4294967295",
        "4294967296", "42949672950", "99999999999999999999", "1e3", "٣", "0x10",
    ];
    for text in texts {
        let all = chars(text);
        assert_eq!(parse_u32(&all, 0, all.len()), text.parse::<u32>().ok(), "{:?}", text);
    }
    let inside = chars("ab123cd");
    assert_eq!(parse_u32(&inside, 2, 5), Some(123));
    assert_eq!(parse_u32(&inside, 2, 2), None);
    assert_eq!(parse_u32(&inside, 1, 5), None);
}

#[test]
fn decimal_agrees_with_std() {
    for n in [0u64, 1, 9, 10, 11, 99, 100, 4294967295, 4294967296, u64::MAX] {
        assert_eq!(decimal_string(n), n.to_string());
    }
}

#[test]
fn folding_touches_ascii_capitals_only() {
    assert_eq!(lower_char('A'), 'a');
    assert_eq!(lower_char('Z'), 'z');
    assert_eq!(lower_char('a'), 'a');
    assert_eq!(lower_char('['), '[');
    assert_eq!(lower_char('@'), '@');
    assert_eq!(lower_char('É'), 'É');
    assert!(reads_ignoring_case(&chars("x.JpG"), 2, "jpg"));
    assert!(!reads_ignoring_case(&chars("x.JpG"), 2, "jpeg"));
    assert!(!reads_ignoring_case(&chars("x.jpg"), 2, "JPG"));
    assert!(reads_ignoring_case(&chars("x."), 2, ""));
}
