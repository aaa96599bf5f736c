use opnsense_dashboard::text::{
    char_is_space, chars_of, chars_le, find, find_first_labeled_value, find_labeled_value,
    matches_at, parse_decimal, split_bounds, str_eq, str_le, trim_bounds,
};

fn chars(s: &str) -> Vec<char> {
    s.chars().collect()
}

#[test]
fn chars_of_lists_the_characters() {
    assert_eq!(chars_of("aé€"), vec!['a', 'é', '€']);
    assert_eq!(chars_of(""), Vec::<char>::new());
}

#[test]
fn str_eq_compares_contents() {
    assert!(str_eq("active", "active"));
    assert!(!str_eq("active", "active "));
    assert!(str_eq("", ""));
}

#[test]
fn white_space_is_what_std_says() {
    for code in 0..0x11_0000u32 {
        if let Some(c) = char::from_u32(code) {
            assert_eq!(char_is_space(c), c.is_whitespace(), "U+{code:04X}");
        }
    }
}

#[test]
fn trim_bounds_enclose_what_std_trims_to() {
    for s in ["", "   ", "a", "  a b  ", "\t x\n", "x  ", "\u{3000}y\u{a0}"] {
        let v = chars(s);
        let (a, b) = trim_bounds(&v, 0);
        let trimmed: String = v[a..b].iter().collect();
        assert_eq!(trimmed, s.trim(), "{s:?}");
    }
    let v = chars("ab  cd  ");
    assert_eq!(trim_bounds(&v, 2), (4, 6));
    assert_eq!(trim_bounds(&v, 8), (8, 8));
}

#[test]
fn find_returns_the_first_occurrence() {
    assert_eq!(find(&chars("a status: status: b"), &chars("status:")), Some(2));
    assert_eq!(find(&chars("abc"), &chars("abcd")), None);
    assert_eq!(find(&chars("abc"), &chars("c")), Some(2));
    assert_eq!(find(&chars("abc"), &chars("")), Some(0));
    assert_eq!(find(&chars(""), &chars("")), Some(0));
    assert_eq!(find(&chars("aab"), &chars("ab")), Some(1));
    assert!(matches_at(&chars("hello"), &chars("llo"), 2));
    assert!(!matches_at(&chars("hello"), &chars("llo"), 1));
    assert!(!matches_at(&chars("hello"), &chars("llo"), 3));
    assert!(!matches_at(&chars("hello"), &chars("llo"), 9));
    assert!(matches_at(&chars("hello"), &chars(""), 5));
    assert!(!matches_at(&chars("hello"), &chars(""), 6));
}

#[test]
fn split_bounds_follow_std_split() {
    for s in ["", "a", "a b", "a  b", " a", "a ", "wan 1200 300 0", "  "] {
        let v = chars(s);
        let fields: Vec<String> =
            split_bounds(&v, ' ').into_iter().map(|(a, b)| v[a..b].iter().collect()).collect();
        let expected: Vec<String> = s.split(' ').map(str::to_owned).collect();
        assert_eq!(fields, expected, "{s:?}");
    }
}

#[test]
fn parse_decimal_follows_std_parse() {
    for s in ["0", "7", "+7", "007", "18446744073709551615", "18446744073709551616", "", "+",
        "-", "-0", "1 ", " 1", "1_0", "0x10", "99999999999999999999999", "++1", "1+"]
    {
        let v = chars(s);
        assert_eq!(parse_decimal(&v, 0, v.len(), u64::MAX), s.parse::<u64>().ok(), "{s:?}");
        assert_eq!(
            parse_decimal(&v, 0, v.len(), u16::MAX as u64),
            s.parse::<u16>().ok().map(u64::from),
            "{s:?}"
        );
    }
    let v = chars("ab123cd");
    assert_eq!(parse_decimal(&v, 2, 5, 1000), Some(123));
    assert_eq!(parse_decimal(&v, 2, 5, 122), None);
    assert_eq!(parse_decimal(&v, 2, 2, 1000), None);
    assert_eq!(parse_decimal(&chars("5"), 0, 1, 0), None);
    assert_eq!(parse_decimal(&chars("0"), 0, 1, 0), Some(0));
}

#[test]
fn order_is_that_of_std() {
    let words = ["", "a", "ab", "b", "B", "é", "z", "configd", "dhcpd", "dhcpd6", "\u{10000}"];
    for a in words {
        for b in words {
            assert_eq!(str_le(a, b), a <= b, "{a:?} {b:?}");
            assert_eq!(chars_le(&chars(a), &chars(b)), a <= b);
        }
    }
}

#[test]
fn labeled_value_is_trimmed_rest_of_line() {
    assert_eq!(find_labeled_value("\tstatus: active", "status:"), Some("active".to_owned()));
    assert_eq!(find_labeled_value("  status:   no carrier  ", "status:"), Some("no carrier".to_owned()));
    assert_eq!(find_labeled_value("status:", "status:"), Some(String::new()));
    assert_eq!(find_labeled_value("media: Ethernet", "status:"), None);
    let lines = vec![
        "igb0: flags=8843".to_owned(),
        "  status: first".to_owned(),
        "  status: second".to_owned(),
    ];
    assert_eq!(find_first_labeled_value(&lines, "status:"), Some("first".to_owned()));
    assert_eq!(find_first_labeled_value(&lines, "ether"), None);
    assert_eq!(find_first_labeled_value(&Vec::new(), "status:"), None);
}
