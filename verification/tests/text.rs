use statemaster::names::NameMap;
use statemaster::text::{
    decimal_of, fixed_of, join_from, parse_u32, parse_u64, split_text, starts_with, trim,
};

#[test]
fn numbers_read_back() {
    for n in [0u64, 7, 10, 99, 100, 12_345, u64::MAX] {
        assert_eq!(decimal_of(n), n.to_string());
        assert_eq!(parse_u64(&decimal_of(n)), Some(n));
    }
    assert_eq!(fixed_of(42, 5), "00042");
    assert_eq!(parse_u64(""), None);
    assert_eq!(parse_u64("-1"), None);
    assert_eq!(parse_u64("+1"), Some(1));
    assert_eq!(parse_u64("1x"), None);
    assert_eq!(parse_u64("18446744073709551616"), None);
    assert_eq!(parse_u32("4294967295"), Some(u32::MAX));
    assert_eq!(parse_u32("4294967296"), None);
}

#[test]
fn white_space_is_trimmed() {
    for s in ["", " ", " a b ", "\t\u{a0}x\u{3000}\n", "y", "\u{2003}", "a\u{200b}"] {
        assert_eq!(trim(s), s.trim());
    }
}

#[test]
fn texts_are_split_and_joined() {
    for s in ["", ",", "a,b", ",a,,b,", "é,ü"] {
        let parts = split_text(s, ',');
        let want: Vec<String> = s.split(',').map(|p| p.to_string()).collect();
        assert_eq!(parts, want);
        assert_eq!(join_from(&parts, 0, ","), s);
    }
    let v = vec!["a".to_string(), "b".to_string(), "c".to_string()];
    assert_eq!(join_from(&v, 1, " "), "b c");
    assert_eq!(join_from(&v, 3, " "), "");
    assert!(starts_with("abc", "ab") && !starts_with("abc", "b") && starts_with("x", ""));
}

#[test]
fn names_map_to_values() {
    let mut m: NameMap<u64> = NameMap::new();
    assert_eq!(m.get("a"), None);
    m.insert("a".to_string(), 1);
    m.insert("b".to_string(), 2);
    m.insert("a".to_string(), 3);
    assert_eq!(m.get("a"), Some(&3));
    m.remove("a");
    assert_eq!(m.get("a"), None);
    assert_eq!(m.get("b"), Some(&2));
}
