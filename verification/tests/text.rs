use opencode_monitor::sort::{order_by_numbers, order_by_texts};
use opencode_monitor::str_map::StrMap;
use opencode_monitor::text::{
    byte_len, contains_text, decimal_text, ends_with, eq_ignore_ascii_case, hex_text,
    is_white_space, join, last_segment, magnitude, parse_u64, replace, split_once_char, split_once_text,
    starts_with, str_after_bytes, str_le, strip_prefix, to_ascii_lowercase, trim, zero_pad,
};

#[test]
fn white_space_is_that_of_unicode() {
    for n in 0..=0x10ffff_u32 {
        if let Some(c) = char::from_u32(n) {
            assert_eq!(is_white_space(c), c.is_whitespace(), "U+{n:04X}");
        }
    }
}

#[test]
fn trimming_takes_both_ends() {
    for s in ["", " ", "a", " a b\t", "\u{2003}x\u{a0}", "\u{200b}x"] {
        assert_eq!(trim(s), s.trim());
        assert_eq!(trim(trim(s)), trim(s));
    }
}

#[test]
fn numbers_are_written_in_decimal() {
    for n in [0, 7, 10, 99, 1_000_000, u64::MAX] {
        assert_eq!(decimal_text(n), n.to_string());
    }
    for n in [0, -1, 42, i64::MIN, i64::MAX] {
        assert_eq!(magnitude(n), n.unsigned_abs());
    }
    assert_eq!(zero_pad("42", 5), "00042");
    assert_eq!(zero_pad("123456", 5), "123456");
    assert_eq!(hex_text(0xdead_beef, 16), "00000000deadbeef");
    assert_eq!(hex_text(u64::MAX, 16), "ffffffffffffffff");
}

#[test]
fn numbers_are_read_from_decimal() {
    for s in ["0", "+7", "18446744073709551615", "18446744073709551616", "", "+", "-1", "1 ", "007", "9x"] {
        assert_eq!(parse_u64(s), s.parse::<u64>().ok(), "{s:?}");
    }
}

#[test]
fn texts_are_searched_and_split() {
    assert!(contains_text("abcabd", "abd"));
    assert!(!contains_text("ab", "abc"));
    assert!(contains_text("ab", ""));
    assert_eq!(split_once_char("a/b/c", '/'), Some(("a", "b/c")));
    assert_eq!(split_once_char("abc", '/'), None);
    assert_eq!(split_once_text("x;base64,y;base64,z", ";base64,"), Some(("x", "y;base64,z")));
    assert!(starts_with("data:x", "data:") && !starts_with("dat", "data:"));
    assert!(ends_with("a.png", ".png") && !ends_with("png", ".png"));
    assert_eq!(strip_prefix("app://x", "app://"), Some("x"));
    assert_eq!(strip_prefix("x", "app://"), None);
    assert_eq!(last_segment("a/b/c.rs"), "c.rs");
    assert_eq!(last_segment("c.rs"), "c.rs");
    assert_eq!(last_segment("a/"), "");
    assert_eq!(replace("aXbXX", "X", "yy"), "ayybyyyy");
    assert_eq!(replace("aaa", "aa", "b"), "ba");
}

#[test]
fn texts_are_joined() {
    let parts = vec!["a".to_string(), String::new(), "b".to_string()];
    assert_eq!(join(&parts, ", "), "a, , b");
    assert_eq!(join(&Vec::new(), ", "), "");
}

#[test]
fn letters_are_compared_without_case() {
    assert_eq!(to_ascii_lowercase("AbC\u{c4}"), "abc\u{c4}");
    assert!(eq_ignore_ascii_case("ALL", "all"));
    assert!(!eq_ignore_ascii_case("al", "all"));
}

#[test]
fn bytes_are_counted_by_character() {
    let s = "a\u{e9}\u{20ac}\u{1f600}b";
    assert_eq!(byte_len(s), s.len());
    for n in 0..=s.len() + 1 {
        assert_eq!(str_after_bytes(s, n), s.get(n..));
    }
}

#[test]
fn texts_are_ordered_as_in_a_dictionary() {
    let words = ["", "a", "ab", "b", "Z", "\u{e9}", "\u{1f600}", "\u{ffff}"];
    for a in words {
        for b in words {
            assert_eq!(str_le(a, b), a <= b, "{a:?} {b:?}");
        }
    }
}

#[test]
fn sorting_is_stable_and_loses_nothing() {
    let keys: Vec<Option<String>> =
        ["b", "a", "b", "a", "c"].iter().map(|s| Some(s.to_string())).collect();
    assert_eq!(order_by_texts(&keys), vec![1, 3, 0, 2, 4]);
    let gaps = vec![Some("b".to_string()), None, Some("b".to_string())];
    assert_eq!(order_by_texts(&gaps), vec![0, 1, 2]);
    assert_eq!(order_by_numbers(&vec![3, 1, 2, 1]), vec![1, 3, 2, 0]);
    assert_eq!(order_by_numbers(&Vec::new()), Vec::<usize>::new());
}

#[test]
fn a_map_keeps_one_value_per_key() {
    let mut map: StrMap<u64> = StrMap::new();
    map.insert("a", 1);
    map.insert("b", 2);
    map.insert("a", 3);
    assert_eq!(map.get("a"), Some(&3));
    *map.entry_or("c", 5) += 1;
    *map.entry_or("b", 9) += 1;
    assert_eq!((map.get("b"), map.get("c")), (Some(&3), Some(&6)));
    map.remove("a");
    assert_eq!(map.get("a"), None);
    map.clear();
    assert_eq!(map.get("b"), None);
}
