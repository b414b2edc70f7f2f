//! Text, paths and maps by text.
use std::path::Path;

use pikachat::backend_core::channel::{BackendChannelError, channel_capacity};
use pikachat::paths::{extension_of, join, name_of, parent_of};
use pikachat::text::{
    NumberError, comes_before, decimal_string, has, parse_number, part_before, rest_after,
    rest_after_last, trim,
};
use pikachat::text_map::TextMap;

#[test]
fn trimming_takes_white_space_of_all_kinds() {
    assert_eq!(trim(" \t\u{2003}a b\u{a0}\n"), "a b");
    assert_eq!(trim(" \n"), "");
    assert_eq!(trim(&trim("  x ")), "x");
}

#[test]
fn numbers_are_read_as_std_reads_them() {
    for text in ["0", "7", "+7", "007", "65535", "65536", "", "+", "-1", " 1", "1 ", "1a", "99999999999"] {
        let expected = text.parse::<u16>();
        match parse_number(text, 65_535) {
            Ok(number) => assert_eq!(Ok(number as u16), expected),
            Err(error) => assert_eq!(error.reason(), expected.unwrap_err().to_string()),
        }
    }
    assert_eq!(parse_number("", 9), Err(NumberError::Empty));
    assert_eq!(parse_number("x", 9), Err(NumberError::InvalidDigit));
    assert_eq!(parse_number("10", 9), Err(NumberError::TooLarge));
    assert_eq!(decimal_string(0), "0");
    assert_eq!(decimal_string(u64::MAX), u64::MAX.to_string());
}

#[test]
fn parts_of_a_text_are_found() {
    assert_eq!(rest_after("a=b=c", "=").as_deref(), Some("b=c"));
    assert_eq!(rest_after("abc", "="), None);
    assert_eq!(part_before("a=b=c", "="), "a");
    assert_eq!(part_before("abc", "="), "abc");
    assert_eq!(rest_after_last("a/b/c", '/'), "c");
    let chars: Vec<char> = "hello".chars().collect();
    assert!(has(&chars, "ell"));
    assert!(!has(&chars, "elo"));
}

#[test]
fn texts_are_ordered_by_their_characters() {
    for (left, right) in [("a", "b"), ("a", "aa"), ("", "a"), ("B", "a"), ("row-a", "row-b")] {
        assert!(comes_before(left, right));
        assert!(!comes_before(right, left));
        assert!(left < right);
    }
    assert!(!comes_before("a", "a"));
}

#[test]
fn paths_are_those_of_std() {
    for path in ["/a/b", "a/b/", "a", "/", "", "/a", "a/b/.", "a/..", "./a.b.c", "a/.hidden", "x."] {
        let std_path = Path::new(path);
        assert_eq!(
            name_of(path).as_deref(),
            std_path.file_name().and_then(|name| name.to_str())
        );
        assert_eq!(
            extension_of(path).as_deref(),
            std_path.extension().and_then(|name| name.to_str())
        );
        assert_eq!(
            parent_of(path).as_deref(),
            std_path.parent().and_then(|dir| dir.to_str())
        );
        for name in ["c.d", "/abs"] {
            assert_eq!(Some(join(path, name).as_str()), std_path.join(name).to_str());
        }
    }
}

#[test]
fn text_maps_keep_their_order() {
    let mut map = TextMap::new();
    map.insert("b".to_owned(), 1);
    map.insert("a".to_owned(), 2);
    map.insert("b".to_owned(), 3);
    assert_eq!(map.len(), 2);
    assert_eq!(map.get("b"), Some(&3));
    assert_eq!(map.key_at(0), "b");
    assert_eq!(map.value_at(1), &2);
    assert_eq!(map.remove("b"), Some(3));
    assert_eq!(map.remove("b"), None);
    assert!(!map.is_empty());
    map.clear();
    assert!(map.is_empty());
}

#[test]
fn channels_hold_at_least_one_message() {
    assert_eq!(channel_capacity(0), 1);
    assert_eq!(channel_capacity(7), 7);
    assert_eq!(
        BackendChannelError::CommandChannelClosed.to_text(),
        "command channel is closed"
    );
}
