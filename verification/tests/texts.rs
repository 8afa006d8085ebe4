use azimuth::order::{insert_increasing, stands_before};
use azimuth::paths::{find_last, last_component, split_name};
use azimuth::text::{
    contains_char, decimal_string, joined, replace_char, starts_with_char, strip_prefix,
    trim_char,
};

#[test]
fn numbers_are_written_in_decimal() {
    assert_eq!(decimal_string(0), "0");
    assert_eq!(decimal_string(7), "7");
    assert_eq!(decimal_string(10), "10");
    assert_eq!(decimal_string(409), "409");
    assert_eq!(decimal_string(1234567890), "1234567890");
    assert_eq!(decimal_string(usize::MAX), usize::MAX.to_string());
}

#[test]
fn prefixes_are_stripped() {
    assert_eq!(strip_prefix("/Azimuth/a.md", "/Azimuth/"), Some("a.md".to_string()));
    assert_eq!(strip_prefix("/Azimuth/", "/Azimuth/"), Some(String::new()));
    assert_eq!(strip_prefix("/Azimuth", "/Azimuth/"), None);
    assert_eq!(strip_prefix("/azimuth/a.md", "/Azimuth/"), None);
    assert_eq!(strip_prefix("abc", ""), Some("abc".to_string()));
    assert_eq!(strip_prefix("", "a"), None);
    assert_eq!(strip_prefix("\u{e9}t\u{e9}", "\u{e9}"), Some("t\u{e9}".to_string()));
}

#[test]
fn characters_are_trimmed_at_both_ends() {
    assert_eq!(trim_char("\"abc\"", '"'), "abc");
    assert_eq!(trim_char("\"\"a\"b\"\"", '"'), "a\"b");
    assert_eq!(trim_char("abc", '"'), "abc");
    assert_eq!(trim_char("\"\"\"", '"'), "");
    assert_eq!(trim_char("", '"'), "");
    assert_eq!(trim_char("xax", 'x'), "xax".trim_matches('x'));
}

#[test]
fn small_string_helpers() {
    assert_eq!(joined("ab", "cd"), "abcd");
    assert_eq!(joined("", ""), "");
    assert!(starts_with_char(".a", '.'));
    assert!(!starts_with_char("a.", '.'));
    assert!(!starts_with_char("", '.'));
    assert!(contains_char("a/b", '/'));
    assert!(!contains_char("ab", '/'));
    assert_eq!(replace_char("a-b-c", '-', '+'), "a+b+c");
    assert_eq!(replace_char("", '-', '+'), "");
}

#[test]
fn strings_are_ordered_like_str() {
    let samples = ["", "a", "A", "ab", "abc", "b", "B", "ba", "\u{e9}", "z", "zz", "10", "9"];
    for a in samples {
        for b in samples {
            assert_eq!(stands_before(a, b), a < b, "{:?} {:?}", a, b);
        }
    }
}

#[test]
fn increasing_lists_stay_increasing() {
    let mut list: Vec<String> = Vec::new();
    for s in ["m", "a", "z", "m", "b", "", "a"] {
        insert_increasing(&mut list, s);
    }
    assert_eq!(list, vec!["", "a", "b", "m", "z"]);
}

#[test]
fn names_are_split_like_paths() {
    for name in ["a.md", "archive.tar.gz", "README", ".hidden", ".a.b", "a.", "..", "a..b", ""] {
        let (stem, ext) = split_name(name);
        let path = std::path::Path::new(name);
        if name != ".." && !name.is_empty() {
            assert_eq!(stem, path.file_stem().unwrap().to_string_lossy(), "{:?}", name);
            assert_eq!(
                ext,
                path.extension().map(|e| e.to_string_lossy().to_string()).unwrap_or_default(),
                "{:?}",
                name
            );
        }
    }
    assert_eq!(split_name("a.md"), ("a".to_string(), "md".to_string()));
    assert_eq!(split_name("a."), ("a".to_string(), String::new()));
    assert_eq!(split_name(".hidden"), (".hidden".to_string(), String::new()));
    assert_eq!(split_name(""), (String::new(), String::new()));
}

#[test]
fn last_components_and_positions() {
    assert_eq!(find_last("a/b/c", '/'), Some(3));
    assert_eq!(find_last("abc", '/'), None);
    assert_eq!(find_last("", '/'), None);
    assert_eq!(find_last("/", '/'), Some(0));
    assert_eq!(last_component("a/b/c.md"), Some("c.md".to_string()));
    assert_eq!(last_component("c.md"), Some("c.md".to_string()));
    assert_eq!(last_component("a/"), None);
    assert_eq!(last_component("a/.."), None);
    assert_eq!(last_component("."), None);
}
