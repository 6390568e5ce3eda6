//! Texts, paths, maps and values that everything else is built on.
use yunxi::json::{get_bool, get_integer, get_text, parse_json, Json, JsonNumber};
use yunxi::paths::{components, file_name, joined, relative_path, same_components, Location};
use yunxi::text::{
    byte_len, char_byte_len, compact, decimal, decimal_u128, hex, join, lines, padded_hex, replace,
    signed_decimal, split, strip_prefix, swap_char, to_ascii_lowercase, to_ascii_uppercase, trim,
    trim_end, trim_end_char, trim_start_char,
};
use yunxi::text_map::{copy_texts, text_less, TextMap};
use yunxi::text_sort::{sort_by_name, sort_texts};

fn place(path: &str) -> Location {
    Location { display: path.to_string(), components: components(path) }
}

#[test]
fn texts_are_cut_as_the_standard_library_cuts_them() {
    for text in ["", " a ", "\u{3000}x\u{a0}", "a b", "\t\n"] {
        assert_eq!(trim(text), text.trim());
        assert_eq!(trim_end(text), text.trim_end());
        assert_eq!(byte_len(text), text.len());
    }
    for text in ["", "a", "a\n", "a\r\nb", "\n\nx"] {
        let expected: Vec<String> = text.lines().map(str::to_string).collect();
        assert_eq!(lines(text), expected);
        let expected: Vec<String> = text.split('\n').map(str::to_string).collect();
        assert_eq!(split(text, '\n'), expected);
        assert_eq!(join(&lines(text), "\n"), text.lines().collect::<Vec<_>>().join("\n"));
    }
    assert_eq!(replace("aXbXX", "X", "yy"), "aXbXX".replace("X", "yy"));
    assert_eq!(strip_prefix("abc", "ab"), Some("c"));
    assert_eq!(strip_prefix("abc", "b"), None);
    assert_eq!(trim_end_char("a//", '/'), "a");
    assert_eq!(trim_start_char("//a", '/'), "a");
    assert_eq!(swap_char("a\\b", '\\', '/'), "a/b");
    assert_eq!(to_ascii_lowercase("ÄAz"), "ÄAz".to_ascii_lowercase());
    assert_eq!(to_ascii_uppercase("äaZ"), "äaZ".to_ascii_uppercase());
    for c in ['a', 'é', '你', '🦀'] {
        assert_eq!(char_byte_len(c), c.len_utf8());
    }
}

#[test]
fn numbers_are_written_out() {
    assert_eq!(decimal(0), "0");
    assert_eq!(decimal(u64::MAX), u64::MAX.to_string());
    assert_eq!(decimal_u128(u128::MAX), u128::MAX.to_string());
    assert_eq!(signed_decimal(i64::MIN), i64::MIN.to_string());
    assert_eq!(signed_decimal(-1), "-1");
    assert_eq!(hex(255), "ff");
    assert_eq!(padded_hex(255, 4), "00ff");
}

#[test]
fn long_texts_are_compacted() {
    assert_eq!(compact(" short ", 10), "short");
    let long = compact(&"x".repeat(20), 10);
    assert_eq!(long.chars().count(), 10);
    assert!(long.ends_with("..."));
}

#[test]
fn paths_are_lists_of_components() {
    assert_eq!(components("/a//b/./c"), ["a", "b", "c"]);
    assert!(same_components("a/./b", "a//b"));
    assert_eq!(joined("/a", "b"), "/a/b");
    assert_eq!(joined("/", "b"), "/b");
    assert_eq!(file_name("/a/b.txt").as_deref(), Some("b.txt"));
    assert_eq!(file_name("/a/.."), None);
    assert!(place("/a/b").is_within(&place("/a")));
    assert!(!place("/ab").is_within(&place("/a")));
    assert_eq!(relative_path(&place("/a"), &place("/a/b/c")).as_deref(), Some("b/c"));
    assert_eq!(relative_path(&place("/a"), &place("/b")), None);
}

#[test]
fn maps_keep_their_keys_in_order() {
    let mut map: TextMap<String> = TextMap::new();
    for name in ["b", "a", "c", "a"] {
        map.insert(name.to_string(), format!("{name}{}", map.len()));
    }
    assert_eq!(map.len(), 3);
    assert_eq!(map.key_at(0), "a");
    assert_eq!(map.get("a"), Some(&"a3".to_string()));
    let copy = copy_texts(&map);
    assert_eq!(copy.key_at(2), "c");
    assert_eq!(map.remove("b"), Some("b0".to_string()));
    assert!(!map.contains_key("b"));
    assert!(copy.contains_key("b"));
    assert!(text_less("a", "ab") && text_less("z", "ä"));
    let sorted = sort_texts(vec!["b".to_string(), "a".to_string()]);
    assert_eq!(sorted, ["a", "b"]);
    let named = sort_by_name(vec![("b".to_string(), 1), ("a".to_string(), 2), ("b".to_string(), 3)]);
    assert_eq!(
        named,
        vec![("a".to_string(), 2), ("b".to_string(), 1), ("b".to_string(), 3)]
    );
}

#[test]
fn values_are_read_as_plain_data() {
    let value = parse_json(br#"{"b":true,"n":3,"m":-4,"f":1.5,"t":"x","a":[null]}"#).expect("JSON");
    assert_eq!(get_text(&value, "t"), Some("x"));
    assert_eq!(get_bool(&value, "b"), Some(true));
    assert_eq!(get_integer(&value, "n"), Some(3));
    assert_eq!(get_integer(&value, "m"), None);
    assert_eq!(value.get("m"), Some(&Json::Number(JsonNumber::Negative(-4))));
    assert_eq!(value.get("f"), Some(&Json::Number(JsonNumber::Float("1.5".to_string()))));
    assert_eq!(value.get("a"), Some(&Json::Array(vec![Json::Null])));
    assert!(parse_json(b"{").is_err());
}
