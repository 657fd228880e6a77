use rcargo::text::{
    after_prefix, alphanumeric, join, join_path, split_words, to_decimal, to_lower,
    to_signed_decimal, trim, trim_end, white, CharClass,
};

#[test]
fn characters_are_classed_as_std_classes_them() {
    for c in (0..=0x10ffffu32).filter_map(char::from_u32) {
        assert_eq!(white(c), c.is_whitespace(), "{c:?}");
        assert_eq!(alphanumeric(c), c.is_ascii_alphanumeric(), "{c:?}");
        assert_eq!(to_lower(c), c.to_ascii_lowercase(), "{c:?}");
    }
}

#[test]
fn trimming_takes_one_class_only() {
    assert_eq!(trim(" \t a b\u{3000}\n", CharClass::White), "a b");
    assert_eq!(trim("--a-b--", CharClass::Dash), "a-b");
    assert_eq!(trim("---", CharClass::Dash), "");
    assert_eq!(trim_end("/a//", CharClass::Slash), "/a");
    assert_eq!(trim_end("a \r\n\n", CharClass::LineEnd), "a ");
}

#[test]
fn prefixes_are_taken_off() {
    assert_eq!(after_prefix("~/a", "~/").as_deref(), Some("a"));
    assert_eq!(after_prefix("~", "~/"), None);
    assert_eq!(after_prefix("a", "").as_deref(), Some("a"));
}

#[test]
fn lists_are_joined_and_split() {
    let parts = vec!["a".to_string(), "".to_string(), "é".to_string()];
    assert_eq!(join(&parts, ", "), "a, , é");
    assert_eq!(join(&vec![], ", "), "");
    assert_eq!(split_words(" a  é\n"), vec!["a", "é"]);
}

#[test]
fn paths_are_joined_as_std_joins_them() {
    for base in ["", "/", "a", "a/", "/a/b", "/a//"] {
        for name in ["target", "release/", "", "/abs"] {
            let std = std::path::Path::new(base).join(name);
            assert_eq!(join_path(base, name), std.to_str().unwrap(), "{base:?} {name:?}");
        }
    }
}

#[test]
fn numbers_are_written_as_std_writes_them() {
    for n in [0u64, 7, 10, 99, 7475, u64::MAX] {
        assert_eq!(to_decimal(n), n.to_string());
    }
    for n in [0i32, 5, -5, 101, i32::MIN, i32::MAX] {
        assert_eq!(to_signed_decimal(n), n.to_string());
    }
}
