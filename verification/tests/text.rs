use agent_shell::json::{parse, print, Json, JsonNumber};
use agent_shell::text::{
    after_prefix, before_suffix, cut, cut_text, dec_int_of, dec_of, drop_leading, find, has_text,
    joined, lines_of, lowered, read_i32, read_leading, read_u32, replaced, same_ignoring_case,
    split_at_char, trimmed, trimmed_start, words_of,
};

#[test]
fn numbers_survive_printing() {
    assert_eq!(dec_of(0), "0");
    assert_eq!(dec_of(u64::MAX), u64::MAX.to_string());
    assert_eq!(dec_int_of(i64::MIN), i64::MIN.to_string());
    assert_eq!(dec_int_of(-7), "-7");
    assert_eq!(read_u32(&dec_of(4294967295)), Some(u32::MAX));
    assert_eq!(read_i32("-2147483648"), Some(i32::MIN));
}

#[test]
fn numbers_are_read_like_the_standard_library_reads_them() {
    for text in [
        "", "+", "-", "0", "+5", "-5", "007", "4294967295", "4294967296", " 1", "1 ", "1x", "２",
        "99999999999999999999",
    ] {
        assert_eq!(read_u32(text), text.parse::<u32>().ok(), "{text:?}");
        assert_eq!(read_i32(text), text.parse::<i32>().ok(), "{text:?}");
    }
    assert_eq!(read_leading("47.1"), Some(47));
    assert_eq!(read_leading("x"), None);
}

#[test]
fn texts_are_cut_like_the_standard_library_cuts_them() {
    for text in [
        "", " ", "a", "a b", " a  b ", "a\nb\n", "a\r\nb", "\n", "a\u{a0}b\u{3000}", "\ta,b,,c\n",
        "é,ß", "aaa",
    ] {
        assert_eq!(trimmed(text), text.trim(), "{text:?}");
        assert_eq!(trimmed_start(text), text.trim_start(), "{text:?}");
        assert_eq!(lines_of(text), text.lines().collect::<Vec<_>>(), "{text:?}");
        assert_eq!(words_of(text), text.split_whitespace().collect::<Vec<_>>(), "{text:?}");
        assert_eq!(split_at_char(text, ','), text.split(',').collect::<Vec<_>>(), "{text:?}");
        assert_eq!(has_text(text, "b"), text.contains("b"), "{text:?}");
        assert_eq!(replaced(text, "a", "xy"), text.replace("a", "xy"), "{text:?}");
        assert_eq!(replaced(text, "aa", "b"), text.replace("aa", "b"), "{text:?}");
        assert_eq!(drop_leading(text, 'a'), text.trim_start_matches('a'), "{text:?}");
        assert_eq!(
            after_prefix(text, "a").as_deref(),
            text.strip_prefix("a"),
            "{text:?}"
        );
        assert_eq!(
            before_suffix(text, "b").as_deref(),
            text.strip_suffix("b"),
            "{text:?}"
        );
        let expected = text.split_once(',').map(|(a, b)| (a.to_string(), b.to_string()));
        assert_eq!(cut(text, ','), expected, "{text:?}");
        assert_eq!(cut_text(text, ","), expected, "{text:?}");
    }
    assert_eq!(find("äb", "b"), Some(1));
    assert_eq!(find("äb", "c"), None);
    assert_eq!(lowered("AbÇ"), "AbÇ".to_ascii_lowercase());
    assert!(same_ignoring_case("Push Button", "push button"));
    assert!(!same_ignoring_case("push", "pull"));
    assert_eq!(joined(&vec!["a".to_string(), "b".to_string()], ", "), "a, b");
}

#[test]
fn json_is_read_and_printed() {
    let text = r#"{"a":[1,-2,2.5,true,null],"b":"x\ny"}"#;
    let v = parse(text).unwrap();
    assert_eq!(v.get_str("b"), Some("x\ny"));
    let list = v.get_array("a").unwrap();
    assert_eq!(list[0], Json::Number(JsonNumber::Pos(1)));
    assert_eq!(list[1].as_i64(), Some(-2));
    assert_eq!(list[1].as_u64(), None);
    assert!(matches!(&list[2], Json::Number(JsonNumber::Float(f)) if f == "2.5"));
    assert_eq!(list[3].as_bool(), Some(true));
    assert_eq!(list[4], Json::Null);
    assert_eq!(parse(&print(&v)).unwrap(), v);
    let error = parse("{").unwrap_err();
    assert!(error.contains("EOF"), "{error}");
    // The last of two equal names counts.
    assert_eq!(parse(r#"{"a":1,"a":2}"#).unwrap().get_i64("a"), Some(2));
}
