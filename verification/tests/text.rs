use stackpedia::text::{
    chars_of, join_strings, parse_i64, parse_u16, push_decimal, push_signed, split_chars,
    split_once_chars, string_from, trim_text,
};

#[test]
fn trimming_uses_unicode_whitespace() {
    assert_eq!(trim_text(" \t\n a b \r\u{3000}"), "a b");
    assert_eq!(trim_text("\u{a0}x\u{2009}"), "x");
    assert_eq!(trim_text(""), "");
    assert_eq!(trim_text("   "), "");
    assert_eq!(trim_text("\u{200b}x"), "\u{200b}x");
}

#[test]
fn splitting_keeps_empty_pieces() {
    let pieces: Vec<String> = split_chars(&chars_of("a,,b,"), ',').iter().map(string_from).collect();
    assert_eq!(pieces, vec!["a", "", "b", ""]);
    let pieces = split_chars(&chars_of(""), ',');
    assert_eq!(pieces.len(), 1);
    let (a, b) = split_once_chars(&chars_of("k:v:w"), ':').unwrap();
    assert_eq!((string_from(&a), string_from(&b)), ("k".to_string(), "v:w".to_string()));
    assert!(split_once_chars(&chars_of("kv"), ':').is_none());
}

#[test]
fn decimal_rendering() {
    let mut s = String::new();
    push_decimal(&mut s, 0);
    push_char_sep(&mut s);
    push_decimal(&mut s, 1234567890123);
    push_char_sep(&mut s);
    push_signed(&mut s, i64::MIN);
    push_char_sep(&mut s);
    push_signed(&mut s, -7);
    assert_eq!(s, "0|1234567890123|-9223372036854775808|-7");
}

fn push_char_sep(s: &mut String) {
    s.push('|');
}

#[test]
fn integer_parsing_like_std() {
    for t in ["0", "42", "+42", "-42", "9223372036854775807", "-9223372036854775808", "007"] {
        assert_eq!(parse_i64(&chars_of(t)), t.parse::<i64>().ok(), "{}", t);
    }
    for t in ["", "+", "-", "9223372036854775808", "-9223372036854775809", "1a", " 1", "٣"] {
        assert_eq!(parse_i64(&chars_of(t)), None, "{}", t);
    }
    for t in ["0", "65535", "+1", "3000"] {
        assert_eq!(parse_u16(&chars_of(t)), t.parse::<u16>().ok(), "{}", t);
    }
    for t in ["65536", "-0", "-1", "", "x"] {
        assert_eq!(parse_u16(&chars_of(t)), None, "{}", t);
    }
}

#[test]
fn joining() {
    let items = vec!["a".to_string(), "b".to_string(), "c".to_string()];
    assert_eq!(join_strings(&items, ", "), "a, b, c");
    assert_eq!(join_strings(&vec![], ", "), "");
    assert_eq!(join_strings(&vec!["x".to_string()], ", "), "x");
}

#[test]
fn decimal_rendering_reads_back() {
    for v in [0i64, 1, -1, 42, -1700000000, i64::MAX, i64::MIN] {
        let mut s = String::new();
        push_signed(&mut s, v);
        assert_eq!(s, v.to_string());
        assert_eq!(parse_i64(&chars_of(&s)), Some(v));
    }
}
