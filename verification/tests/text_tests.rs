use tantivy_ex::text::{
    chars_of, float_literal, i64_to_text, parse_bool, parse_i64, parse_u64, seconds_to_nanos,
    split_whitespace, string_of, trim_chars, u64_to_text,
};

#[test]
fn unsigned_texts() {
    assert_eq!(parse_u64("0"), Some(0));
    assert_eq!(parse_u64("42"), Some(42));
    assert_eq!(parse_u64("+7"), Some(7));
    assert_eq!(parse_u64("007"), Some(7));
    assert_eq!(parse_u64("18446744073709551615"), Some(u64::MAX));
    assert_eq!(parse_u64("18446744073709551616"), None);
    assert_eq!(parse_u64(""), None);
    assert_eq!(parse_u64("+"), None);
    assert_eq!(parse_u64("-1"), None);
    assert_eq!(parse_u64("1 "), None);
    assert_eq!(parse_u64("1.0"), None);
    assert_eq!(parse_u64("१"), None);
}

#[test]
fn signed_texts() {
    assert_eq!(parse_i64("0"), Some(0));
    assert_eq!(parse_i64("-0"), Some(0));
    assert_eq!(parse_i64("-5"), Some(-5));
    assert_eq!(parse_i64("+5"), Some(5));
    assert_eq!(parse_i64("9223372036854775807"), Some(i64::MAX));
    assert_eq!(parse_i64("9223372036854775808"), None);
    assert_eq!(parse_i64("-9223372036854775808"), Some(i64::MIN));
    assert_eq!(parse_i64("-9223372036854775809"), None);
    assert_eq!(parse_i64("-"), None);
    assert_eq!(parse_i64("--1"), None);
    assert_eq!(parse_i64("1e3"), None);
}

#[test]
fn float_literals_follow_the_grammar() {
    for good in [
        "0", "1", "-1", "+1", "1.", ".5", "1.5", "-1.5e10", "1e5", "1E5", "1e+5", "1e-5", "inf",
        "-inf", "+Infinity", "NaN", "nan", "0.0001", "9.5",
    ] {
        assert!(float_literal(good), "{good} should be a literal");
    }
    for bad in ["", ".", "e5", "1e", "1e+", "--1", "1.5.2", "abc", " 1", "1 ", "0x10", "+", "-", "infinit", "1_000"] {
        assert!(!float_literal(bad), "{bad} should be no literal");
    }
}

#[test]
fn float_literals_agree_with_the_standard_parser() {
    for text in ["0", "1.", ".5", "1e5", "-inf", "nan", "", ".", "e5", "1e", "+", "1.5.2", "١"] {
        assert_eq!(float_literal(text), text.parse::<f64>().is_ok(), "{text}");
    }
}

#[test]
fn decimal_texts() {
    assert_eq!(u64_to_text(0), "0");
    assert_eq!(u64_to_text(7), "7");
    assert_eq!(u64_to_text(1234567890), "1234567890");
    assert_eq!(u64_to_text(u64::MAX), "18446744073709551615");
    assert_eq!(i64_to_text(0), "0");
    assert_eq!(i64_to_text(-1), "-1");
    assert_eq!(i64_to_text(i64::MIN), "-9223372036854775808");
    assert_eq!(i64_to_text(i64::MAX), "9223372036854775807");
}

#[test]
fn decimal_texts_read_back() {
    for n in [0u64, 9, 10, 99, 100, 65535, u64::MAX] {
        assert_eq!(parse_u64(&u64_to_text(n)), Some(n));
    }
    for n in [i64::MIN, -10, -1, 0, 1, 10, i64::MAX] {
        assert_eq!(parse_i64(&i64_to_text(n)), Some(n));
    }
}

#[test]
fn splits_at_whitespace() {
    assert_eq!(split_whitespace("Quick Fox"), vec!["Quick", "Fox"]);
    assert_eq!(split_whitespace("  a \t b\nc  "), vec!["a", "b", "c"]);
    assert_eq!(split_whitespace("one"), vec!["one"]);
    assert_eq!(split_whitespace(""), Vec::<String>::new());
    assert_eq!(split_whitespace("   "), Vec::<String>::new());
    // A no-break space is whitespace too: the outside test decides.
    assert_eq!(split_whitespace("a\u{a0}b"), vec!["a", "b"]);
    assert_eq!(split_whitespace("a\u{3000}b"), vec!["a", "b"]);
}

#[test]
fn splits_as_the_standard_library_does() {
    for text in ["Quick Fox", " a  b ", "", "\t\n", "x\u{2003}y z"] {
        let expected: Vec<String> = text.split_whitespace().map(|w| w.to_string()).collect();
        assert_eq!(split_whitespace(text), expected);
    }
}

#[test]
fn trims_both_ends() {
    let trim = |text: &str| string_of(&trim_chars(&chars_of(text)));
    assert_eq!(trim("  a b  "), "a b");
    assert_eq!(trim("\t\n"), "");
    assert_eq!(trim(""), "");
    assert_eq!(trim("\u{a0}x\u{3000}"), "x");
    assert_eq!(trim(" 'x' "), "'x'");
}

#[test]
fn truth_words() {
    for word in ["true", "TRUE", "t", "T", "1", "yes", "Yes", "y", "Y"] {
        assert_eq!(parse_bool(word), Some(true), "{word}");
    }
    for word in ["false", "False", "f", "0", "no", "NO", "n"] {
        assert_eq!(parse_bool(word), Some(false), "{word}");
    }
    for word in ["", "2", "maybe", " true", "tr ue", "on", "off"] {
        assert_eq!(parse_bool(word), None, "{word}");
    }
}

#[test]
fn seconds_become_nanoseconds() {
    assert_eq!(seconds_to_nanos(0), Some(0));
    assert_eq!(seconds_to_nanos(1), Some(1_000_000_000));
    assert_eq!(seconds_to_nanos(-1), Some(-1_000_000_000));
    assert_eq!(seconds_to_nanos(9_223_372_036), Some(9_223_372_036_000_000_000));
    assert_eq!(seconds_to_nanos(9_223_372_037), None);
    assert_eq!(seconds_to_nanos(-9_223_372_036), Some(-9_223_372_036_000_000_000));
    assert_eq!(seconds_to_nanos(-9_223_372_037), None);
    assert_eq!(seconds_to_nanos(i64::MAX), None);
    assert_eq!(seconds_to_nanos(i64::MIN), None);
}

#[test]
fn characters_and_back() {
    let text = "héllo wörld ✓";
    assert_eq!(string_of(&chars_of(text)), text);
    assert_eq!(chars_of("ab").len(), 2);
    assert_eq!(chars_of("✓").len(), 1);
}

#[test]
fn whitespace_is_the_listed_characters_and_no_other() {
    let listed = |c: char| {
        matches!(
            c,
            '\u{9}'..='\u{d}'
                | ' '
                | '\u{85}'
                | '\u{a0}'
                | '\u{1680}'
                | '\u{2000}'..='\u{200a}'
                | '\u{2028}'
                | '\u{2029}'
                | '\u{202f}'
                | '\u{205f}'
                | '\u{3000}'
        )
    };
    let mut text = String::new();
    for code in 0..=0x10ffffu32 {
        if let Some(c) = char::from_u32(code) {
            text.clear();
            text.push(c);
            assert_eq!(split_whitespace(&text).is_empty(), listed(c), "{code:#x}");
        }
    }
}
