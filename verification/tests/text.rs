use ezmenulib::parse::{decimal_text, parse_signed, parse_unsigned, FromInput};
use ezmenulib::text::{chars_of, find_first, is_whitespace, same_text, split, trim};

#[test]
fn whitespace_is_what_the_standard_library_calls_so() {
    for code in 0..=0x10FFFFu32 {
        if let Some(c) = char::from_u32(code) {
            assert_eq!(is_whitespace(c), c.is_whitespace(), "U+{:04X}", code);
        }
    }
}

#[test]
fn trim_takes_the_white_space_at_both_ends() {
    assert_eq!(trim("  two \n"), "two");
    assert_eq!(trim("two"), "two");
    assert_eq!(trim(""), "");
    assert_eq!(trim(" \t\r\n"), "");
    assert_eq!(trim("\u{3000}a b\u{a0}"), "a b");
    assert_eq!(trim("é  è "), "é  è");
}

#[test]
fn trim_agrees_with_the_standard_library() {
    for s in ["", " ", "a", " a", "a ", "  a  b  ", "\n\n", "\u{2003}x\u{2003}", "ÿ \u{85}"] {
        assert_eq!(trim(s), s.trim());
    }
}

#[test]
fn chars_of_lists_the_characters() {
    assert_eq!(chars_of("aé\u{1F600}"), vec!['a', 'é', '\u{1F600}']);
    assert!(chars_of("").is_empty());
}

#[test]
fn same_text_compares_the_characters() {
    assert!(same_text("abc", "abc"));
    assert!(!same_text("abc", "abd"));
    assert!(!same_text("abc", "ABC"));
    assert!(same_text("", ""));
}

#[test]
fn split_cuts_at_every_separator() {
    assert_eq!(split("a b c", " "), vec!["a", "b", "c"]);
    assert_eq!(split("a  b", " "), vec!["a", "", "b"]);
    assert_eq!(split("", ","), vec![""]);
    assert_eq!(split(",", ","), vec!["", ""]);
    assert_eq!(split("a, b", ", "), vec!["a", "b"]);
    assert_eq!(split("aaa", "aa"), vec!["", "a"]);
    assert_eq!(split("abc", "abcd"), vec!["abc"]);
}

#[test]
fn split_at_an_empty_separator_gives_every_character() {
    assert_eq!(split("ab", ""), vec!["", "a", "b", ""]);
    assert_eq!(split("", ""), vec!["", ""]);
}

#[test]
fn split_agrees_with_the_standard_library() {
    let texts = ["", "a", "a,b", ",a,,b,", "aXXbXc", "XXXX", "é-è-ê", "  1  2 "];
    let seps = [",", "X", "XX", "-", " ", "  ", "", "é"];
    for t in texts {
        for s in seps {
            let want: Vec<&str> = t.split(s).collect();
            assert_eq!(split(t, s), want, "{:?} at {:?}", t, s);
        }
    }
}

#[test]
fn find_first_gives_the_first_equal_text() {
    let folded = vec!["one".to_string(), "two".to_string(), "two".to_string()];
    assert_eq!(find_first(&folded, "two"), Some(1));
    assert_eq!(find_first(&folded, "one"), Some(0));
    assert_eq!(find_first(&folded, "three"), None);
    assert_eq!(find_first(&Vec::new(), "one"), None);
}

#[test]
fn unsigned_numerals_are_read_with_their_bound() {
    assert_eq!(parse_unsigned("0", 10), Some(0));
    assert_eq!(parse_unsigned("10", 10), Some(10));
    assert_eq!(parse_unsigned("11", 10), None);
    assert_eq!(parse_unsigned("+7", 10), Some(7));
    assert_eq!(parse_unsigned("007", 10), Some(7));
    assert_eq!(parse_unsigned("", 10), None);
    assert_eq!(parse_unsigned("+", 10), None);
    assert_eq!(parse_unsigned("-0", 10), None);
    assert_eq!(parse_unsigned(" 1", 10), None);
    assert_eq!(parse_unsigned("1_0", 100), None);
    assert_eq!(parse_unsigned("18446744073709551615", u64::MAX), Some(u64::MAX));
    assert_eq!(parse_unsigned("18446744073709551616", u64::MAX), None);
    assert_eq!(parse_unsigned("99999999999999999999999999", u64::MAX), None);
}

#[test]
fn signed_numerals_are_read_with_their_bounds() {
    assert_eq!(parse_signed("-128", -128, 127), Some(-128));
    assert_eq!(parse_signed("-129", -128, 127), None);
    assert_eq!(parse_signed("127", -128, 127), Some(127));
    assert_eq!(parse_signed("128", -128, 127), None);
    assert_eq!(parse_signed("+5", -128, 127), Some(5));
    assert_eq!(parse_signed("-0", -128, 127), Some(0));
    assert_eq!(parse_signed("-", -128, 127), None);
    assert_eq!(parse_signed("--1", -128, 127), None);
    assert_eq!(parse_signed("-9223372036854775808", i64::MIN, i64::MAX), Some(i64::MIN));
    assert_eq!(parse_signed("-9223372036854775809", i64::MIN, i64::MAX), None);
    assert_eq!(parse_signed("9223372036854775807", i64::MIN, i64::MAX), Some(i64::MAX));
    assert_eq!(parse_signed("-1", 0, 5), None);
    assert_eq!(parse_signed("7", 5, 9), Some(7));
    assert_eq!(parse_signed("4", 5, 9), None);
    assert_eq!(parse_signed("-7", -9, -5), Some(-7));
    assert_eq!(parse_signed("0", -9, -5), None);
    assert_eq!(parse_signed("3", 5, 1), None);
    assert_eq!(parse_signed("-0", 0, 5), Some(0));
}

#[test]
fn numbers_are_read_as_the_standard_library_reads_them() {
    let texts = [
        "", "0", "1", "+1", "-1", "255", "256", "-128", "-129", "65535", "65536", "2022", "abc",
        "1a", " 1", "1 ", "+", "-", "+-1", "00", "-00", "4294967295", "4294967296",
        "18446744073709551615", "18446744073709551616", "9223372036854775807",
        "9223372036854775808", "-9223372036854775808", "-9223372036854775809", "٣", "1.0",
    ];
    for t in texts {
        assert_eq!(u8::parse(t), t.parse::<u8>().ok(), "u8 {:?}", t);
        assert_eq!(u16::parse(t), t.parse::<u16>().ok(), "u16 {:?}", t);
        assert_eq!(u32::parse(t), t.parse::<u32>().ok(), "u32 {:?}", t);
        assert_eq!(u64::parse(t), t.parse::<u64>().ok(), "u64 {:?}", t);
        assert_eq!(usize::parse(t), t.parse::<usize>().ok(), "usize {:?}", t);
        assert_eq!(i8::parse(t), t.parse::<i8>().ok(), "i8 {:?}", t);
        assert_eq!(i16::parse(t), t.parse::<i16>().ok(), "i16 {:?}", t);
        assert_eq!(i32::parse(t), t.parse::<i32>().ok(), "i32 {:?}", t);
        assert_eq!(i64::parse(t), t.parse::<i64>().ok(), "i64 {:?}", t);
        assert_eq!(isize::parse(t), t.parse::<isize>().ok(), "isize {:?}", t);
    }
}

#[test]
fn other_types_are_read_as_the_standard_library_reads_them() {
    for t in ["", "true", "false", "True", "a", "ab", "é", " "] {
        assert_eq!(bool::parse(t), t.parse::<bool>().ok(), "bool {:?}", t);
        assert_eq!(char::parse(t), t.parse::<char>().ok(), "char {:?}", t);
        assert_eq!(String::parse(t), Some(t.to_string()));
    }
}

#[test]
fn type_info_names_the_type() {
    assert_eq!(u16::type_info(), "u16");
    assert_eq!(String::type_info(), "String");
    assert_eq!(bool::type_info(), "bool");
    assert_eq!(isize::type_info(), "isize");
}

#[test]
fn decimal_text_writes_the_numeral() {
    assert_eq!(decimal_text(0), "0");
    assert_eq!(decimal_text(7), "7");
    assert_eq!(decimal_text(10), "10");
    assert_eq!(decimal_text(2022), "2022");
    assert_eq!(decimal_text(usize::MAX), usize::MAX.to_string());
}

#[test]
fn a_number_written_and_read_back_is_the_same() {
    for n in [0usize, 1, 9, 10, 99, 100, 12345, usize::MAX] {
        assert_eq!(usize::parse(decimal_text(n).as_str()), Some(n));
    }
    for t in ["0", "7", "10", "2018", "65535"] {
        let n = u16::parse(t).unwrap();
        assert_eq!(decimal_text(n as usize), t);
    }
}
