use ezmenulib::error::{MenuError, MenuResult};
use ezmenulib::field::{parse_value, DefaultValue, FieldDetails, Query, ValueField};
use ezmenulib::format::ValueFieldFormatting;
use ezmenulib::reader::{Many, One, Reader};
use ezmenulib::stream::MenuStream;
use ezmenulib::utils::{default_failed, keep, prompt, read_input, show};

fn lines(input: &[&str]) -> MenuStream {
    MenuStream::new(input.iter().map(|l| l.to_string()).collect())
}

const YEAR: &str = "--> Year (default: 2022)\n>> ";

#[test]
fn year_with_empty_line_gives_the_default() {
    let year = ValueField::from("Year").default_value("2022");
    let mut stream = lines(&[""]);
    let r: MenuResult<u16> = year.build_with(&mut stream);
    assert_eq!(r, Ok(2022));
    assert_eq!(stream.output(), YEAR);
    assert_eq!(stream.remaining(), 0);
}

#[test]
fn year_with_a_valid_line_gives_the_value() {
    let year = ValueField::from("Year").default_value("2022");
    let mut stream = lines(&["2018", "1999"]);
    let r: MenuResult<u16> = year.build_with(&mut stream);
    assert_eq!(r, Ok(2018));
    assert_eq!(stream.output(), YEAR);
    assert_eq!(stream.remaining(), 1);
}

#[test]
fn year_with_an_invalid_line_falls_back_at_the_end_of_input() {
    let year = ValueField::from("Year").default_value("2022");
    let mut stream = lines(&["abc"]);
    let r: MenuResult<u16> = year.build_with(&mut stream);
    assert_eq!(r, Ok(2022));
    assert_eq!(stream.output(), format!("{}{}", YEAR, YEAR));
}

#[test]
fn an_invalid_line_is_asked_again_until_a_valid_one() {
    let year = ValueField::from("Year").default_value("2022");
    let mut stream = lines(&["abc", "70000", "  2001  ", "2002"]);
    let r: MenuResult<u16> = year.build_with(&mut stream);
    assert_eq!(r, Ok(2001));
    assert_eq!(stream.output(), format!("{0}{0}{0}", YEAR));
    assert_eq!(stream.remaining(), 1);
}

#[test]
fn a_valid_answer_is_accepted_at_the_first_attempt() {
    let age = ValueField::from("Age");
    let mut stream = lines(&["42", "43"]);
    let r: MenuResult<u8> = age.build_with(&mut stream);
    assert_eq!(r, Ok(42));
    assert_eq!(stream.output(), "--> Age\n>> ");
    assert_eq!(stream.remaining(), 1);
    let name = ValueField::from("Name");
    let mut stream = lines(&["  Ada Lovelace "]);
    let r: MenuResult<String> = name.build_with(&mut stream);
    assert_eq!(r, Ok("Ada Lovelace".to_string()));
}

#[test]
fn an_empty_answer_to_a_text_field_is_a_text() {
    let name = ValueField::from("Name").default_value("nobody");
    let mut stream = lines(&[""]);
    let r: MenuResult<String> = name.build_with(&mut stream);
    assert_eq!(r, Ok(String::new()));
}

#[test]
fn the_end_of_input_without_default_is_an_error() {
    let age = ValueField::from("Age");
    let mut stream = lines(&[]);
    let r: MenuResult<u8> = age.build_with(&mut stream);
    assert_eq!(r, Err(MenuError::NoMoreInput));
    assert_eq!(stream.output(), "--> Age\n>> ");
    let mut stream = lines(&["x", "y"]);
    let r: MenuResult<u8> = age.build_with(&mut stream);
    assert_eq!(r, Err(MenuError::NoMoreInput));
    assert_eq!(stream.output(), "--> Age\n>> --> Age\n>> --> Age\n>> ");
    let name = ValueField::from("Name");
    let mut stream = lines(&[]);
    let r: MenuResult<String> = name.build_with(&mut stream);
    assert_eq!(r, Err(MenuError::NoMoreInput));
}

#[test]
fn an_empty_answer_without_default_is_asked_again() {
    let age = ValueField::from("Age");
    let mut stream = lines(&["", "7"]);
    let r: MenuResult<u8> = age.build_with(&mut stream);
    assert_eq!(r, Ok(7));
    assert_eq!(stream.output(), "--> Age\n>> --> Age\n>> ");
}

#[test]
fn a_default_of_the_wrong_type_is_a_distinct_error() {
    let age = ValueField::from("Age").default_value("old");
    let mut stream = lines(&["", "7"]);
    let r: MenuResult<u8> = age.build_with(&mut stream);
    assert_eq!(r, Err(MenuError::MisconfiguredDefault("old".to_string())));
    assert_eq!(stream.remaining(), 1);
    let mut stream = lines(&["7"]);
    let r: MenuResult<u8> = age.build_with(&mut stream);
    assert_eq!(r, Ok(7));
}

#[test]
fn the_test_decides_which_values_pass() {
    let age = ValueField::from("Age").default_value("30");
    let mut stream = lines(&["5", "200", "18"]);
    let r: MenuResult<u8> = age.build_until(&mut stream, |a: &u8| *a >= 18 && *a < 130);
    assert_eq!(r, Ok(18));
    assert_eq!(stream.remaining(), 0);
    let mut stream = lines(&["5", ""]);
    let r: MenuResult<u8> = age.build_until(&mut stream, |a: &u8| *a >= 18);
    assert_eq!(r, Ok(30));
    let mut stream = lines(&["5", "", "40"]);
    let r: MenuResult<u8> = age.build_until(&mut stream, |a: &u8| *a >= 40);
    assert_eq!(r, Ok(30));
}

#[test]
fn build_once_says_what_one_answer_comes_to() {
    let age = ValueField::from("Age");
    let mut stream = lines(&["7", " x ", ""]);
    assert!(matches!(age.build_once::<u8, _>(&mut stream, keep), Query::Accepted(7)));
    match age.build_once::<u8, _>(&mut stream, keep) {
        Query::Rejected(raw) => assert_eq!(raw, "x"),
        _ => panic!("a line that is no number is rejected"),
    }
    match age.build_once::<u8, _>(&mut stream, keep) {
        Query::Rejected(raw) => assert_eq!(raw, ""),
        _ => panic!("an empty line is rejected"),
    }
    match age.build_once::<u8, _>(&mut stream, keep) {
        Query::Failed(e) => assert_eq!(e, MenuError::NoMoreInput),
        _ => panic!("the end of the input is a failure"),
    }
    assert_eq!(stream.output(), "--> Age\n>> ".repeat(4));
}

#[test]
fn answer_and_fallback_decide_without_a_stream() {
    let year = ValueField::from("Year").default_value("2022");
    let reader = One::new(keep::<u16>);
    assert!(matches!(year.answer(Some(" 2018\n"), &reader), Query::Accepted(2018)));
    assert!(matches!(year.answer(None, &reader), Query::Rejected(_)));
    assert_eq!(year.fallback("", &reader), Some(Ok(2022)));
    assert_eq!(year.fallback("abc", &reader), None);
    let plain = ValueField::from("Year");
    assert!(matches!(plain.answer(None, &reader), Query::Failed(MenuError::NoMoreInput)));
    assert_eq!(plain.fallback("", &reader), None);
}

#[test]
fn build_or_default_never_asks_twice() {
    let age = ValueField::from("Age");
    let mut stream = lines(&["x", "7"]);
    let r: MenuResult<u8> = age.build_or_default_with(&mut stream);
    assert_eq!(r, Ok(0));
    assert_eq!(stream.remaining(), 1);
    let age = ValueField::from("Age").default_value("30");
    let mut stream = lines(&["x", "7"]);
    let r: MenuResult<u8> = age.build_or_default_with(&mut stream);
    assert_eq!(r, Ok(30));
    let mut stream = lines(&["7"]);
    let r: MenuResult<u8> = age.build_or_default_with(&mut stream);
    assert_eq!(r, Ok(7));
    let mut stream = lines(&[]);
    let r: MenuResult<String> = ValueField::from("Name").build_or_default_with(&mut stream);
    assert_eq!(r, Ok(String::new()));
    let bad = ValueField::from("Age").default_value("old");
    let mut stream = lines(&["x"]);
    let r: MenuResult<u8> = bad.build_or_default_with(&mut stream);
    assert_eq!(r, Err(MenuError::MisconfiguredDefault("old".to_string())));
}

#[test]
fn the_prompt_shows_the_hints() {
    let f = ValueField::from("Year");
    assert_eq!(f.text(), "--> Year\n>> ");
    let f = ValueField::from("Year").example("1999");
    assert_eq!(f.text(), "--> Year (example: 1999)\n>> ");
    let f = ValueField::from("Year").default_value("2022");
    assert_eq!(f.text(), "--> Year (default: 2022)\n>> ");
    let f = ValueField::from("Year").default_value("2022").example("1999");
    assert_eq!(f.text(), "--> Year (example: 1999, default: 2022)\n>> ");
}

#[test]
fn the_format_decides_the_layout_of_the_prompt() {
    let hide = ValueFieldFormatting::show_default(false);
    let f = ValueField::from("Year").default_value("2022").fmt(hide);
    assert_eq!(f.text(), "--> Year\n>> ");
    let f = ValueField::from("Year").default_value("2022").example("1999").fmt(hide);
    assert_eq!(f.text(), "--> Year (example: 1999)\n>> ");
    let one_line = ValueFieldFormatting::line_break(false)
        .merged(&ValueFieldFormatting::chip("* "))
        .merged(&ValueFieldFormatting::prefix(": "));
    let f = ValueField::from("Year").fmt(one_line);
    assert_eq!(f.text(), "* Year: ");
}

#[test]
fn a_field_inherits_what_it_left_open() {
    let parent = ValueFieldFormatting::prefix("==> ").merged(&ValueFieldFormatting::chip(" = "));
    let f = ValueField::from("Name");
    assert_eq!(f.text_in(&parent), " = Name\n==> ");
    let f = ValueField::from("Name").fmt(ValueFieldFormatting::prefix("-- "));
    assert_eq!(f.text_in(&parent), " = Name\n-- ");
    let mut f = ValueField::from("Name").default_value("x");
    f.inherit_fmt(&ValueFieldFormatting::show_default(false));
    assert_eq!(f.text(), "--> Name\n>> ");
    assert!(!f.details.show_d);
}

#[test]
fn details_hold_example_and_default() {
    let mut d = FieldDetails::new(true);
    assert_eq!(d.hint(true), "");
    d.set_example("e");
    assert_eq!(d.hint(true), " (example: e)");
    d.set_default_value("d");
    assert_eq!(d.hint(true), " (example: e, default: d)");
    assert_eq!(d.hint(false), " (example: e)");
    d.set_show_d(false);
    assert!(!d.show_d);
    assert_eq!(d.try_default::<String>(), Ok("d".to_string()));
    assert_eq!(FieldDetails::new(true).try_default::<u8>(), Ok(0));
    assert_eq!(d.try_default::<u8>(), Err(MenuError::MisconfiguredDefault("d".to_string())));
}

#[test]
fn a_default_from_the_environment_needs_the_variable() {
    let d = DefaultValue::env("EDITOR", Some("vi".to_string())).unwrap();
    assert_eq!(d.as_str(), "vi");
    assert_eq!(d.hint(), "default: vi");
    assert_eq!(d.resolve::<String>(), Ok("vi".to_string()));
    let e = DefaultValue::env("EDITOR", None).unwrap_err();
    assert_eq!(e, MenuError::MissingEnvironmentDefault("EDITOR".to_string()));
    let f = ValueField::from("Editor").default_env("EDITOR", Some("vi".to_string())).unwrap();
    assert_eq!(f.text(), "--> Editor (default: vi)\n>> ");
    let mut stream = lines(&[""]);
    assert_eq!(f.build_with::<u8>(&mut stream), Err(MenuError::MisconfiguredDefault("vi".into())));
    let e = ValueField::from("Editor").default_env("EDITOR", None).unwrap_err();
    assert_eq!(e, MenuError::MissingEnvironmentDefault("EDITOR".to_string()));
    let mut d = FieldDetails::new(true);
    assert!(d.set_default_env("HOME", None).is_err());
    assert!(d.default.is_none());
    assert!(d.set_default_env("HOME", Some("/root".to_string())).is_ok());
    assert_eq!(d.hint(true), " (default: /root)");
}

#[test]
fn parse_value_names_the_text_and_the_type() {
    assert_eq!(parse_value::<u16>("2018"), Ok(2018));
    assert_eq!(
        parse_value::<u16>("abc"),
        Err(MenuError::ParseFailure("abc".to_string(), "u16".to_string()))
    );
    assert_eq!(Query::of(parse_value::<u8>("7")).into_result(), Ok(7));
    match Query::of(parse_value::<u8>("x")) {
        Query::Rejected(raw) => assert_eq!(raw, "x"),
        _ => panic!("a text that does not read is rejected"),
    }
    assert!(matches!(
        Query::<u8>::of(Err(MenuError::NoMoreInput)),
        Query::Failed(MenuError::NoMoreInput)
    ));
    assert_eq!(
        Query::<u8>::Rejected("x".to_string()).into_result(),
        Err(MenuError::ParseFailure("x".to_string(), "u8".to_string()))
    );
}

#[test]
fn default_failed_is_misconfigured_default() {
    assert_eq!(default_failed("old"), MenuError::MisconfiguredDefault("old".to_string()));
}

#[test]
fn the_small_steps_show_and_read() {
    let mut stream = lines(&["  one ", "two"]);
    show("a", &mut stream);
    show("b", &mut stream);
    assert_eq!(stream.output(), "ab");
    assert_eq!(read_input(&mut stream), Ok("one".to_string()));
    assert_eq!(prompt("> ", &mut stream), Ok("two".to_string()));
    assert_eq!(stream.output(), "ab> ");
    assert_eq!(read_input(&mut stream), Err(MenuError::NoMoreInput));
    assert_eq!(prompt("> ", &mut stream), Err(MenuError::NoMoreInput));
    assert_eq!(stream.output(), "ab> > ");
    assert!(keep(&3));
    assert!(keep(&"x"));
}

#[test]
fn readers_accept_and_reject() {
    let one = One::new(|v: &u8| *v > 3);
    assert_eq!(one.read("7"), Some(7));
    assert_eq!(one.read("2"), None);
    assert_eq!(one.read("x"), None);
    assert_eq!(one.read_default("2"), Some(2));
    let many = Many::new(",", |v: &u8| *v > 3);
    assert_eq!(many.read("7,8"), Some(vec![7, 8]));
    assert_eq!(many.read("7,2"), None);
    assert_eq!(many.read("7,,8"), None);
    assert_eq!(many.read_default("1,2"), Some(vec![1, 2]));
    assert_eq!(many.read_default("1,x"), None);
}

#[test]
fn a_session_gives_back_what_is_left() {
    let mut stream = MenuStream::with(vec!["a".into(), "b".into(), "c".into()], "so far".into());
    assert_eq!(stream.remaining(), 3);
    assert_eq!(stream.read_line(), Some("a".to_string()));
    stream.write("!");
    let (left, shown) = stream.retrieve();
    assert_eq!(left, vec!["b".to_string(), "c".to_string()]);
    assert_eq!(shown, "so far!");
    let mut empty = MenuStream::default();
    assert_eq!(empty.read_line(), None);
    assert_eq!(empty.output(), "");
}
