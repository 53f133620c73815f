use ezmenulib::error::{MenuError, MenuResult};
use ezmenulib::field::{Field, SelectField, ValueField};
use ezmenulib::format::ValueFieldFormatting;
use ezmenulib::select::SelectMenu;
use ezmenulib::stream::MenuStream;

type Bind = fn(&mut MenuStream) -> MenuResult<()>;

fn lines(input: &[&str]) -> MenuStream {
    MenuStream::new(input.iter().map(|l| l.to_string()).collect())
}

fn amount() -> SelectMenu<'static, i32, Bind> {
    SelectMenu::new(
        "Amount",
        vec![SelectField::new("one", 1), SelectField::new("two", 2), SelectField::new("three", 3)],
    )
}

const LIST: &str = "Amount\n1 - one\n2 - two\n3 - three\n>> ";

fn said(s: &mut MenuStream) -> MenuResult<()> {
    s.write("chosen\n");
    Ok(())
}

fn failing(_: &mut MenuStream) -> MenuResult<()> {
    Err(MenuError::Other("no".to_string()))
}

#[test]
fn selecting_by_label_gives_the_value() {
    let mut stream = lines(&["two"]);
    assert_eq!(amount().select(&mut stream), Ok(2));
    assert_eq!(stream.output(), LIST);
    assert_eq!(stream.remaining(), 0);
}

#[test]
fn selecting_by_number_gives_the_value() {
    let mut stream = lines(&["2", "3"]);
    assert_eq!(amount().select(&mut stream), Ok(2));
    assert_eq!(stream.output(), LIST);
    assert_eq!(stream.remaining(), 1);
}

#[test]
fn an_unknown_answer_without_default_is_an_invalid_selection() {
    let mut stream = lines(&["nine", "1"]);
    assert_eq!(
        amount().select(&mut stream),
        Err(MenuError::InvalidSelection("nine".to_string()))
    );
    assert_eq!(stream.output(), LIST);
    assert_eq!(stream.remaining(), 1);
}

#[test]
fn the_invalid_selection_carries_the_answer_without_white_space() {
    let mut stream = lines(&["  nine and ten \n"]);
    assert_eq!(
        amount().select(&mut stream),
        Err(MenuError::InvalidSelection("nine and ten".to_string()))
    );
    for bad in ["0", "4", "-1", "1.5", "", "on"] {
        let mut stream = lines(&[bad]);
        assert_eq!(
            amount().select(&mut stream),
            Err(MenuError::InvalidSelection(bad.to_string()))
        );
    }
}

#[test]
fn label_and_position_give_the_same_value() {
    let labels = ["one", "two", "three"];
    for (i, label) in labels.iter().enumerate() {
        let position = (i + 1).to_string();
        let upper = label.to_uppercase();
        let mixed = format!(" {}{} ", &upper[..1], &label[1..]);
        let mut by_label = lines(&[label]);
        let mut by_upper = lines(&[upper.as_str()]);
        let mut by_mixed = lines(&[mixed.as_str()]);
        let mut by_position = lines(&[position.as_str()]);
        let want = Ok(i as i32 + 1);
        assert_eq!(amount().select(&mut by_label), want);
        assert_eq!(amount().select(&mut by_upper), want);
        assert_eq!(amount().select(&mut by_mixed), want);
        assert_eq!(amount().select(&mut by_position), want);
    }
}

#[test]
fn labels_are_compared_without_regard_to_case_in_any_script() {
    let menu: SelectMenu<u8, Bind> = SelectMenu::new(
        "Dessert",
        vec![SelectField::new("Éclair", 1), SelectField::new("ΣΟΡΜΠΕ", 2)],
    );
    assert_eq!(menu.pick(Some("éclair")), Ok(0));
    assert_eq!(menu.pick(Some("ÉCLAIR")), Ok(0));
    assert_eq!(menu.pick(Some("σορμπε")), Ok(1));
    assert_eq!(menu.pick(Some("eclair")), Err(MenuError::InvalidSelection("eclair".into())));
}

#[test]
fn the_first_of_equal_labels_is_chosen() {
    let menu: SelectMenu<u8, Bind> = SelectMenu::new(
        "Twice",
        vec![SelectField::new("a", 1), SelectField::new("A", 2), SelectField::new("1", 3)],
    );
    assert_eq!(menu.pick(Some("A")), Ok(0));
    assert_eq!(menu.pick(Some("2")), Ok(1));
    assert_eq!(menu.pick(Some("1")), Ok(2));
    assert_eq!(menu.pick(Some("3")), Ok(2));
}

#[test]
fn an_unknown_answer_falls_back_to_the_default() {
    let mut stream = lines(&["nine", "1"]);
    assert_eq!(amount().default(2).select(&mut stream), Ok(3));
    assert_eq!(stream.output(), "Amount\n1 - one\n2 - two\n3 - three (default)\n>> ");
    assert_eq!(stream.remaining(), 1);
    let mut stream = lines(&[""]);
    assert_eq!(amount().default(0).select(&mut stream), Ok(1));
    let mut stream = lines(&["two"]);
    assert_eq!(amount().default(0).select(&mut stream), Ok(2));
    let mut stream = lines(&["3"]);
    assert_eq!(amount().default(0).select(&mut stream), Ok(3));
}

#[test]
fn the_end_of_input_is_an_answer_only_with_a_default() {
    let mut stream = lines(&[]);
    assert_eq!(amount().select(&mut stream), Err(MenuError::NoMoreInput));
    assert_eq!(stream.output(), LIST);
    let mut stream = lines(&[]);
    assert_eq!(amount().default(1).select(&mut stream), Ok(2));
}

#[test]
fn a_default_beyond_the_options_is_found_out_when_needed() {
    let mut stream = lines(&["two"]);
    assert_eq!(amount().default(3).select(&mut stream), Ok(2));
    assert_eq!(stream.output(), LIST);
    let mut stream = lines(&["nine"]);
    assert_eq!(
        amount().default(3).select(&mut stream),
        Err(MenuError::MisconfiguredDefault("3".to_string()))
    );
    let mut stream = lines(&[]);
    assert_eq!(
        amount().default(17).select(&mut stream),
        Err(MenuError::MisconfiguredDefault("17".to_string()))
    );
}

#[test]
fn ask_gives_the_place_of_the_option() {
    let menu = amount().default(0);
    let mut stream = lines(&["THREE", "2", "x"]);
    assert_eq!(menu.ask(&mut stream), Ok(2));
    assert_eq!(menu.ask(&mut stream), Ok(1));
    assert_eq!(menu.ask(&mut stream), Ok(0));
    assert_eq!(menu.ask(&mut stream), Ok(0));
    assert_eq!(stream.output(), menu.text().repeat(4));
}

#[test]
fn optional_select_gives_none_for_no_choice() {
    let mut stream = lines(&["nine"]);
    assert_eq!(amount().optional_select(&mut stream), Ok(None));
    let mut stream = lines(&[]);
    assert_eq!(amount().optional_select(&mut stream), Ok(None));
    let mut stream = lines(&["One"]);
    assert_eq!(amount().optional_select(&mut stream), Ok(Some(1)));
    let mut stream = lines(&["nine"]);
    assert_eq!(amount().default(1).optional_select(&mut stream), Ok(Some(2)));
    let mut stream = lines(&["nine"]);
    assert_eq!(
        amount().default(9).optional_select(&mut stream),
        Err(MenuError::MisconfiguredDefault("9".to_string()))
    );
}

#[test]
fn select_or_default_gives_the_default_of_the_type() {
    let mut stream = lines(&["nine"]);
    assert_eq!(amount().select_or_default(&mut stream), Ok(0));
    let mut stream = lines(&[]);
    assert_eq!(amount().select_or_default(&mut stream), Ok(0));
    let mut stream = lines(&["3"]);
    assert_eq!(amount().select_or_default(&mut stream), Ok(3));
    let mut stream = lines(&["x"]);
    assert_eq!(
        amount().default(5).select_or_default(&mut stream),
        Err(MenuError::MisconfiguredDefault("5".to_string()))
    );
}

#[test]
fn the_binding_of_the_chosen_option_runs_once() {
    let menu: SelectMenu<i32, Bind> = SelectMenu::new(
        "Amount",
        vec![SelectField::new("one", 1).bind(said as Bind), SelectField::new("two", 2)],
    );
    let mut stream = lines(&["one"]);
    assert_eq!(menu.select(&mut stream), Ok(1));
    assert_eq!(stream.output(), "Amount\n1 - one\n2 - two\n>> chosen\n");
    let menu: SelectMenu<i32, Bind> = SelectMenu::new(
        "Amount",
        vec![SelectField::new("one", 1).bind(said as Bind), SelectField::new("two", 2)],
    );
    let mut stream = lines(&["2"]);
    assert_eq!(menu.select(&mut stream), Ok(2));
    assert_eq!(stream.output(), "Amount\n1 - one\n2 - two\n>> ");
}

#[test]
fn a_failing_binding_fails_the_selection() {
    let menu: SelectMenu<i32, Bind> = SelectMenu::new(
        "Amount",
        vec![SelectField::new("one", 1), SelectField::new("two", 2).bind(failing as Bind)],
    )
    .default(1);
    let mut stream = lines(&["nine"]);
    assert_eq!(menu.select(&mut stream), Err(MenuError::Other("no".to_string())));
    let menu: SelectMenu<i32, Bind> =
        SelectMenu::new("Amount", vec![SelectField::new("two", 2).bind(failing as Bind)]);
    let mut stream = lines(&["1"]);
    assert_eq!(menu.select_or_default(&mut stream), Ok(0));
}

#[test]
fn options_keep_their_own_chip() {
    let field: SelectField<u8, Bind> = SelectField::new("one", 1);
    assert_eq!(field.text(), " - one");
    let mut field = field.chip(") ");
    assert_eq!(field.text(), ") one");
    field.set_chip(": ");
    assert_eq!(field.text(), ") one");
    let mut plain: SelectField<u8, Bind> = SelectField::new("two", 2);
    plain.set_chip(": ");
    assert_eq!(plain.text(), ": two");
    assert!(plain.call_bind(&mut MenuStream::default()).is_ok());
    assert_eq!(plain.select(), 2);
    let menu: SelectMenu<u8, Bind> = SelectMenu::new(
        "Pick",
        vec![SelectField::new("one", 1).chip(") "), SelectField::new("two", 2)],
    )
    .format(ValueFieldFormatting::chip(". ").merged(&ValueFieldFormatting::suffix("> ")));
    assert_eq!(menu.text(), "Pick\n1) one\n2. two\n> ");
}

#[test]
fn a_field_is_asked_by_its_kind() {
    let f: Field<u16, Bind> = Field::Value(ValueField::from("Year").default_value("2022"));
    let mut stream = lines(&["x", ""]);
    assert_eq!(f.build(&mut stream), Ok(2022));
    let f: Field<u16, Bind> = Field::Select(SelectMenu::new(
        "Year",
        vec![SelectField::new("last", 2021), SelectField::new("this", 2022)],
    ));
    let mut stream = lines(&["this"]);
    assert_eq!(f.build(&mut stream), Ok(2022));
    let f: Field<u16, Bind> = Field::Value(ValueField::from("Year"));
    let mut stream = lines(&["1", "2000"]);
    assert_eq!(f.build_until(&mut stream, |y: &u16| *y > 1900), Ok(2000));
    let f: Field<u16, Bind> = Field::Value(ValueField::from("Year"));
    let mut stream = lines(&["x"]);
    assert_eq!(f.build_or_default(&mut stream), Ok(0));
    let f: Field<u16, Bind> =
        Field::Select(SelectMenu::new("Year", vec![SelectField::new("last", 2021)]));
    let mut stream = lines(&["x"]);
    assert_eq!(f.build_or_default(&mut stream), Ok(0));
    let parent = ValueFieldFormatting::chip("# ");
    let f: Field<u16, Bind> = Field::Value(ValueField::from("Year")).inherit_fmt(&parent);
    match f {
        Field::Value(vf) => assert_eq!(vf.text(), "# Year\n>> "),
        Field::Select(_) => panic!("a written field stays one"),
    }
    let f: Field<u16, Bind> =
        Field::Select(SelectMenu::new("Year", vec![SelectField::new("last", 2021)]))
            .inherit_fmt(&parent);
    match f {
        Field::Select(sm) => assert_eq!(sm.text(), "Year\n1# last\n>> "),
        Field::Value(_) => panic!("a selection stays one"),
    }
}
