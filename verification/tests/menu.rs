use ezmenulib::error::{MenuError, MenuResult};
use ezmenulib::field::{SelectField, ValueField};
use ezmenulib::format::ValueFieldFormatting;
use ezmenulib::menu::{level, run_with, walk_to, Cursor, Found, Kind, Menu, Move, Res};
use ezmenulib::select::SelectMenu;
use ezmenulib::menu::{Streamable, Values};
use ezmenulib::stream::MenuStream;
use ezmenulib::utils::{number_of, select};

type Bind = fn(&mut MenuStream) -> MenuResult<()>;

fn lines(input: &[&str]) -> MenuStream {
    MenuStream::new(input.iter().map(|l| l.to_string()).collect())
}

fn play(s: &mut MenuStream) -> MenuResult<()> {
    s.write("playing\n");
    Ok(())
}

fn sound(s: &mut MenuStream) -> MenuResult<()> {
    s.write("sound\n");
    Ok(())
}

fn broken(_: &mut MenuStream) -> MenuResult<()> {
    Err(MenuError::IOFailure("disk".to_string()))
}

const DEEP: &[(&str, Kind<Bind>)] = &[
    ("Sound", Kind::Unit(sound)),
    ("Again", Kind::Back(0)),
    ("Up", Kind::Back(1)),
    ("Top", Kind::Back(2)),
];

const SETTINGS: &[(&str, Kind<Bind>)] = &[
    ("Audio", Kind::Parent(DEEP)),
    ("Back", Kind::Back(1)),
    ("Save", Kind::Unit(broken)),
];

const MAIN: &[(&str, Kind<Bind>)] =
    &[("Play", Kind::Unit(play)), ("Settings", Kind::Parent(SETTINGS)), ("Quit", Kind::Quit)];

const TOP: &str = "1 - Play\n2 - Settings\n3 - Quit\n";
const MID: &str = "Settings\n1 - Audio\n2 - Back\n3 - Save\n";
const LOW: &str = "Audio\n1 - Sound\n2 - Again\n3 - Up\n4 - Top\n";
const ASK: &str = ">> ";

#[test]
fn select_reads_the_number_of_an_option() {
    let mut stream = lines(&[" 2 ", "0", "4", "x", "3"]);
    assert_eq!(select(&mut stream, "> ", None, 3), Ok(Some(1)));
    assert_eq!(select(&mut stream, "> ", None, 3), Ok(None));
    assert_eq!(select(&mut stream, "> ", Some(0), 3), Ok(Some(0)));
    assert_eq!(select(&mut stream, "> ", None, 3), Ok(None));
    assert_eq!(select(&mut stream, "> ", Some(0), 3), Ok(Some(2)));
    assert_eq!(select(&mut stream, "> ", Some(0), 3), Err(MenuError::NoMoreInput));
    assert_eq!(stream.output(), "> ".repeat(6));
}

#[test]
fn number_of_reads_the_number_of_an_option() {
    assert_eq!(number_of("1", 3), Some(0));
    assert_eq!(number_of("3", 3), Some(2));
    assert_eq!(number_of("+2", 3), Some(1));
    assert_eq!(number_of("0", 3), None);
    assert_eq!(number_of("4", 3), None);
    assert_eq!(number_of("", 3), None);
    assert_eq!(number_of("one", 3), None);
    assert_eq!(number_of("1", 0), None);
}

#[test]
fn a_cursor_follows_the_answers() {
    let fmt = ValueFieldFormatting::default();
    let mut cursor: Cursor<Bind> = Cursor::new(None, MAIN);
    assert_eq!(cursor.text(&fmt), TOP);
    assert_eq!(cursor.count(), 3);
    assert!(matches!(cursor.answer("x"), Move::Again));
    assert!(matches!(cursor.answer(" 2 "), Move::Open));
    assert_eq!(cursor.text(&fmt), MID);
    assert!(matches!(cursor.enter(0), Move::Open));
    assert_eq!(cursor.text(&fmt), LOW);
    assert_eq!(cursor.count(), 4);
    assert!(matches!(cursor.answer("2"), Move::Open));
    assert_eq!(cursor.text(&fmt), LOW);
    assert!(matches!(cursor.answer("3"), Move::Open));
    assert_eq!(cursor.text(&fmt), MID);
    assert!(matches!(cursor.answer("1"), Move::Open));
    assert!(matches!(cursor.answer("4"), Move::Open));
    assert_eq!(cursor.text(&fmt), TOP);
    assert!(matches!(cursor.answer("3"), Move::Done(Res::Finished)));
    match cursor.answer("1") {
        Move::Run(b) => {
            let mut stream = MenuStream::default();
            assert!(b(&mut stream).is_ok());
            assert_eq!(stream.output(), "playing\n");
        }
        _ => panic!("the first field runs an action"),
    }
    let mut low: Cursor<Bind> = Cursor::new(Some("Audio"), DEEP);
    assert!(matches!(low.answer("4"), Move::Done(Res::Back(1))));
    assert!(matches!(low.answer("3"), Move::Done(Res::Back(0))));
    assert!(matches!(low.answer("2"), Move::Open));
}

#[test]
fn a_level_is_shown_with_numbers_from_one() {
    let fmt = ValueFieldFormatting::default();
    assert_eq!(level(None, MAIN, &fmt), TOP);
    assert_eq!(level(Some("Settings"), SETTINGS, &fmt), MID);
    let fmt = ValueFieldFormatting::chip(") ");
    assert_eq!(level(Some("T"), DEEP, &fmt), "T\n1) Sound\n2) Again\n3) Up\n4) Top\n");
    let none: &[(&str, Kind<Bind>)] = &[];
    assert_eq!(level(None, none, &fmt), "");
}

#[test]
fn an_action_ends_the_menu() {
    let fmt = ValueFieldFormatting::default();
    let mut stream = lines(&["1", "3"]);
    assert_eq!(run_with(None, &mut stream, MAIN, &fmt), Ok(Res::Finished));
    assert_eq!(stream.output(), format!("{TOP}{ASK}playing\n"));
    assert_eq!(stream.remaining(), 1);
}

#[test]
fn quit_ends_the_menu() {
    let fmt = ValueFieldFormatting::default();
    let mut stream = lines(&["nine", "3"]);
    assert_eq!(run_with(None, &mut stream, MAIN, &fmt), Ok(Res::Finished));
    assert_eq!(stream.output(), format!("{TOP}{ASK}{ASK}"));
}

#[test]
fn back_shows_the_level_above_again() {
    let fmt = ValueFieldFormatting::default();
    let mut stream = lines(&["2", "2", "3"]);
    assert_eq!(run_with(None, &mut stream, MAIN, &fmt), Ok(Res::Finished));
    assert_eq!(stream.output(), format!("{TOP}{ASK}{MID}{ASK}{TOP}{ASK}"));
}

#[test]
fn back_goes_up_as_many_levels_as_told() {
    let fmt = ValueFieldFormatting::default();
    let mut stream = lines(&["2", "1", "3", "1", "4", "1"]);
    assert_eq!(run_with(None, &mut stream, MAIN, &fmt), Ok(Res::Finished));
    assert_eq!(
        stream.output(),
        format!("{TOP}{ASK}{MID}{ASK}{LOW}{ASK}{MID}{ASK}{LOW}{ASK}{TOP}{ASK}playing\n")
    );
    let mut stream = lines(&["1", "2", "1"]);
    assert_eq!(run_with(Some("Settings"), &mut stream, SETTINGS, &fmt), Ok(Res::Finished));
    assert_eq!(stream.output(), format!("{MID}{ASK}{LOW}{ASK}{LOW}{ASK}sound\n"));
    let mut stream = lines(&["3"]);
    assert_eq!(run_with(Some("Audio"), &mut stream, DEEP, &fmt), Ok(Res::Back(0)));
    let mut stream = lines(&["4"]);
    assert_eq!(run_with(Some("Audio"), &mut stream, DEEP, &fmt), Ok(Res::Back(1)));
    let mut stream = lines(&["1", "4"]);
    assert_eq!(run_with(Some("Settings"), &mut stream, SETTINGS, &fmt), Ok(Res::Back(0)));
    let mut stream = lines(&["2"]);
    assert_eq!(run_with(Some("Settings"), &mut stream, SETTINGS, &fmt), Ok(Res::Back(0)));
}

#[test]
fn back_by_nothing_shows_the_same_level_again() {
    let fmt = ValueFieldFormatting::default();
    let mut stream = lines(&["2", "2", "2", "1"]);
    assert_eq!(run_with(Some("Audio"), &mut stream, DEEP, &fmt), Ok(Res::Finished));
    assert_eq!(stream.output(), format!("{LOW}{ASK}{LOW}{ASK}{LOW}{ASK}{LOW}{ASK}sound\n"));
}

#[test]
fn the_end_of_input_ends_a_menu_with_an_error() {
    let fmt = ValueFieldFormatting::default();
    let mut stream = lines(&[]);
    assert_eq!(run_with(None, &mut stream, MAIN, &fmt), Err(MenuError::NoMoreInput));
    assert_eq!(stream.output(), format!("{TOP}{ASK}"));
    let mut stream = lines(&["2", "1", "x"]);
    assert_eq!(run_with(None, &mut stream, MAIN, &fmt), Err(MenuError::NoMoreInput));
    assert_eq!(stream.remaining(), 0);
    assert_eq!(stream.output(), format!("{TOP}{ASK}{MID}{ASK}{LOW}{ASK}{ASK}"));
}

#[test]
fn the_error_of_an_action_is_the_error_of_the_menu() {
    let fmt = ValueFieldFormatting::default();
    let mut stream = lines(&["2", "3"]);
    assert_eq!(
        run_with(None, &mut stream, MAIN, &fmt),
        Err(MenuError::IOFailure("disk".to_string()))
    );
}

#[test]
fn walk_to_finds_the_action_without_running_it() {
    let fmt = ValueFieldFormatting::default();
    let mut stream = lines(&["2", "1", "1"]);
    match walk_to(None, &mut stream, MAIN, &fmt) {
        Ok(Found::Unit(b)) => {
            assert_eq!(stream.output(), format!("{TOP}{ASK}{MID}{ASK}{LOW}{ASK}"));
            assert!(b(&mut stream).is_ok());
            assert!(stream.output().ends_with("sound\n"));
        }
        _ => panic!("the way ends at an action"),
    }
    let mut stream = lines(&["3"]);
    assert!(matches!(walk_to(None, &mut stream, MAIN, &fmt), Ok(Found::Done(Res::Finished))));
}

#[test]
fn a_menu_runs_over_its_own_stream() {
    let mut menu: Menu<Bind> = Menu::new_owned(lines(&["2", "2", "1", "left"]), MAIN)
        .title("Game")
        .format(ValueFieldFormatting::suffix("? ").merged(&ValueFieldFormatting::chip(" ")));
    assert_eq!(menu.text(), "Game\n1 Play\n2 Settings\n3 Quit\n");
    assert_eq!(menu.run(), Ok(()));
    assert_eq!(menu.get_stream().remaining(), 1);
    menu.get_mut_stream().write("bye");
    let (left, shown) = menu.take_io();
    assert_eq!(left, vec!["left".to_string()]);
    let top = "Game\n1 Play\n2 Settings\n3 Quit\n? ";
    let mid = "Settings\n1 Audio\n2 Back\n3 Save\n? ";
    assert_eq!(shown, format!("{top}{mid}{top}playing\nbye"));
}

#[test]
fn a_menu_runs_over_a_stream_on_loan() {
    let mut stream = lines(&["3", "1"]);
    {
        let mut menu: Menu<Bind> = Menu::new_borrowed(&mut stream, MAIN);
        assert_eq!(menu.run(), Ok(()));
    }
    assert_eq!(stream.output(), format!("{TOP}{ASK}"));
    assert_eq!(stream.remaining(), 1);
}

#[test]
fn values_ask_their_fields_in_their_format() {
    let mut values = Values::from(lines(&["Ada Bob", "", "abc", "", "MIT", "x"]))
        .format(ValueFieldFormatting::prefix("==> ").merged(&ValueFieldFormatting::chip(" = ")));
    let authors: Vec<String> = values.many_written(&ValueField::from("Authors"), " ").unwrap();
    assert_eq!(authors, vec!["Ada".to_string(), "Bob".to_string()]);
    let name: Option<String> = values.optional_written(&ValueField::from("Project name")).unwrap();
    assert_eq!(name, Some(String::new()));
    let date: u16 =
        values.written(&ValueField::from("License date").default_value("2022")).unwrap();
    assert_eq!(date, 2022);
    let kind: SelectMenu<&str, Bind> = SelectMenu::new(
        "Select a license type",
        vec![SelectField::new("MIT", "mit"), SelectField::new("GPL", "gpl")],
    )
    .default(1);
    assert_eq!(values.selected(kind), Ok("mit"));
    let stream = values.take_stream();
    assert_eq!(stream.remaining(), 1);
    let date = " = License date (default: 2022)\n==> ";
    let list = "Select a license type\n1 = MIT\n2 = GPL (default)\n>> ";
    assert_eq!(
        stream.output(),
        format!(" = Authors\n==>  = Project name\n==> {date}{date}{list}")
    );
}

#[test]
fn values_keep_the_format_that_a_field_set() {
    let mut values = Values::from(lines(&["7", "two"])).format(ValueFieldFormatting::prefix("P "));
    let own = ValueField::from("N").fmt(ValueFieldFormatting::prefix("-- "));
    assert_eq!(values.written::<u8>(&own), Ok(7));
    let sel: SelectMenu<u8, Bind> =
        SelectMenu::new("S", vec![SelectField::new("one", 1), SelectField::new("two", 2)])
            .format(ValueFieldFormatting::suffix("> "));
    assert_eq!(values.selected(sel), Ok(2));
    assert_eq!(values.get_stream().output(), "--> N\n-- S\n1 - one\n2 - two\n> ");
}

#[test]
fn values_ask_once_where_a_value_is_not_owed() {
    let mut values = Values::from(lines(&["x", "7", "x", "", "9", "nine", "nine", "nine"]));
    let age = ValueField::from("Age");
    assert_eq!(values.optional_written::<u8>(&age), Ok(None));
    assert_eq!(values.optional_written::<u8>(&age), Ok(Some(7)));
    assert_eq!(values.written_or_default::<u8>(&age), Ok(0));
    let with = ValueField::from("Age").default_value("30");
    assert_eq!(values.optional_written::<u8>(&with), Ok(Some(30)));
    assert_eq!(values.optional_written_until(&with, |a: &u8| *a > 10), Ok(None));
    let pick = || -> SelectMenu<u8, Bind> {
        SelectMenu::new("S", vec![SelectField::new("one", 1), SelectField::new("two", 2)])
    };
    assert_eq!(values.optional_selected(pick()), Ok(None));
    assert_eq!(values.selected_or_default(pick()), Ok(0));
    assert_eq!(values.selected(pick()), Err(MenuError::InvalidSelection("nine".to_string())));
    assert_eq!(values.optional_written::<u8>(&age), Ok(None));
    assert_eq!(values.selected(pick()), Err(MenuError::NoMoreInput));
}

#[test]
fn values_ask_again_until_the_test_passes() {
    let mut values = Values::from(lines(&["1", "20", "1,2,x", "1,2", "", "5;6"]));
    let age = ValueField::from("Age");
    assert_eq!(values.written_until(&age, |a: &u8| *a > 10), Ok(20));
    let many = ValueField::from("Many").default_value("8;9");
    assert_eq!(values.many_written::<u8>(&many, ","), Ok(vec![1, 2]));
    assert_eq!(
        values.many_written::<u8>(&many, ","),
        Err(MenuError::MisconfiguredDefault("8;9".to_string()))
    );
    assert_eq!(values.many_written_until(&many, ";", |v: &u8| *v > 5), Ok(vec![8, 9]));
    assert_eq!(values.get_stream().remaining(), 0);
}

#[test]
fn values_work_over_a_stream_on_loan() {
    let mut stream = lines(&["2018", "left"]);
    {
        let mut values = Values::new_borrowed(&mut stream);
        let year = ValueField::from("Year").default_value("2022");
        assert_eq!(values.written::<u16>(&year), Ok(2018));
    }
    assert_eq!(stream.output(), "--> Year (default: 2022)\n>> ");
    assert_eq!(stream.remaining(), 1);
    let mut values = Values::default();
    assert_eq!(values.written::<u8>(&ValueField::from("Age")), Err(MenuError::NoMoreInput));
    let (left, shown) = values.take_io();
    assert!(left.is_empty());
    assert_eq!(shown, "--> Age\n>> ");
}
