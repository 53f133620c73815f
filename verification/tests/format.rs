use ezmenulib::format::ValueFieldFormatting;

fn same(a: &ValueFieldFormatting, b: &ValueFieldFormatting) -> bool {
    a.chip == b.chip
        && a.prefix == b.prefix
        && a.suffix == b.suffix
        && a.line_break == b.line_break
        && a.show_default == b.show_default
        && a.custom_chip == b.custom_chip
        && a.custom_prefix == b.custom_prefix
        && a.custom_suffix == b.custom_suffix
        && a.custom_line_break == b.custom_line_break
        && a.custom_show_default == b.custom_show_default
}

fn full() -> ValueFieldFormatting<'static> {
    ValueFieldFormatting::chip("* ")
        .merged(&ValueFieldFormatting::prefix("? "))
        .merged(&ValueFieldFormatting::suffix("# "))
        .merged(&ValueFieldFormatting::line_break(false))
        .merged(&ValueFieldFormatting::show_default(false))
}

#[test]
fn plain_format_has_the_documented_values() {
    let f = ValueFieldFormatting::default();
    assert_eq!(f.chip, "--> ");
    assert_eq!(f.prefix, ">> ");
    assert_eq!(f.suffix, ">> ");
    assert!(f.line_break);
    assert!(f.show_default);
    assert!(!f.custom_chip && !f.custom_prefix && !f.custom_suffix);
    assert!(!f.custom_line_break && !f.custom_show_default);
}

#[test]
fn constructors_set_one_rule_and_mark_it() {
    let f = ValueFieldFormatting::chip("* ");
    assert_eq!(f.chip, "* ");
    assert!(f.custom_chip);
    assert!(!f.custom_prefix);
    assert_eq!(f.prefix, ">> ");
    let f = ValueFieldFormatting::prefix("? ");
    assert_eq!(f.prefix, "? ");
    assert!(f.custom_prefix && !f.custom_chip);
    let f = ValueFieldFormatting::suffix("# ");
    assert_eq!(f.suffix, "# ");
    assert!(f.custom_suffix);
    let f = ValueFieldFormatting::line_break(false);
    assert!(!f.line_break && f.custom_line_break);
    let f = ValueFieldFormatting::show_default(false);
    assert!(!f.show_default && f.custom_show_default);
}

#[test]
fn merge_takes_the_child_where_it_set_a_rule() {
    let child = ValueFieldFormatting::prefix("-- ");
    let parent = ValueFieldFormatting::prefix("->> ").merged(&ValueFieldFormatting::chip(" = "));
    let m = child.merged(&parent);
    assert_eq!(m.prefix, "-- ");
    assert_eq!(m.chip, " = ");
    assert_eq!(m.suffix, ">> ");
    assert!(m.custom_prefix && m.custom_chip && !m.custom_suffix);
}

#[test]
fn merge_keeps_a_rule_set_to_the_plain_value() {
    let child = ValueFieldFormatting::line_break(true);
    let parent = ValueFieldFormatting::line_break(false);
    assert!(child.merged(&parent).line_break);
    assert!(!ValueFieldFormatting::default().merged(&parent).line_break);
}

#[test]
fn merge_is_idempotent() {
    for f in [
        ValueFieldFormatting::default(),
        ValueFieldFormatting::chip("x"),
        ValueFieldFormatting::show_default(false),
        full(),
    ] {
        assert!(same(&f.merged(&f), &f));
    }
}

#[test]
fn fully_custom_child_ignores_the_parent() {
    let child = full();
    for parent in [
        ValueFieldFormatting::default(),
        ValueFieldFormatting::chip("other"),
        ValueFieldFormatting::line_break(true).merged(&ValueFieldFormatting::suffix("s")),
    ] {
        assert!(same(&child.merged(&parent), &child));
    }
}

#[test]
fn merge_is_associative() {
    let a = ValueFieldFormatting::chip("a");
    let b = ValueFieldFormatting::chip("b").merged(&ValueFieldFormatting::prefix("pb"));
    let c = ValueFieldFormatting::prefix("pc").merged(&ValueFieldFormatting::suffix("sc"));
    let left = a.merged(&b).merged(&c);
    let right = a.merged(&b.merged(&c));
    assert!(same(&left, &right));
    assert_eq!(left.chip, "a");
    assert_eq!(left.prefix, "pb");
    assert_eq!(left.suffix, "sc");
}

#[test]
fn options_have_a_chip_of_their_own_unless_one_is_set() {
    assert_eq!(ValueFieldFormatting::default().chip_of_option(), " - ");
    assert_eq!(ValueFieldFormatting::prefix("x").chip_of_option(), " - ");
    assert_eq!(ValueFieldFormatting::chip(") ").chip_of_option(), ") ");
}
