//! A selection among options that stand for values.
//!
//! A selection is shown as its title on a line of its own, then one line
//! `<number><chip><label>[ (default)]` for each option, numbered from 1,
//! then the suffix, behind which the answer is given. The answer names an
//! option by its label, whatever the case of its letters, or by its number;
//! an answer that does neither falls back to the default, or fails. Nothing
//! is asked twice.

use crate::error::{MenuError, MenuResult};
use crate::field::{after_line, answer_text, next_line, text_of, SelectField};
use crate::format::ValueFieldFormatting;
use crate::parse::{decimal, decimal_text, lemma_decimal_round_trip};
use crate::stream::MenuStream;
use crate::text::{find_first, is_first_equal, lowercase, lowercase_of, same_but_case, trim};
use crate::utils::{default_failed, number_of, numbers, show};
use vstd::prelude::*;

verus! {

/// The lowercase forms of `labels`.
pub open spec fn folded(labels: Seq<Seq<char>>) -> Seq<Seq<char>> {
    Seq::new(labels.len(), |i: int| lowercase_of(labels[i]))
}

/// Whether `i` is the first of `labels` that `text` names: that is the
/// same as `text` but for the case of its letters.
pub open spec fn names(labels: Seq<Seq<char>>, text: Seq<char>, i: int) -> bool {
    is_first_equal(folded(labels), lowercase_of(text), i)
}

/// Whether `text` names none of `labels`.
pub open spec fn names_none(labels: Seq<Seq<char>>, text: Seq<char>) -> bool {
    forall|j: int| 0 <= j < labels.len() ==> !same_but_case(#[trigger] labels[j], text)
}

/// What choosing gives where the binding of the option chosen gave `done`:
/// the value `v` of the option where the binding succeeded, and the error
/// of the binding where it failed.
pub open spec fn value_after<T>(done: MenuResult<()>, v: T) -> MenuResult<T> {
    match done {
        Ok(_) => Ok(v),
        Err(e) => Err(e),
    }
}

/// As `value_after`, where a value is not owed.
pub open spec fn option_after<T>(done: MenuResult<()>, v: T) -> MenuResult<Option<T>> {
    match done {
        Ok(_) => Ok(Some(v)),
        Err(e) => Err(e),
    }
}

/// Whether `r` is what choosing gives where the binding of the option
/// chosen gave `done` and the default of the type stands in for a failure:
/// the value `v` of the option where the binding succeeded, its error where
/// that is `MisconfiguredDefault`, and a default of the type for any other
/// error.
pub open spec fn default_after<T: Default>(done: MenuResult<()>, v: T, r: MenuResult<T>) -> bool {
    match done {
        Ok(_) => r == Ok::<T, MenuError>(v),
        Err(e) => if e is MisconfiguredDefault {
            r == Err::<T, MenuError>(e)
        } else {
            r matches Ok(d) && call_ensures(T::default, (), d)
        },
    }
}

/// What choosing gives where the binding of the option chosen gave `done`:
/// the value `v` of the option, or the error of the binding.
pub fn finish<T>(done: MenuResult<()>, v: T) -> (r: MenuResult<T>)
    ensures
        r == value_after(done, v),
{
    match done {
        Ok(_) => Ok(v),
        Err(e) => Err(e),
    }
}

/// As `finish`, where a value is not owed.
pub fn finish_optional<T>(done: MenuResult<()>, v: T) -> (r: MenuResult<Option<T>>)
    ensures
        r == option_after(done, v),
{
    match done {
        Ok(_) => Ok(Some(v)),
        Err(e) => Err(e),
    }
}

/// As `finish`, where the default of the type stands in for the failure of
/// a binding, unless that is `MisconfiguredDefault`.
pub fn finish_or_default<T: Default>(done: MenuResult<()>, v: T) -> (r: MenuResult<T>)
    ensures
        default_after(done, v, r),
{
    match done {
        Ok(_) => Ok(v),
        Err(e) => {
            match e {
                MenuError::MisconfiguredDefault(d) => Err(MenuError::MisconfiguredDefault(d)),
                _ => Ok(T::default()),
            }
        },
    }
}

/// A selection among options that stand for values of the type `T`.
pub struct SelectMenu<'a, T, B> {
    /// The title above the options.
    pub title: &'a str,
    /// The layout of the selection.
    pub fmt: ValueFieldFormatting<'a>,
    /// The options, in the order in which they are numbered.
    pub fields: Vec<SelectField<'a, T, B>>,
    /// The place of the option that stands in for an answer that names
    /// none, counted from 0.
    pub default: Option<usize>,
}

impl<'a, T, B: Fn(&mut MenuStream) -> MenuResult<()>> SelectMenu<'a, T, B> {
    /// The selection among `fields` under `title`, in the plain format and
    /// without default.
    pub fn new(title: &'a str, fields: Vec<SelectField<'a, T, B>>) -> (r: Self)
        ensures
            r.title == title,
            r.fmt == ValueFieldFormatting::plain(),
            r.fields == fields,
            r.default is None,
    {
        SelectMenu { title, fmt: ValueFieldFormatting::default(), fields, default: None }
    }

    /// Sets the format of the selection.
    pub fn format(self, fmt: ValueFieldFormatting<'a>) -> (r: Self)
        ensures
            r.title == self.title,
            r.fmt == fmt,
            r.fields == self.fields,
            r.default == self.default,
    {
        let mut menu = self;
        menu.fmt = fmt;
        menu
    }

    /// Fills what the format of the selection leaves open from `parent`.
    pub fn inherit_fmt(&mut self, parent: &ValueFieldFormatting<'a>)
        ensures
            final(self).title == old(self).title,
            final(self).fmt == old(self).fmt.merged_with(*parent),
            final(self).fields == old(self).fields,
            final(self).default == old(self).default,
    {
        self.fmt = self.fmt.merged(parent);
    }

    /// Sets the option that stands in for an answer that names none, by its
    /// place counted from 0. A place beyond the options is found out when
    /// the default is first needed.
    pub fn default(self, default: usize) -> (r: Self)
        ensures
            r.title == self.title,
            r.fmt == self.fmt,
            r.fields == self.fields,
            r.default == Some(default),
    {
        let mut menu = self;
        menu.default = Some(default);
        menu
    }

    /// The labels of the options.
    pub open spec fn labels(self) -> Seq<Seq<char>> {
        Seq::new(self.fields@.len(), |i: int| self.fields@[i].msg@)
    }

    /// Whether the option at `i` is the default.
    pub open spec fn is_default(self, i: int) -> bool {
        match self.default {
            Some(d) => d == i,
            None => false,
        }
    }

    /// The chip of the option at `i`: its own where it set one, else that
    /// of the selection where the selection set one.
    pub open spec fn chip_at(self, i: int) -> Seq<char> {
        if !self.fields@[i].custom_chip && self.fmt.custom_chip {
            self.fmt.chip@
        } else {
            self.fields@[i].chip@
        }
    }

    /// The line of the option at `i`.
    pub open spec fn row(self, i: int) -> Seq<char> {
        decimal((i + 1) as nat) + self.chip_at(i) + self.fields@[i].msg@ + (if self.is_default(i) {
            " (default)"@
        } else {
            Seq::empty()
        }) + "\n"@
    }

    /// The lines of the first `k` options.
    pub open spec fn rows(self, k: int) -> Seq<char>
        decreases k,
    {
        if k <= 0 {
            Seq::empty()
        } else {
            self.rows(k - 1) + self.row(k - 1)
        }
    }

    /// The selection as it is shown: the title, the options, the suffix.
    pub open spec fn shown(self) -> Seq<char> {
        self.title@ + "\n"@ + self.rows(self.fields@.len() as int) + self.fmt.suffix@
    }

    /// The selection as it is shown.
    pub fn text(&self) -> (r: String)
        ensures
            r@ == self.shown(),
    {
        let mut out = String::from_str(self.title);
        out.append("\n");
        let n = self.fields.len();
        let mut i: usize = 0;
        while i < n
            invariant
                i <= n,
                n == self.fields@.len(),
                out@ == self.title@ + "\n"@ + self.rows(i as int),
            decreases n - i,
        {
            let ghost before = out@;
            let field = &self.fields[i];
            out.append(decimal_text(i + 1).as_str());
            if !field.custom_chip && self.fmt.custom_chip {
                out.append(self.fmt.chip);
            } else {
                out.append(field.chip);
            }
            out.append(field.msg);
            match self.default {
                Some(d) => {
                    if d == i {
                        out.append(" (default)");
                    }
                },
                None => {},
            }
            out.append("\n");
            assert(out@ =~= before + self.row(i as int));
            assert(before + self.row(i as int) =~= self.title@ + "\n"@ + (self.rows(i as int)
                + self.row(i as int)));
            i += 1;
        }
        out.append(self.fmt.suffix);
        out
    }

    /// Whether the answer `text` settles on the option at `i`: the first
    /// option that the answer names, or else the option that it gives the
    /// number of, or else the default.
    pub open spec fn settles(self, text: Seq<char>, i: int) -> bool {
        let labels = self.labels();
        ||| names(labels, text, i)
        ||| (names_none(labels, text) && numbers(labels.len(), text) == Some(i))
        ||| (names_none(labels, text) && numbers(labels.len(), text) is None && self.is_default(i)
            && 0 <= i < labels.len())
    }

    /// Whether the answer `text` settles on no option.
    pub open spec fn unsettled(self, text: Seq<char>) -> bool {
        let labels = self.labels();
        &&& names_none(labels, text)
        &&& numbers(labels.len(), text) is None
        &&& self.default matches Some(d) ==> d >= labels.len()
    }

    /// Whether the answer `line` picks the option at `i`, `line` being
    /// `None` at the end of the input. The end of the input counts as an
    /// empty answer where the selection has a default.
    pub open spec fn picks(self, line: Option<Seq<char>>, i: int) -> bool {
        (line is Some || self.default is Some) && self.settles(answer_text(line), i)
    }

    /// Whether the answer `line` fails with `e`: with `NoMoreInput` where
    /// the input has ended and there is no default; else, where the answer
    /// settles on no option, with `InvalidSelection` and the answer, or,
    /// where the default lies beyond the options, with
    /// `MisconfiguredDefault` and the place of the default.
    pub open spec fn fails(self, line: Option<Seq<char>>, e: MenuError) -> bool {
        let text = answer_text(line);
        if line is None && self.default is None {
            e is NoMoreInput
        } else {
            self.unsettled(text) && match self.default {
                None => e.is_invalid_selection(text),
                Some(d) => e.is_misconfigured_default(decimal(d as nat)),
            }
        }
    }

    /// The labels of the options in lowercase.
    fn folded_labels(&self) -> (r: Vec<String>)
        ensures
            r.deep_view() == folded(self.labels()),
    {
        let mut out: Vec<String> = Vec::new();
        let n = self.fields.len();
        let mut i: usize = 0;
        while i < n
            invariant
                i <= n,
                n == self.fields@.len(),
                out@.len() == i,
                forall|j: int|
                    0 <= j < i ==> (#[trigger] out@[j])@ == lowercase_of(self.labels()[j]),
            decreases n - i,
        {
            out.push(lowercase(self.fields[i].msg));
            i += 1;
        }
        assert(out.deep_view() =~= folded(self.labels()));
        out
    }

    /// The option that the answer `line` picks, `line` being `None` at the
    /// end of the input.
    pub fn pick(&self, line: Option<&str>) -> (r: MenuResult<usize>)
        ensures
            match r {
                Ok(i) => self.picks(text_of(line), i as int),
                Err(e) => self.fails(text_of(line), e),
            },
    {
        let text: &str = match line {
            Some(l) => trim(l),
            None => {
                if self.default.is_none() {
                    return Err(MenuError::NoMoreInput);
                }
                proof {
                    reveal_strlit("");
                }
                ""
            },
        };
        assert(text@ =~= answer_text(text_of(line)));
        let n = self.fields.len();
        let ghost labels = self.labels();
        let wanted = lowercase(text);
        let lower = self.folded_labels();
        match find_first(&lower, wanted.as_str()) {
            Some(i) => {
                return Ok(i);
            },
            None => {
                assert forall|j: int| 0 <= j < labels.len() implies !same_but_case(
                    #[trigger] labels[j],
                    text@,
                ) by {
                    assert(lower.deep_view()[j] == lowercase_of(labels[j]));
                }
            },
        }
        match number_of(text, n) {
            Some(i) => {
                return Ok(i);
            },
            None => {},
        }
        match self.default {
            Some(d) => {
                if d < n {
                    Ok(d)
                } else {
                    Err(default_failed(decimal_text(d).as_str()))
                }
            },
            None => Err(MenuError::InvalidSelection(text.to_owned())),
        }
    }

    /// The option that the answer `line` picks where a value is not owed:
    /// nothing where the answer names no option and no default stands in,
    /// or the input has ended. The only error is a default that lies
    /// beyond the options.
    pub fn pick_optional(&self, line: Option<&str>) -> (r: MenuResult<Option<usize>>)
        ensures
            match r {
                Ok(Some(i)) => self.picks(text_of(line), i as int),
                Ok(None) => exists|e: MenuError| #[trigger]
                    self.fails(text_of(line), e) && (e is InvalidSelection || e is NoMoreInput),
                Err(e) => self.fails(text_of(line), e) && !(e is InvalidSelection
                    || e is NoMoreInput),
            },
    {
        match self.pick(line) {
            Ok(i) => Ok(Some(i)),
            Err(e) => {
                match e {
                    MenuError::InvalidSelection(raw) => {
                        assert(self.fails(text_of(line), MenuError::InvalidSelection(raw)));
                        Ok(None)
                    },
                    MenuError::NoMoreInput => {
                        assert(self.fails(text_of(line), MenuError::NoMoreInput));
                        Ok(None)
                    },
                    other => Err(other),
                }
            },
        }
    }

    /// The option that the answer `line` picks where the default of the
    /// type stands in for a failure: nothing where the answer fails. The
    /// only error is a default that lies beyond the options.
    pub fn pick_or_default(&self, line: Option<&str>) -> (r: MenuResult<Option<usize>>)
        ensures
            match r {
                Ok(Some(i)) => self.picks(text_of(line), i as int),
                Ok(None) => exists|e: MenuError| #[trigger]
                    self.fails(text_of(line), e) && !(e is MisconfiguredDefault),
                Err(e) => self.fails(text_of(line), e) && e is MisconfiguredDefault,
            },
    {
        match self.pick(line) {
            Ok(i) => Ok(Some(i)),
            Err(e) => {
                match e {
                    MenuError::MisconfiguredDefault(d) => Err(MenuError::MisconfiguredDefault(d)),
                    other => {
                        assert(self.fails(text_of(line), other));
                        Ok(None)
                    },
                }
            },
        }
    }

    /// Shows the selection and takes the answer: the place of the option
    /// that the answer picks, after one prompt and one line, whatever the
    /// answer.
    pub fn ask(&self, stream: &mut MenuStream) -> (r: MenuResult<usize>)
        ensures
            final(stream).shown() == old(stream).shown() + self.shown(),
            final(stream).pending() == after_line(old(stream).pending()),
            match r {
                Ok(i) => self.picks(next_line(old(stream).pending()), i as int),
                Err(e) => self.fails(next_line(old(stream).pending()), e),
            },
    {
        show(self.text().as_str(), stream);
        match stream.read_line() {
            Some(line) => self.pick(Some(line.as_str())),
            None => self.pick(None),
        }
    }

    /// Whether the binding of every option can be run.
    pub open spec fn bound(self) -> bool {
        forall|i: int| 0 <= i < self.fields@.len() ==> (#[trigger] self.fields@[i]).bound()
    }

    /// The place of the option that the answer `line` picks, if it picks
    /// one.
    pub open spec fn picked(self, line: Option<Seq<char>>) -> Option<int> {
        if exists|i: int| self.picks(line, i) {
            Some(choose|i: int| self.picks(line, i))
        } else {
            None
        }
    }

    /// Whether the session `now` is the session `then` after the selection
    /// was asked: the selection was shown, and one line was read.
    pub open spec fn asked(self, then: MenuStream, now: MenuStream) -> bool {
        now.shown() == then.shown() + self.shown() && now.pending() == after_line(then.pending())
    }

    /// Whether `r` is what an answer that picks no option gives where a
    /// value is not owed: nothing, but for a default that lies beyond the
    /// options, which is an error.
    pub open spec fn unpicked_optional(
        self,
        line: Option<Seq<char>>,
        r: MenuResult<Option<T>>,
    ) -> bool {
        match r {
            Ok(found) => found is None && exists|e: MenuError| #[trigger]
                self.fails(line, e) && (e is InvalidSelection || e is NoMoreInput),
            Err(e) => self.fails(line, e) && !(e is InvalidSelection || e is NoMoreInput),
        }
    }

    /// Whether `r` is what an answer that picks no option gives where the
    /// default of the type stands in: that default, but for a default of
    /// the selection that lies beyond the options, which is an error.
    pub open spec fn unpicked_or_default(self, line: Option<Seq<char>>, r: MenuResult<T>) -> bool
        where T: Default,
     {
        match r {
            Ok(v) => call_ensures(T::default, (), v) && exists|e: MenuError| #[trigger]
                self.fails(line, e) && !(e is MisconfiguredDefault),
            Err(e) => self.fails(line, e) && e is MisconfiguredDefault,
        }
    }

    /// An answer that picks an option picks that one.
    pub proof fn lemma_picked(self, line: Option<Seq<char>>, i: int)
        requires
            self.picks(line, i),
        ensures
            self.picked(line) == Some(i),
            0 <= i < self.fields@.len(),
    {
        let j = choose|j: int| self.picks(line, j);
        self.lemma_settles_once(answer_text(line), i, j);
    }

    /// An answer that fails picks no option.
    pub proof fn lemma_unpicked(self, line: Option<Seq<char>>, e: MenuError)
        requires
            self.fails(line, e),
        ensures
            self.picked(line) is None,
    {
        if exists|i: int| self.picks(line, i) {
            let i = choose|i: int| self.picks(line, i);
            self.lemma_fails_unsettled(line, i, e);
        }
    }

    /// Shows the selection, takes one answer, and gives the value of the
    /// option that the answer picks, after running the binding of that
    /// option once, over the stream as it then stands. The error of the
    /// binding is the error of the selection. Nothing is asked twice: an
    /// answer that picks no option is an error.
    pub fn select(self, stream: &mut MenuStream) -> (r: MenuResult<T>)
        requires
            self.bound(),
        ensures
            match self.picked(next_line(old(stream).pending())) {
                None => (r matches Err(e) && self.fails(next_line(old(stream).pending()), e))
                    && self.asked(*old(stream), *final(stream)),
                Some(i) => match self.fields@[i].bind {
                    None => r == Ok::<T, MenuError>(self.fields@[i].inner) && self.asked(
                        *old(stream),
                        *final(stream),
                    ),
                    Some(b) => exists|s: &mut MenuStream, done: MenuResult<()>|
                        self.asked(*old(stream), *s) && *final(s) == *final(stream)
                            && #[trigger] call_ensures(b, (s,), done)
                            && r == value_after(done, self.fields@[i].inner),
                },
            },
    {
        let mut menu = self;
        let ghost line = next_line(stream.pending());
        let i = match menu.ask(stream) {
            Ok(i) => i,
            Err(e) => {
                proof {
                    self.lemma_unpicked(line, e);
                }
                return Err(e);
            },
        };
        proof {
            self.lemma_picked(line, i as int);
        }
        let field = menu.fields.swap_remove(i);
        finish(field.call_bind(stream), field.select())
    }

    /// As `select`, but an answer that picks no option, and the end of the
    /// input, give `None` and no error.
    pub fn optional_select(self, stream: &mut MenuStream) -> (r: MenuResult<Option<T>>)
        requires
            self.bound(),
        ensures
            match self.picked(next_line(old(stream).pending())) {
                None => self.unpicked_optional(next_line(old(stream).pending()), r) && self.asked(
                    *old(stream),
                    *final(stream),
                ),
                Some(i) => match self.fields@[i].bind {
                    None => r == Ok::<Option<T>, MenuError>(Some(self.fields@[i].inner))
                        && self.asked(*old(stream), *final(stream)),
                    Some(b) => exists|s: &mut MenuStream, done: MenuResult<()>|
                        self.asked(*old(stream), *s) && *final(s) == *final(stream)
                            && #[trigger] call_ensures(b, (s,), done)
                            && r == option_after(done, self.fields@[i].inner),
                },
            },
    {
        let ghost line = next_line(stream.pending());
        let mut menu = self;
        show(menu.text().as_str(), stream);
        let read = stream.read_line();
        let found = match &read {
            Some(l) => menu.pick_optional(Some(l.as_str())),
            None => menu.pick_optional(None),
        };
        let i = match found {
            Ok(Some(i)) => i,
            Ok(None) => {
                proof {
                    let e = choose|e: MenuError| #[trigger]
                        self.fails(line, e) && (e is InvalidSelection || e is NoMoreInput);
                    self.lemma_unpicked(line, e);
                }
                return Ok(None);
            },
            Err(e) => {
                proof {
                    self.lemma_unpicked(line, e);
                }
                return Err(e);
            },
        };
        proof {
            self.lemma_picked(line, i as int);
        }
        let field = menu.fields.swap_remove(i);
        finish_optional(field.call_bind(stream), field.select())
    }

    /// As `select`, but every failure other than a default that does not
    /// fit gives the default of the type: that of the answer, and that of
    /// the binding.
    pub fn select_or_default(self, stream: &mut MenuStream) -> (r: MenuResult<T>) where
        T: Default,

        requires
            self.bound(),
        ensures
            match self.picked(next_line(old(stream).pending())) {
                None => self.unpicked_or_default(next_line(old(stream).pending()), r)
                    && self.asked(*old(stream), *final(stream)),
                Some(i) => match self.fields@[i].bind {
                    None => r == Ok::<T, MenuError>(self.fields@[i].inner) && self.asked(
                        *old(stream),
                        *final(stream),
                    ),
                    Some(b) => exists|s: &mut MenuStream, done: MenuResult<()>|
                        self.asked(*old(stream), *s) && *final(s) == *final(stream)
                            && #[trigger] call_ensures(b, (s,), done)
                            && default_after(done, self.fields@[i].inner, r),
                },
            },
    {
        let ghost line = next_line(stream.pending());
        let mut menu = self;
        show(menu.text().as_str(), stream);
        let read = stream.read_line();
        let found = match &read {
            Some(l) => menu.pick_or_default(Some(l.as_str())),
            None => menu.pick_or_default(None),
        };
        let i = match found {
            Ok(Some(i)) => i,
            Ok(None) => {
                proof {
                    let e = choose|e: MenuError| #[trigger]
                        self.fails(line, e) && !(e is MisconfiguredDefault);
                    self.lemma_unpicked(line, e);
                }
                return Ok(T::default());
            },
            Err(e) => {
                proof {
                    self.lemma_unpicked(line, e);
                }
                return Err(e);
            },
        };
        proof {
            self.lemma_picked(line, i as int);
        }
        let field = menu.fields.swap_remove(i);
        finish_or_default(field.call_bind(stream), field.select())
    }

    /// The selection as it stands inside a container with the format
    /// `parent`.
    pub open spec fn within(self, parent: ValueFieldFormatting<'a>) -> Self {
        SelectMenu {
            title: self.title,
            fmt: self.fmt.merged_with(parent),
            fields: self.fields,
            default: self.default,
        }
    }

    /// An option that an answer settles on is one of the options.
    pub proof fn lemma_settles_in_range(self, text: Seq<char>, i: int)
        requires
            self.settles(text, i),
        ensures
            0 <= i < self.fields@.len(),
    {
    }

    /// An answer that picks an option does not fail.
    pub proof fn lemma_fails_unsettled(self, line: Option<Seq<char>>, i: int, e: MenuError)
        requires
            self.picks(line, i),
        ensures
            !self.fails(line, e),
    {
        let text = answer_text(line);
        let labels = self.labels();
        if names(labels, text, i) {
            assert(folded(labels)[i] == lowercase_of(labels[i]));
            assert(same_but_case(labels[i], text));
        }
    }

    /// Picking by label and picking by number give the same option: where
    /// `by_label` names the option at `i` first, and `by_number` gives its
    /// number and names no option itself, both settle on the option at `i`.
    pub proof fn lemma_label_and_number_agree(
        self,
        by_label: Seq<char>,
        by_number: Seq<char>,
        i: int,
    )
        requires
            names(self.labels(), by_label, i),
            numbers(self.labels().len(), by_number) == Some(i),
            names_none(self.labels(), by_number),
        ensures
            self.settles(by_label, i),
            self.settles(by_number, i),
    {
    }

    /// An option is picked by its own label and by its decimal number alike:
    /// where no option before the one at `i` has the same label but for the
    /// case of the letters, and no option has the number of that option for
    /// its label, the label and the number both settle on it.
    pub proof fn lemma_own_label_and_position_agree(self, i: int)
        requires
            0 <= i < self.labels().len(),
            forall|j: int|
                0 <= j < i ==> !same_but_case(#[trigger] self.labels()[j], self.labels()[i]),
            names_none(self.labels(), decimal((i + 1) as nat)),
        ensures
            self.settles(self.labels()[i], i),
            self.settles(decimal((i + 1) as nat), i),
    {
        lemma_decimal_round_trip((i + 1) as nat);
        assert(names(self.labels(), self.labels()[i], i));
    }

    /// An answer that is recognized by no option falls back to the default:
    /// where the default lies among the options, the answer settles on it.
    pub proof fn lemma_unrecognized_falls_back(self, text: Seq<char>, d: usize)
        requires
            self.default == Some(d),
            d < self.labels().len(),
            names_none(self.labels(), text),
            numbers(self.labels().len(), text) is None,
        ensures
            self.settles(text, d as int),
            forall|i: int| self.settles(text, i) ==> i == d,
    {
        assert forall|i: int| self.settles(text, i) implies i == d by {
            self.lemma_settles_once(text, i, d as int);
        }
    }

    /// Without default, an answer that is recognized by no option fails
    /// with `InvalidSelection` and the answer as it was given, but for the
    /// white space around it.
    pub proof fn lemma_unrecognized_fails(self, line: Seq<char>, e: MenuError)
        requires
            self.default is None,
            names_none(self.labels(), answer_text(Some(line))),
            numbers(self.labels().len(), answer_text(Some(line))) is None,
        ensures
            self.fails(Some(line), e) <==> e.is_invalid_selection(answer_text(Some(line))),
            forall|i: int| !self.picks(Some(line), i),
    {
    }

    /// An answer settles on one option at most.
    pub proof fn lemma_settles_once(self, text: Seq<char>, i: int, j: int)
        requires
            self.settles(text, i),
            self.settles(text, j),
        ensures
            i == j,
    {
        let labels = self.labels();
        if names(labels, text, i) {
            assert(folded(labels)[i] == lowercase_of(labels[i]));
            assert(same_but_case(labels[i], text));
            assert(!names_none(labels, text));
            assert(names(labels, text, j));
            if i < j {
                assert(folded(labels)[i] == lowercase_of(text));
            } else if j < i {
                assert(folded(labels)[j] == lowercase_of(text));
            }
        } else if names(labels, text, j) {
            assert(folded(labels)[j] == lowercase_of(labels[j]));
            assert(same_but_case(labels[j], text));
            assert(!names_none(labels, text));
        }
    }
}

} // verus!
