//! The fields that a value is asked with.
//!
//! A [`ValueField`] asks for a written answer and reads it as a value of the
//! type wanted; a [`SelectField`] is one option of a
//! [`SelectMenu`](crate::select::SelectMenu), which asks for a choice among
//! its options. A [`Field`] is either of the two.
//!
//! A written field is shown as
//! `<chip><message>[ (<hints>)]{\n}<prefix>`: the hints are the example and
//! the default where the field has them, and the default is left out where
//! the format says so.

use crate::error::{MenuError, MenuResult};
use crate::format::ValueFieldFormatting;
use crate::select::{default_after, value_after, SelectMenu};
use crate::parse::FromInput;
use crate::reader::{turns_down, One, Reader};
use crate::stream::MenuStream;
use crate::text::{trim, trimmed};
use crate::utils::{default_failed, keep, show};
use vstd::prelude::*;

verus! {

/// The default of a written field, as text: it is read as a value only when
/// the field falls back to it.
#[derive(Debug)]
pub enum DefaultValue<'a> {
    /// A default written in the program.
    Value(&'a str),
    /// A default that the environment gave: the variable's value.
    Env(String),
}

impl View for DefaultValue<'_> {
    type V = Seq<char>;

    /// The default as written.
    open spec fn view(&self) -> Seq<char> {
        match self {
            DefaultValue::Value(s) => s@,
            DefaultValue::Env(s) => s@,
        }
    }
}

impl<'a> DefaultValue<'a> {
    /// The default that the environment variable `var` gives, where `found`
    /// is what the environment holds under that name: its value, or an error
    /// that names the variable where it is not set.
    pub fn env(var: &str, found: Option<String>) -> (r: MenuResult<Self>)
        ensures
            match r {
                Ok(d) => found == Some(d->Env_0) && d is Env,
                Err(e) => found is None && e.is_missing_environment_default(var@),
            },
    {
        match found {
            Some(value) => Ok(DefaultValue::Env(value)),
            None => Err(MenuError::MissingEnvironmentDefault(var.to_owned())),
        }
    }

    /// The default as written.
    pub fn as_str(&self) -> (r: &str)
        ensures
            r@ == self@,
    {
        match self {
            DefaultValue::Value(s) => s,
            DefaultValue::Env(s) => s.as_str(),
        }
    }

    /// The hint that shows the default beside a message.
    pub fn hint(&self) -> (r: String)
        ensures
            r@ == "default: "@ + self@,
    {
        let mut out = String::from_str("default: ");
        out.append(self.as_str());
        out
    }

    /// Reads the default as a value of the type wanted, by the rule that
    /// answers are read by. A default that does not read so was declared
    /// for the wrong type: the error is `MisconfiguredDefault`.
    pub fn resolve<T: FromInput>(&self) -> (r: MenuResult<T>)
        ensures
            self.resolves_to(r),
    {
        match T::parse(self.as_str()) {
            Some(v) => Ok(v),
            None => Err(default_failed(self.as_str())),
        }
    }

    /// Whether `r` is what resolving this default gives: the value that the
    /// default denotes, or `MisconfiguredDefault` with the default as written
    /// where it denotes none.
    pub open spec fn resolves_to<T: FromInput>(self, r: MenuResult<T>) -> bool {
        match r {
            Ok(v) => T::parsed(self@) == Some(v.deep_view()),
            Err(e) => T::parsed(self@) is None && e.is_misconfigured_default(self@),
        }
    }
}

/// The text of an optional text.
pub open spec fn text_of(s: Option<&str>) -> Option<Seq<char>> {
    match s {
        Some(s) => Some(s@),
        None => None,
    }
}

/// The text of an optional default.
pub open spec fn default_of(d: Option<DefaultValue<'_>>) -> Option<Seq<char>> {
    match d {
        Some(d) => Some(d@),
        None => None,
    }
}

/// The hints shown beside a message: nothing where there is nothing to
/// show, else the example and the default in brackets, the default only
/// where `show_d` allows it.
pub open spec fn hint_text(
    example: Option<Seq<char>>,
    default: Option<Seq<char>>,
    show_d: bool,
) -> Seq<char> {
    match (default, example) {
        (Some(d), None) => if show_d {
            " ("@ + ("default: "@ + d) + ")"@
        } else {
            Seq::empty()
        },
        (Some(d), Some(e)) => if show_d {
            " ("@ + ("example: "@ + e + ", "@ + ("default: "@ + d)) + ")"@
        } else {
            " ("@ + ("example: "@ + e) + ")"@
        },
        (None, Some(e)) => " ("@ + ("example: "@ + e) + ")"@,
        (None, None) => Seq::empty(),
    }
}

/// What a written field shows beside its message: an example of an answer,
/// and the default.
#[derive(Debug)]
pub struct FieldDetails<'a> {
    /// An example of a fitting answer.
    pub example: Option<&'a str>,
    /// The value that stands in for an empty answer.
    pub default: Option<DefaultValue<'a>>,
    /// Whether the default is shown.
    pub show_d: bool,
}

impl<'a> FieldDetails<'a> {
    /// Details without example or default.
    pub fn new(show_d: bool) -> (r: Self)
        ensures
            r.example is None,
            r.default is None,
            r.show_d == show_d,
    {
        FieldDetails { example: None, default: None, show_d }
    }

    /// Sets the example.
    pub fn set_example(&mut self, example: &'a str)
        ensures
            final(self).example == Some(example),
            final(self).default == old(self).default,
            final(self).show_d == old(self).show_d,
    {
        self.example = Some(example);
    }

    /// Sets the default to a text written in the program.
    pub fn set_default_value(&mut self, value: &'a str)
        ensures
            final(self).default == Some(DefaultValue::Value(value)),
            final(self).example == old(self).example,
            final(self).show_d == old(self).show_d,
    {
        self.default = Some(DefaultValue::Value(value));
    }

    /// Sets the default to what the environment variable `var` gives, where
    /// `found` is what the environment holds under that name. Where the
    /// variable is not set the details stay as they are.
    pub fn set_default_env(&mut self, var: &str, found: Option<String>) -> (r: MenuResult<()>)
        ensures
            final(self).example == old(self).example,
            final(self).show_d == old(self).show_d,
            match r {
                Ok(_) => found matches Some(value) && final(self).default == Some(
                    DefaultValue::Env(value),
                ),
                Err(e) => found is None && final(self).default == old(self).default
                    && e.is_missing_environment_default(var@),
            },
    {
        match DefaultValue::env(var, found) {
            Ok(d) => {
                self.default = Some(d);
                Ok(())
            },
            Err(e) => Err(e),
        }
    }

    /// Sets whether the default is shown.
    pub fn set_show_d(&mut self, show_d: bool)
        ensures
            final(self).show_d == show_d,
            final(self).example == old(self).example,
            final(self).default == old(self).default,
    {
        self.show_d = show_d;
    }

    /// The hints as they are shown where the default is shown if `show_d`.
    pub open spec fn hint_with(self, show_d: bool) -> Seq<char> {
        hint_text(text_of(self.example), default_of(self.default), show_d)
    }

    /// The hints as they are shown beside the message.
    pub fn hint(&self, show_d: bool) -> (r: String)
        ensures
            r@ == self.hint_with(show_d),
    {
        let mut out = String::new();
        match (&self.default, self.example) {
            (Some(d), None) => {
                if show_d {
                    out.append(" (");
                    out.append(d.hint().as_str());
                    out.append(")");
                }
            },
            (Some(d), Some(e)) => {
                out.append(" (");
                out.append("example: ");
                out.append(e);
                if show_d {
                    out.append(", ");
                    out.append(d.hint().as_str());
                }
                out.append(")");
            },
            (None, Some(e)) => {
                out.append(" (");
                out.append("example: ");
                out.append(e);
                out.append(")");
            },
            (None, None) => {},
        }
        assert(out@ =~= self.hint_with(show_d));
        out
    }

    /// Whether `r` is what stands in where no answer was had: what resolving
    /// the default gives, or a default of the type where there is no default.
    pub open spec fn stands_in<T: FromInput + Default>(self, r: MenuResult<T>) -> bool {
        match self.default {
            Some(d) => d.resolves_to(r),
            None => r matches Ok(v) && call_ensures(T::default, (), v),
        }
    }

    /// The value that stands in where no answer was had: the default as
    /// `resolve` reads it, or the default of the type where the field has
    /// none.
    pub fn try_default<T: FromInput + Default>(&self) -> (r: MenuResult<T>)
        ensures
            self.stands_in(r),
    {
        match &self.default {
            Some(d) => d.resolve(),
            None => Ok(T::default()),
        }
    }
}

/// A field that asks for a written answer.
#[derive(Debug)]
pub struct ValueField<'a> {
    /// The message that says what is asked for.
    pub msg: &'a str,
    /// The layout of the prompt.
    pub fmt: ValueFieldFormatting<'a>,
    /// The example and the default.
    pub details: FieldDetails<'a>,
}

impl<'a> From<&'a str> for ValueField<'a> {
    /// The field that asks with `msg`, in the plain format, without example
    /// or default.
    fn from(msg: &'a str) -> (r: Self) {
        let fmt = ValueFieldFormatting::default();
        ValueField { msg, fmt, details: FieldDetails::new(fmt.show_default) }
    }
}

impl<'a> vstd::std_specs::convert::FromSpecImpl<&'a str> for ValueField<'a> {
    open spec fn obeys_from_spec() -> bool {
        true
    }

    open spec fn from_spec(msg: &'a str) -> Self {
        ValueField {
            msg,
            fmt: ValueFieldFormatting::plain(),
            details: FieldDetails { example: None, default: None, show_d: true },
        }
    }
}

/// What one attempt at an answer came to.
#[derive(Debug)]
pub enum Query<T> {
    /// The answer reads as a value, and the value passed the test.
    Accepted(T),
    /// The answer does not read as a value, or the value failed the test:
    /// the answer without the white space around it.
    Rejected(String),
    /// No answer could be had.
    Failed(MenuError),
}

/// The answer that a line stands for: the line without the white space
/// around it, and the empty answer at the end of the input.
pub open spec fn answer_text(line: Option<Seq<char>>) -> Seq<char> {
    match line {
        Some(l) => trimmed(l),
        None => Seq::empty(),
    }
}

impl<'a> ValueField<'a> {
    /// Sets the format of the field.
    pub fn fmt(self, fmt: ValueFieldFormatting<'a>) -> (r: Self)
        ensures
            r.msg == self.msg,
            r.fmt == fmt,
            r.details.example == self.details.example,
            r.details.default == self.details.default,
            r.details.show_d == fmt.show_default,
    {
        let mut field = self;
        field.set_fmt(fmt);
        field
    }

    /// Fills what the format of the field leaves open from `parent`.
    pub fn inherit_fmt(&mut self, parent: &ValueFieldFormatting<'a>)
        ensures
            final(self).msg == old(self).msg,
            final(self).fmt == old(self).fmt.merged_with(*parent),
            final(self).details.example == old(self).details.example,
            final(self).details.default == old(self).details.default,
            final(self).details.show_d == final(self).fmt.show_default,
    {
        let merged = self.fmt.merged(parent);
        self.set_fmt(merged);
    }

    fn set_fmt(&mut self, fmt: ValueFieldFormatting<'a>)
        ensures
            final(self).msg == old(self).msg,
            final(self).fmt == fmt,
            final(self).details.example == old(self).details.example,
            final(self).details.default == old(self).details.default,
            final(self).details.show_d == fmt.show_default,
    {
        self.fmt = fmt;
        self.details.set_show_d(fmt.show_default);
    }

    /// Gives the field a default, written as an answer would be.
    pub fn default_value(self, default: &'a str) -> (r: Self)
        ensures
            r.msg == self.msg,
            r.fmt == self.fmt,
            r.details.example == self.details.example,
            r.details.default == Some(DefaultValue::Value(default)),
            r.details.show_d == self.details.show_d,
    {
        let mut field = self;
        field.details.set_default_value(default);
        field
    }

    /// Gives the field the default that the environment variable `var`
    /// holds, where `found` is what the environment holds under that name:
    /// an error where the variable is not set.
    pub fn default_env(self, var: &str, found: Option<String>) -> (r: MenuResult<Self>)
        ensures
            match r {
                Ok(f) => found matches Some(value) && f.msg == self.msg && f.fmt == self.fmt
                    && f.details.example == self.details.example && f.details.default == Some(
                    DefaultValue::Env(value),
                ) && f.details.show_d == self.details.show_d,
                Err(e) => found is None && e.is_missing_environment_default(var@),
            },
    {
        let mut field = self;
        match field.details.set_default_env(var, found) {
            Ok(_) => Ok(field),
            Err(e) => Err(e),
        }
    }

    /// Gives the field an example of a fitting answer.
    pub fn example(self, example: &'a str) -> (r: Self)
        ensures
            r.msg == self.msg,
            r.fmt == self.fmt,
            r.details.example == Some(example),
            r.details.default == self.details.default,
            r.details.show_d == self.details.show_d,
    {
        let mut field = self;
        field.details.set_example(example);
        field
    }

    /// The prompt of the field in the format `fmt`, the default shown if
    /// `show_d`.
    pub open spec fn shown_as(self, fmt: ValueFieldFormatting<'a>, show_d: bool) -> Seq<char> {
        fmt.chip@ + self.msg@ + self.details.hint_with(show_d) + (if fmt.line_break {
            "\n"@
        } else {
            Seq::empty()
        }) + fmt.prefix@
    }

    /// The prompt of the field in its own format.
    pub open spec fn prompt_text(self) -> Seq<char> {
        self.shown_as(self.fmt, self.details.show_d)
    }

    /// The prompt of the field in the format that it has inside a container
    /// with the format `parent`.
    pub open spec fn prompt_text_in(self, parent: ValueFieldFormatting<'a>) -> Seq<char> {
        self.shown_as(self.fmt.merged_with(parent), self.fmt.merged_with(parent).show_default)
    }

    fn render(&self, fmt: &ValueFieldFormatting<'a>, show_d: bool) -> (r: String)
        ensures
            r@ == self.shown_as(*fmt, show_d),
    {
        let mut out = String::from_str(fmt.chip);
        out.append(self.msg);
        out.append(self.details.hint(show_d).as_str());
        if fmt.line_break {
            out.append("\n");
        }
        out.append(fmt.prefix);
        assert(out@ =~= self.shown_as(*fmt, show_d));
        out
    }

    /// The prompt of the field in its own format.
    pub fn text(&self) -> (r: String)
        ensures
            r@ == self.prompt_text(),
    {
        self.render(&self.fmt, self.details.show_d)
    }

    /// The prompt of the field inside a container with the format `parent`.
    pub fn text_in(&self, parent: &ValueFieldFormatting<'a>) -> (r: String)
        ensures
            r@ == self.prompt_text_in(*parent),
    {
        let fmt = self.fmt.merged(parent);
        self.render(&fmt, fmt.show_default)
    }
}

/// The line that is read next from `lines`: none at the end of the input.
pub open spec fn next_line(lines: Seq<Seq<char>>) -> Option<Seq<char>> {
    if lines.len() > 0 {
        Some(lines[0])
    } else {
        None
    }
}

/// The lines that are left of `lines` when one was read.
pub open spec fn after_line(lines: Seq<Seq<char>>) -> Seq<Seq<char>> {
    if lines.len() > 0 {
        lines.skip(1)
    } else {
        lines
    }
}

impl<'a> DefaultValue<'a> {
    /// Whether `r` is what resolving this default with `reader` gives: the
    /// value that the default denotes, or `MisconfiguredDefault` with the
    /// default as written where it denotes none.
    pub open spec fn resolves_by<R: Reader>(self, reader: R, r: MenuResult<R::Out>) -> bool {
        match r {
            Ok(v) => reader.fits(self@, v),
            Err(e) => reader.misfits(self@) && e.is_misconfigured_default(self@),
        }
    }

    /// Reads the default as `reader` reads defaults. A default that does
    /// not read so was declared for the wrong type: the error is
    /// `MisconfiguredDefault`.
    pub fn resolve_by<R: Reader>(&self, reader: &R) -> (r: MenuResult<R::Out>)
        ensures
            self.resolves_by(*reader, r),
    {
        match reader.read_default(self.as_str()) {
            Some(v) => Ok(v),
            None => Err(default_failed(self.as_str())),
        }
    }
}

impl<'a> ValueField<'a> {
    /// Whether the field has a default.
    pub open spec fn has_default(self) -> bool {
        self.details.default is Some
    }

    /// Whether `q` is what one attempt on the answer `line` may come to,
    /// `line` being `None` at the end of the input. The end of the input
    /// counts as an empty answer where the field has a default, and is a
    /// failure where it has none.
    pub open spec fn answers<R: Reader>(
        self,
        reader: R,
        line: Option<Seq<char>>,
        q: Query<R::Out>,
    ) -> bool {
        let text = answer_text(line);
        match q {
            Query::Accepted(v) => (line is Some || self.has_default()) && reader.accepts(text, v),
            Query::Rejected(raw) => (line is Some || self.has_default()) && raw@ == text
                && reader.rejects(text),
            Query::Failed(e) => line is None && !self.has_default() && e is NoMoreInput,
        }
    }

    /// Whether `r` is what the field falls back to after the rejected answer
    /// `raw`: what resolving the default gives where the answer is empty and
    /// the field has a default, and nothing else.
    pub open spec fn falls_back<R: Reader>(
        self,
        reader: R,
        raw: Seq<char>,
        r: Option<MenuResult<R::Out>>,
    ) -> bool {
        match r {
            Some(res) => raw.len() == 0 && (self.details.default matches Some(d) && d.resolves_by(
                reader,
                res,
            )),
            None => !(raw.len() == 0 && self.has_default()),
        }
    }

    /// Whether one attempt on the answer `line` may end the asking with `r`:
    /// by accepting the answer, by falling back to the default, or by
    /// running out of input.
    pub open spec fn ends<R: Reader>(
        self,
        reader: R,
        line: Option<Seq<char>>,
        r: MenuResult<R::Out>,
    ) -> bool {
        let text = answer_text(line);
        if line is None && !self.has_default() {
            r matches Err(e) && e is NoMoreInput
        } else {
            ||| (r matches Ok(v) && reader.accepts(text, v))
            ||| (reader.rejects(text) && self.falls_back(reader, text, Some(r)))
        }
    }

    /// Whether one attempt on the line `line` may lead to another prompt:
    /// the answer may be rejected, and the field does not fall back.
    pub open spec fn repeats<R: Reader>(self, reader: R, line: Seq<char>) -> bool {
        reader.rejects(trimmed(line)) && self.falls_back(reader, trimmed(line), None)
    }

    /// Whether asking with the prompt `p`, over a session in which `lines`
    /// are still to be read, may end with `r`, leave the lines `left`, and
    /// show `out`. Every attempt shows the prompt and takes one line; the
    /// asking goes on as long as attempts lead to another prompt.
    pub open spec fn asks<R: Reader>(
        self,
        reader: R,
        p: Seq<char>,
        lines: Seq<Seq<char>>,
        r: MenuResult<R::Out>,
        left: Seq<Seq<char>>,
        out: Seq<char>,
    ) -> bool
        decreases lines.len(),
    {
        &&& p.is_prefix_of(out)
        &&& if lines.len() == 0 {
            left == lines && out == p && self.ends(reader, None, r)
        } else {
            ||| (left == lines.skip(1) && out == p && self.ends(reader, Some(lines[0]), r))
            ||| (self.repeats(reader, lines[0]) && self.asks(
                reader,
                p,
                lines.skip(1),
                r,
                left,
                out.skip(p.len() as int),
            ))
        }
    }

    /// What the answer `line` comes to: accepted where `reader` accepts it
    /// without the white space around it, rejected where not, and a failure
    /// where the input has ended (`line` is `None`) and the field has no
    /// default.
    pub fn answer<R: Reader>(&self, line: Option<&str>, reader: &R) -> (q: Query<R::Out>)
        requires
            reader.ready(),
        ensures
            self.answers(*reader, text_of(line), q),
    {
        let text: &str = match line {
            Some(l) => trim(l),
            None => {
                if self.details.default.is_none() {
                    return Query::Failed(MenuError::NoMoreInput);
                }
                proof {
                    reveal_strlit("");
                }
                ""
            },
        };
        assert(text@ =~= answer_text(text_of(line)));
        match reader.read(text) {
            Some(v) => Query::Accepted(v),
            None => Query::Rejected(text.to_owned()),
        }
    }

    /// What a rejected answer falls back to: the default, as `reader` reads
    /// it, where the answer is empty and the field has a default; else
    /// nothing, and the field is to be asked again.
    pub fn fallback<R: Reader>(&self, raw: &str, reader: &R) -> (r: Option<MenuResult<R::Out>>)
        ensures
            self.falls_back(*reader, raw@, r),
    {
        if raw.is_empty() {
            match &self.details.default {
                Some(d) => Some(d.resolve_by(reader)),
                None => None,
            }
        } else {
            None
        }
    }

    /// One attempt: shows the prompt `p`, takes a line and says what the
    /// answer comes to.
    pub fn ask_once<R: Reader>(&self, stream: &mut MenuStream, p: &str, reader: &R) -> (q: Query<
        R::Out,
    >)
        requires
            reader.ready(),
        ensures
            final(stream).shown() == old(stream).shown() + p@,
            final(stream).pending() == after_line(old(stream).pending()),
            self.answers(*reader, next_line(old(stream).pending()), q),
    {
        show(p, stream);
        match stream.read_line() {
            Some(line) => self.answer(Some(line.as_str()), reader),
            None => self.answer(None, reader),
        }
    }

    /// Asks with the prompt `p` until an attempt ends the asking: with a
    /// value that `reader` accepts the answer as, with the default after an
    /// empty answer, or with an error where the default does not fit or the
    /// input has ended.
    pub fn ask_until<R: Reader>(&self, stream: &mut MenuStream, p: &str, reader: &R) -> (r:
        MenuResult<R::Out>)
        requires
            reader.ready(),
        ensures
            old(stream).shown().is_prefix_of(final(stream).shown()),
            self.asks(
                *reader,
                p@,
                old(stream).pending(),
                r,
                final(stream).pending(),
                final(stream).shown().skip(old(stream).shown().len() as int),
            ),
    {
        let ghost lines0 = stream.pending();
        let ghost shown0 = stream.shown();
        assert(stream.shown().skip(shown0.len() as int) =~= Seq::<char>::empty());
        assert forall|r: MenuResult<R::Out>, left: Seq<Seq<char>>, out: Seq<char>| #[trigger]
            self.asks(*reader, p@, stream.pending(), r, left, out) implies self.asks(
            *reader,
            p@,
            lines0,
            r,
            left,
            stream.shown().skip(shown0.len() as int) + out,
        ) by {
            assert(stream.shown().skip(shown0.len() as int) + out =~= out);
        }
        loop
            invariant
                reader.ready(),
                lines0 == old(stream).pending(),
                shown0 == old(stream).shown(),
                shown0.is_prefix_of(stream.shown()),
                forall|r: MenuResult<R::Out>, left: Seq<Seq<char>>, out: Seq<char>| #[trigger]
                    self.asks(*reader, p@, stream.pending(), r, left, out) ==> self.asks(
                        *reader,
                        p@,
                        lines0,
                        r,
                        left,
                        stream.shown().skip(shown0.len() as int) + out,
                    ),
            decreases stream.pending().len(),
        {
            let ghost cur = stream.pending();
            let ghost emitted = stream.shown().skip(shown0.len() as int);
            let q = self.ask_once(stream, p, reader);
            assert(stream.shown().skip(shown0.len() as int) =~= emitted + p@);
            let r: MenuResult<R::Out> = match self.settle(q, reader) {
                Some(res) => res,
                None => {
                    proof {
                        assert(cur.len() > 0);
                        assert(self.repeats(*reader, cur[0]));
                        assert forall|
                            r: MenuResult<R::Out>,
                            left: Seq<Seq<char>>,
                            out: Seq<char>,
                        | #[trigger]
                            self.asks(
                                *reader,
                                p@,
                                stream.pending(),
                                r,
                                left,
                                out,
                            ) implies self.asks(
                            *reader,
                            p@,
                            lines0,
                            r,
                            left,
                            stream.shown().skip(shown0.len() as int) + out,
                        ) by {
                            assert((p@ + out).skip(p@.len() as int) =~= out);
                            assert(self.asks(*reader, p@, cur, r, left, p@ + out));
                            assert(emitted + (p@ + out) =~= emitted + p@ + out);
                        }
                    }
                    continue ;
                },
            };
            proof {
                assert(self.ends(*reader, next_line(cur), r));
                assert(self.asks(*reader, p@, cur, r, stream.pending(), p@));
            }
            return r;
        }
    }
}

impl<'a> ValueField<'a> {
    /// Whether `r` is what one attempt on the answer `line` may give where
    /// nothing is asked twice: the value that the answer is accepted as, or
    /// else what stands in for it.
    pub open spec fn gives_or_default<T: FromInput + Default, F: Fn(&T) -> bool>(
        self,
        until: F,
        line: Option<Seq<char>>,
        r: MenuResult<T>,
    ) -> bool {
        ||| (exists|v: T| #[trigger]
            self.answers(One::of(until), line, Query::Accepted(v)) && r == Ok::<T, MenuError>(v))
        ||| ((exists|q: Query<T>| #[trigger]
            self.answers(One::of(until), line, q) && !(q is Accepted))
            && self.details.stands_in(r))
    }

    /// One attempt with the prompt of the field in its own format: shows
    /// the prompt, takes a line and says what the answer comes to under the
    /// test `until`.
    pub fn build_once<T: FromInput, F: Fn(&T) -> bool>(
        &self,
        stream: &mut MenuStream,
        until: F,
    ) -> (q: Query<T>)
        requires
            forall|v: &T| call_requires(until, (v,)),
        ensures
            final(stream).shown() == old(stream).shown() + self.prompt_text(),
            final(stream).pending() == after_line(old(stream).pending()),
            self.answers(One::of(until), next_line(old(stream).pending()), q),
    {
        let reader = One::new(until);
        self.ask_once(stream, self.text().as_str(), &reader)
    }

    /// Asks for a value in the field's own format until an answer reads as
    /// a value that passes `until`, or an empty answer lets the default in.
    pub fn build_until<T: FromInput, F: Fn(&T) -> bool>(
        &self,
        stream: &mut MenuStream,
        until: F,
    ) -> (r: MenuResult<T>)
        requires
            forall|v: &T| call_requires(until, (v,)),
        ensures
            old(stream).shown().is_prefix_of(final(stream).shown()),
            self.asks(
                One::of(until),
                self.prompt_text(),
                old(stream).pending(),
                r,
                final(stream).pending(),
                final(stream).shown().skip(old(stream).shown().len() as int),
            ),
    {
        let reader = One::new(until);
        self.ask_until(stream, self.text().as_str(), &reader)
    }

    /// Asks for a value in the field's own format until an answer reads as
    /// a value, or an empty answer lets the default in.
    pub fn build_with<T: FromInput>(&self, stream: &mut MenuStream) -> (r: MenuResult<T>)
        ensures
            old(stream).shown().is_prefix_of(final(stream).shown()),
            self.asks(
                One::of(keep::<T>),
                self.prompt_text(),
                old(stream).pending(),
                r,
                final(stream).pending(),
                final(stream).shown().skip(old(stream).shown().len() as int),
            ),
    {
        self.build_until(stream, keep::<T>)
    }

    /// Whether `r` is what one attempt on the answer `line` may give where
    /// a value is not owed: the value that the attempt ends with, or `None`
    /// where it would lead to another prompt or the input has ended.
    pub open spec fn gives_optional<R: Reader>(
        self,
        reader: R,
        line: Option<Seq<char>>,
        r: MenuResult<Option<R::Out>>,
    ) -> bool {
        match r {
            Ok(Some(v)) => (line is Some || self.has_default()) && self.ends(reader, line, Ok(v)),
            Ok(None) => if line is None && !self.has_default() {
                true
            } else {
                reader.rejects(answer_text(line)) && self.falls_back(
                    reader,
                    answer_text(line),
                    None,
                )
            },
            Err(e) => (line is Some || self.has_default()) && self.ends(reader, line, Err(e)),
        }
    }

    /// What one attempt comes to where a value is owed: the value of an
    /// accepted answer; after a rejected answer the default, where the
    /// answer is empty and the field has one, and else `None`, to ask
    /// again; and the failure where no answer could be had.
    pub fn settle<R: Reader>(&self, q: Query<R::Out>, reader: &R) -> (r: Option<
        MenuResult<R::Out>,
    >)
        ensures
            match q {
                Query::Accepted(v) => r == Some(Ok::<R::Out, MenuError>(v)),
                Query::Rejected(raw) => self.falls_back(*reader, raw@, r),
                Query::Failed(e) => r == Some(Err::<R::Out, MenuError>(e)),
            },
    {
        match q {
            Query::Accepted(v) => Some(Ok(v)),
            Query::Rejected(raw) => self.fallback(raw.as_str(), reader),
            Query::Failed(e) => Some(Err(e)),
        }
    }

    /// What one attempt comes to where a value is not owed: the value of an
    /// accepted answer; after a rejected answer the default, where the
    /// answer is empty and the field has one, and else nothing; and nothing
    /// where no answer could be had. The only error is a default that does
    /// not fit.
    pub fn settle_optional<R: Reader>(&self, q: Query<R::Out>, reader: &R) -> (r: MenuResult<
        Option<R::Out>,
    >)
        ensures
            match q {
                Query::Accepted(v) => r == Ok::<Option<R::Out>, MenuError>(Some(v)),
                Query::Rejected(raw) => match r {
                    Ok(Some(v)) => self.falls_back(*reader, raw@, Some(Ok(v))),
                    Ok(None) => self.falls_back(*reader, raw@, None),
                    Err(e) => self.falls_back(*reader, raw@, Some(Err(e))),
                },
                Query::Failed(_) => r == Ok::<Option<R::Out>, MenuError>(None),
            },
    {
        match q {
            Query::Accepted(v) => Ok(Some(v)),
            Query::Rejected(raw) => {
                match self.fallback(raw.as_str(), reader) {
                    Some(Ok(v)) => Ok(Some(v)),
                    Some(Err(e)) => Err(e),
                    None => Ok(None),
                }
            },
            Query::Failed(_) => Ok(None),
        }
    }

    /// What one attempt comes to where a default stands in: the value of an
    /// accepted answer, and else the default of the field, or, where it
    /// has none, the default of the type. The only error is a default that
    /// does not fit.
    pub fn settle_or_default<T: FromInput + Default>(&self, q: Query<T>) -> (r: MenuResult<T>)
        ensures
            match q {
                Query::Accepted(v) => r == Ok::<T, MenuError>(v),
                _ => self.details.stands_in(r),
            },
    {
        match q {
            Query::Accepted(v) => Ok(v),
            _ => self.details.try_default(),
        }
    }

    /// Asks once with the prompt `p`, for a value that is not owed: the
    /// value that the answer is accepted as, or the default after an empty
    /// answer, or `None`. The only error is a default that does not fit.
    pub fn ask_optional<R: Reader>(&self, stream: &mut MenuStream, p: &str, reader: &R) -> (r:
        MenuResult<Option<R::Out>>)
        requires
            reader.ready(),
        ensures
            final(stream).shown() == old(stream).shown() + p@,
            final(stream).pending() == after_line(old(stream).pending()),
            self.gives_optional(*reader, next_line(old(stream).pending()), r),
    {
        let q = self.ask_once(stream, p, reader);
        self.settle_optional(q, reader)
    }

    /// Asks once with the prompt `p`: the value that the answer reads as
    /// and that passes `until`, or else the default of the field, or,
    /// where it has none, the default of the type. The only error is a
    /// default that does not fit.
    pub fn ask_or_default<T: FromInput + Default, F: Fn(&T) -> bool>(
        &self,
        stream: &mut MenuStream,
        p: &str,
        until: F,
    ) -> (r: MenuResult<T>)
        requires
            forall|v: &T| call_requires(until, (v,)),
        ensures
            final(stream).shown() == old(stream).shown() + p@,
            final(stream).pending() == after_line(old(stream).pending()),
            self.gives_or_default(until, next_line(old(stream).pending()), r),
    {
        let reader = One::new(until);
        let q = self.ask_once(stream, p, &reader);
        assert(self.answers(One::of(until), next_line(old(stream).pending()), q));
        self.settle_or_default(q)
    }

    /// Asks once, in the field's own format: the value that the answer
    /// reads as, or else the default of the field, or, where it has none,
    /// the default of the type.
    pub fn build_or_default_with<T: FromInput + Default>(&self, stream: &mut MenuStream) -> (r:
        MenuResult<T>)
        ensures
            final(stream).shown() == old(stream).shown() + self.prompt_text(),
            final(stream).pending() == after_line(old(stream).pending()),
            self.gives_or_default(keep::<T>, next_line(old(stream).pending()), r),
    {
        self.ask_or_default(stream, self.text().as_str(), keep::<T>)
    }

    /// A valid answer is taken at the first attempt: where the first answer
    /// cannot be rejected, the asking ends with a value that it is accepted
    /// as, after one prompt and one line.
    pub proof fn lemma_valid_answer_accepted<R: Reader>(
        self,
        reader: R,
        p: Seq<char>,
        lines: Seq<Seq<char>>,
        r: MenuResult<R::Out>,
        left: Seq<Seq<char>>,
        out: Seq<char>,
    )
        requires
            lines.len() > 0,
            !reader.rejects(trimmed(lines[0])),
            self.asks(reader, p, lines, r, left, out),
        ensures
            r matches Ok(v) && reader.accepts(trimmed(lines[0]), v),
            left == lines.skip(1),
            out == p,
    {
    }

    /// What asking comes to, one attempt after the other: asking shows the
    /// prompt first; at the end of the input the one attempt ends it; else
    /// the first line either ends it, or leads to another prompt and to
    /// asking over the lines after it.
    pub proof fn lemma_asks_unfolds<R: Reader>(
        self,
        reader: R,
        p: Seq<char>,
        lines: Seq<Seq<char>>,
        r: MenuResult<R::Out>,
        left: Seq<Seq<char>>,
        out: Seq<char>,
    )
        ensures
            self.asks(reader, p, lines, r, left, out) <==> p.is_prefix_of(out) && if lines.len()
                == 0 {
                left == lines && out == p && self.ends(reader, None, r)
            } else {
                ||| (left == lines.skip(1) && out == p && self.ends(reader, Some(lines[0]), r))
                ||| (self.repeats(reader, lines[0]) && self.asks(
                    reader,
                    p,
                    lines.skip(1),
                    r,
                    left,
                    out.skip(p.len() as int),
                ))
            },
    {
    }

    /// At the end of the input a field without default fails with
    /// `NoMoreInput`, after one prompt.
    pub proof fn lemma_end_of_input<R: Reader>(
        self,
        reader: R,
        p: Seq<char>,
        lines: Seq<Seq<char>>,
        r: MenuResult<R::Out>,
        left: Seq<Seq<char>>,
        out: Seq<char>,
    )
        requires
            lines.len() == 0,
            !self.has_default(),
            self.asks(reader, p, lines, r, left, out),
        ensures
            r matches Err(e) && e is NoMoreInput,
            left == lines,
            out == p,
    {
    }

    /// A rejected answer that does not let the default in is asked for
    /// again: where the first answer cannot be accepted, and is not empty or
    /// the field has no default, the asking goes on over the lines after
    /// it.
    pub proof fn lemma_rejected_answer_repeats<R: Reader>(
        self,
        reader: R,
        p: Seq<char>,
        lines: Seq<Seq<char>>,
        r: MenuResult<R::Out>,
        left: Seq<Seq<char>>,
        out: Seq<char>,
    )
        requires
            lines.len() > 0,
            forall|v: R::Out| !reader.accepts(trimmed(lines[0]), v),
            trimmed(lines[0]).len() > 0 || !self.has_default(),
            self.asks(reader, p, lines, r, left, out),
        ensures
            p.is_prefix_of(out),
            self.asks(reader, p, lines.skip(1), r, left, out.skip(p.len() as int)),
    {
    }

    /// An empty answer to a field with a default ends the asking at once:
    /// with a value that the empty answer is accepted as, or else with what
    /// resolving the default gives. The end of the input counts as an empty
    /// answer.
    pub proof fn lemma_empty_answer_ends<R: Reader>(
        self,
        reader: R,
        p: Seq<char>,
        lines: Seq<Seq<char>>,
        r: MenuResult<R::Out>,
        left: Seq<Seq<char>>,
        out: Seq<char>,
    )
        requires
            self.has_default(),
            answer_text(next_line(lines)).len() == 0,
            self.asks(reader, p, lines, r, left, out),
        ensures
            (r matches Ok(v) && reader.accepts(Seq::<char>::empty(), v))
                || self.details.default->0.resolves_by(reader, r),
            left == after_line(lines),
            out == p,
    {
        assert(answer_text(next_line(lines)) =~= Seq::<char>::empty());
    }

    /// An empty answer to a field with a default gives the default where
    /// the empty text denotes no value of the type asked for: the asking
    /// ends after one prompt with the value that the default denotes, or
    /// with `MisconfiguredDefault` where it denotes none.
    pub proof fn lemma_empty_answer_gives_default<T: FromInput, F: Fn(&T) -> bool>(
        self,
        until: F,
        p: Seq<char>,
        lines: Seq<Seq<char>>,
        r: MenuResult<T>,
        left: Seq<Seq<char>>,
        out: Seq<char>,
    )
        requires
            self.has_default(),
            answer_text(next_line(lines)).len() == 0,
            T::parsed(Seq::<char>::empty()) is None,
            self.asks(One::of(until), p, lines, r, left, out),
        ensures
            self.details.default->0.resolves_to(r),
            left == after_line(lines),
            out == p,
    {
        self.lemma_empty_answer_ends(One::of(until), p, lines, r, left, out);
    }

    /// An answer that denotes no value of the type asked for, and does not
    /// let the default in, is asked for again: the asking goes on over the
    /// lines after it, after one prompt.
    pub proof fn lemma_unreadable_answer_repeats<T: FromInput, F: Fn(&T) -> bool>(
        self,
        until: F,
        p: Seq<char>,
        lines: Seq<Seq<char>>,
        r: MenuResult<T>,
        left: Seq<Seq<char>>,
        out: Seq<char>,
    )
        requires
            lines.len() > 0,
            T::parsed(trimmed(lines[0])) is None,
            trimmed(lines[0]).len() > 0 || !self.has_default(),
            self.asks(One::of(until), p, lines, r, left, out),
        ensures
            p.is_prefix_of(out),
            self.asks(One::of(until), p, lines.skip(1), r, left, out.skip(p.len() as int)),
    {
    }

    /// What the reader of one value does with a text: it accepts the text
    /// as a value that the text denotes and that the test may let pass; it
    /// rejects a text that denotes no value, or one that the test may turn
    /// down; and a default fits as the value that it denotes.
    pub proof fn lemma_one_reader<T: FromInput, F: Fn(&T) -> bool>(
        until: F,
        text: Seq<char>,
        v: T,
    )
        ensures
            One::of(until).accepts(text, v) <==> T::parsed(text) == Some(v.deep_view())
                && call_ensures(until, (&v,), true),
            One::of(until).rejects(text) <==> T::parsed(text) is None || exists|w: T|
                T::parsed(text) == Some(w.deep_view()) && #[trigger] call_ensures(
                    until,
                    (&w,),
                    false,
                ),
            One::of(until).fits(text, v) <==> T::parsed(text) == Some(v.deep_view()),
            One::of(until).misfits(text) <==> T::parsed(text) is None,
    {
        if One::of(until).rejects(text) && T::parsed(text) is Some {
            let w = choose|w: T|
                T::parsed(text) == Some(w.deep_view()) && #[trigger] turns_down(until, w);
            assert(call_ensures(until, (&w,), false));
        }
        if exists|w: T|
            T::parsed(text) == Some(w.deep_view()) && #[trigger] call_ensures(until, (&w,), false) {
            let w = choose|w: T|
                T::parsed(text) == Some(w.deep_view()) && #[trigger] call_ensures(
                    until,
                    (&w,),
                    false,
                );
            assert(turns_down(until, w));
        }
    }

    /// Resolving a default with the reader of one value gives what
    /// resolving it as a value of the type gives, whatever the test.
    pub proof fn lemma_resolved_by_one<T: FromInput, F: Fn(&T) -> bool>(
        default: DefaultValue<'_>,
        until: F,
        r: MenuResult<T>,
    )
        ensures
            default.resolves_by(One::of(until), r) <==> default.resolves_to(r),
    {
    }

    /// What is accepted was read from the answer: a value that an answer is
    /// accepted as is the value that the answer denotes, and one that the
    /// test may let pass.
    pub proof fn lemma_accepted_is_read<T: FromInput, F: Fn(&T) -> bool>(
        until: F,
        text: Seq<char>,
        v: T,
    )
        requires
            One::of(until).accepts(text, v),
        ensures
            T::parsed(text) == Some(v.deep_view()),
            call_ensures(until, (&v,), true),
    {
    }

    /// An answer that reads as a value cannot be rejected by a test that
    /// turns nothing down.
    pub proof fn lemma_passing_test_rejects_nothing<T: FromInput, F: Fn(&T) -> bool>(
        until: F,
        text: Seq<char>,
    )
        requires
            T::parsed(text) is Some,
            forall|v: T| !turns_down(until, v),
        ensures
            !One::of(until).rejects(text),
    {
    }

    /// A value that is written back is read back unchanged: where the first
    /// answer is what the value `v` is written as, and the test turns
    /// nothing down, the asking ends with `v`, after one prompt and one line.
    pub proof fn lemma_spelled_answer_gives_value<T: FromInput, F: Fn(&T) -> bool>(
        self,
        until: F,
        v: T::V,
        p: Seq<char>,
        lines: Seq<Seq<char>>,
        r: MenuResult<T>,
        left: Seq<Seq<char>>,
        out: Seq<char>,
    )
        requires
            lines.len() > 0,
            trimmed(lines[0]) == T::spelled(v),
            forall|w: T| !turns_down(until, w),
            self.asks(One::of(until), p, lines, r, left, out),
        ensures
            r matches Ok(w) && w.deep_view() == v,
            left == lines.skip(1),
            out == p,
    {
        let text = trimmed(lines[0]);
        T::lemma_spelled_is_read(v);
        Self::lemma_passing_test_rejects_nothing(until, text);
        self.lemma_valid_answer_accepted(One::of(until), p, lines, r, left, out);
        Self::lemma_accepted_is_read(until, text, r->Ok_0);
    }

    /// A valid answer comes back unchanged: where the first answer reads
    /// as a value and is written as the type writes its values, and the
    /// test turns nothing down, the asking ends after one prompt and one
    /// line with a value that is written as the answer was.
    pub proof fn lemma_plain_answer_comes_back<T: FromInput, F: Fn(&T) -> bool>(
        self,
        until: F,
        p: Seq<char>,
        lines: Seq<Seq<char>>,
        r: MenuResult<T>,
        left: Seq<Seq<char>>,
        out: Seq<char>,
    )
        requires
            lines.len() > 0,
            T::parsed(trimmed(lines[0])) is Some,
            T::is_plain(trimmed(lines[0])),
            forall|w: T| !turns_down(until, w),
            self.asks(One::of(until), p, lines, r, left, out),
        ensures
            r matches Ok(w) && T::spelled(w.deep_view()) == trimmed(lines[0]),
            left == lines.skip(1),
            out == p,
    {
        let text = trimmed(lines[0]);
        T::lemma_read_is_spelled(text);
        Self::lemma_passing_test_rejects_nothing(until, text);
        self.lemma_valid_answer_accepted(One::of(until), p, lines, r, left, out);
        Self::lemma_accepted_is_read(until, text, r->Ok_0);
    }

    /// The test of a field that puts no condition on its value turns no
    /// value down.
    pub proof fn lemma_keep_turns_nothing_down<T>()
        ensures
            forall|v: T| !turns_down(keep::<T>, v),
    {
        assert forall|v: T| !(#[trigger] turns_down(keep::<T>, v)) by {
            if call_ensures(keep::<T>, (&v,), false) {
                assert(false);
            }
        }
    }

    /// An answer that reads as a value of the type asked for cannot be
    /// rejected where the field puts no condition on it.
    pub proof fn lemma_keep_rejects_nothing<T: FromInput>(text: Seq<char>)
        requires
            T::parsed(text) is Some,
        ensures
            !One::of(keep::<T>).rejects(text),
    {
        Self::lemma_keep_turns_nothing_down::<T>();
        Self::lemma_passing_test_rejects_nothing(keep::<T>, text);
    }

    /// An empty answer to a field with a default gives the default, without
    /// another prompt: where the empty answer cannot be accepted, the asking
    /// ends after one prompt with what resolving the default gives. The end
    /// of the input counts as an empty answer.
    pub proof fn lemma_empty_answer_falls_back<R: Reader>(
        self,
        reader: R,
        p: Seq<char>,
        lines: Seq<Seq<char>>,
        r: MenuResult<R::Out>,
        left: Seq<Seq<char>>,
        out: Seq<char>,
    )
        requires
            self.has_default(),
            answer_text(next_line(lines)).len() == 0,
            forall|v: R::Out| !reader.accepts(Seq::<char>::empty(), v),
            self.asks(reader, p, lines, r, left, out),
        ensures
            self.details.default->0.resolves_by(reader, r),
            left == after_line(lines),
            out == p,
    {
        assert(answer_text(next_line(lines)) =~= Seq::<char>::empty());
    }
}

/// One option of a selection: a label, the value that choosing it gives,
/// and a binding that is run when it is chosen.
///
/// An option is shown as `<number><chip><label>`.
pub struct SelectField<'a, T, B> {
    /// The label of the option.
    pub msg: &'a str,
    /// The text between the number and the label (`" - "` unless set).
    pub chip: &'a str,
    /// Whether the chip was set by the owner of the option.
    pub custom_chip: bool,
    /// What is run when the option is chosen.
    pub bind: Option<B>,
    /// The value that the option stands for.
    pub inner: T,
}

impl<'a, T, B: Fn(&mut MenuStream) -> MenuResult<()>> SelectField<'a, T, B> {
    /// The option with the label `msg` that stands for `inner`.
    pub fn new(msg: &'a str, inner: T) -> (r: Self)
        ensures
            r.msg == msg,
            r.chip == " - ",
            !r.custom_chip,
            r.bind is None,
            r.inner == inner,
    {
        SelectField { msg, chip: " - ", custom_chip: false, bind: None, inner }
    }

    /// Sets the chip of the option, which it then keeps inside any menu.
    pub fn chip(self, chip: &'a str) -> (r: Self)
        ensures
            r.msg == self.msg,
            r.chip == chip,
            r.custom_chip,
            r.bind == self.bind,
            r.inner == self.inner,
    {
        let mut field = self;
        field.chip = chip;
        field.custom_chip = true;
        field
    }

    /// Gives the option the chip of its menu, unless it has one of its own.
    pub fn set_chip(&mut self, chip: &'a str)
        ensures
            final(self).chip == if old(self).custom_chip {
                old(self).chip
            } else {
                chip
            },
            final(self).msg == old(self).msg,
            final(self).custom_chip == old(self).custom_chip,
            final(self).bind == old(self).bind,
            final(self).inner == old(self).inner,
    {
        if !self.custom_chip {
            self.chip = chip;
        }
    }

    /// Sets what is run when the option is chosen.
    pub fn bind(self, bind: B) -> (r: Self)
        ensures
            r.msg == self.msg,
            r.chip == self.chip,
            r.custom_chip == self.custom_chip,
            r.bind == Some(bind),
            r.inner == self.inner,
    {
        let mut field = self;
        field.bind = Some(bind);
        field
    }

    /// Whether the binding of the option can be run.
    pub open spec fn bound(self) -> bool {
        self.bind matches Some(b) ==> forall|s: &mut MenuStream| call_requires(b, (s,))
    }

    /// Runs the binding of the option, if it has one, once, over `stream`:
    /// the result is the result of the binding, and the stream is as the
    /// binding leaves it. An option without binding leaves the stream as
    /// it is, and succeeds.
    pub fn call_bind(&self, stream: &mut MenuStream) -> (r: MenuResult<()>)
        requires
            self.bound(),
        ensures
            self.bind is None ==> r is Ok && *final(stream) == *old(stream),
            self.bind matches Some(b) ==> exists|s: &mut MenuStream|
                *s == *old(stream) && *final(s) == *final(stream) && call_ensures(b, (s,), r),
    {
        match &self.bind {
            Some(b) => b(stream),
            None => Ok(()),
        }
    }

    /// The value that the option stands for.
    pub fn select(self) -> (r: T)
        ensures
            r == self.inner,
    {
        self.inner
    }

    /// The option as it is shown behind its number.
    pub open spec fn shown(self) -> Seq<char> {
        self.chip@ + self.msg@
    }

    /// The option as it is shown behind its number.
    pub fn text(&self) -> (r: String)
        ensures
            r@ == self.shown(),
    {
        let mut out = String::from_str(self.chip);
        out.append(self.msg);
        out
    }
}

impl<'a> ValueField<'a> {
    /// The field as it stands inside a container with the format `parent`.
    pub open spec fn within(self, parent: ValueFieldFormatting<'a>) -> Self {
        ValueField {
            msg: self.msg,
            fmt: self.fmt.merged_with(parent),
            details: FieldDetails {
                example: self.details.example,
                default: self.details.default,
                show_d: self.fmt.merged_with(parent).show_default,
            },
        }
    }
}

/// A field of a container: one that asks for a written answer, or one that
/// asks for a choice among options.
pub enum Field<'a, T, B> {
    /// A field that asks for a written answer.
    Value(ValueField<'a>),
    /// A field that asks for a choice among options.
    Select(SelectMenu<'a, T, B>),
}

impl<'a, T, B: Fn(&mut MenuStream) -> MenuResult<()>> Field<'a, T, B> {
    /// The field as it stands inside a container with the format `parent`.
    pub open spec fn within(self, parent: ValueFieldFormatting<'a>) -> Self {
        match self {
            Field::Value(vf) => Field::Value(vf.within(parent)),
            Field::Select(sm) => Field::Select(sm.within(parent)),
        }
    }

    /// Fills what the format of the field leaves open from `fmt`.
    pub fn inherit_fmt(self, fmt: &ValueFieldFormatting<'a>) -> (r: Self)
        ensures
            r == self.within(*fmt),
    {
        match self {
            Field::Value(vf) => {
                let mut vf = vf;
                vf.inherit_fmt(fmt);
                Field::Value(vf)
            },
            Field::Select(sm) => {
                let mut sm = sm;
                sm.inherit_fmt(fmt);
                Field::Select(sm)
            },
        }
    }

    /// Asks the field: a written field until an answer reads as a value or
    /// the default comes in, a selection once.
    pub fn build(self, stream: &mut MenuStream) -> (r: MenuResult<T>) where T: FromInput
        requires
            self matches Field::Select(sm) ==> sm.bound(),
        ensures
            match self {
                Field::Value(vf) => old(stream).shown().is_prefix_of(final(stream).shown())
                    && vf.asks(
                    One::of(keep::<T>),
                    vf.prompt_text(),
                    old(stream).pending(),
                    r,
                    final(stream).pending(),
                    final(stream).shown().skip(old(stream).shown().len() as int),
                ),
                Field::Select(sm) => match sm.picked(next_line(old(stream).pending())) {
                    None => (r matches Err(e) && sm.fails(next_line(old(stream).pending()), e))
                        && sm.asked(*old(stream), *final(stream)),
                    Some(i) => match sm.fields@[i].bind {
                        None => r == Ok::<T, MenuError>(sm.fields@[i].inner)
                            && sm.asked(*old(stream), *final(stream)),
                        Some(b) => exists|s: &mut MenuStream, done: MenuResult<()>|
                            sm.asked(*old(stream), *s) && *final(s) == *final(stream)
                                && #[trigger] call_ensures(b, (s,), done)
                                && r == value_after(done, sm.fields@[i].inner),
                    },
                },
            },
    {
        match self {
            Field::Value(vf) => vf.build_with(stream),
            Field::Select(sm) => sm.select(stream),
        }
    }

    /// Asks a written field until an answer reads as a value that passes
    /// `w`. A selection has no such test: the field is a written one.
    pub fn build_until<F: Fn(&T) -> bool>(self, stream: &mut MenuStream, w: F) -> (r: MenuResult<
        T,
    >) where T: FromInput
        requires
            self is Value,
            forall|v: &T| call_requires(w, (v,)),
        ensures
            old(stream).shown().is_prefix_of(final(stream).shown()),
            self->Value_0.asks(
                One::of(w),
                self->Value_0.prompt_text(),
                old(stream).pending(),
                r,
                final(stream).pending(),
                final(stream).shown().skip(old(stream).shown().len() as int),
            ),
    {
        match self {
            Field::Value(vf) => vf.build_until(stream, w),
            Field::Select(_) => vstd::pervasive::unreached(),
        }
    }

    /// Asks the field once, and lets the default stand in for an answer
    /// that gives no value: of a written field its own default or that of
    /// the type, of a selection that of the type.
    pub fn build_or_default(self, stream: &mut MenuStream) -> (r: MenuResult<T>) where
        T: FromInput + Default,

        requires
            self matches Field::Select(sm) ==> sm.bound(),
        ensures
            match self {
                Field::Value(vf) => final(stream).shown() == old(stream).shown() + vf.prompt_text()
                    && final(stream).pending() == after_line(old(stream).pending())
                    && vf.gives_or_default(keep::<T>, next_line(old(stream).pending()), r),
                Field::Select(sm) => match sm.picked(next_line(old(stream).pending())) {
                    None => sm.unpicked_or_default(next_line(old(stream).pending()), r)
                        && sm.asked(*old(stream), *final(stream)),
                    Some(i) => match sm.fields@[i].bind {
                        None => r == Ok::<T, MenuError>(sm.fields@[i].inner)
                            && sm.asked(*old(stream), *final(stream)),
                        Some(b) => exists|s: &mut MenuStream, done: MenuResult<()>|
                            sm.asked(*old(stream), *s) && *final(s) == *final(stream)
                                && #[trigger] call_ensures(b, (s,), done)
                                && default_after(done, sm.fields@[i].inner, r),
                    },
                },
            },
    {
        match self {
            Field::Value(vf) => vf.build_or_default_with(stream),
            Field::Select(sm) => sm.select_or_default(stream),
        }
    }
}

/// Reads `s` as a value of the type `T`: the value that it denotes, or
/// `ParseFailure` with `s` and the name of the type where it denotes none.
pub fn parse_value<T: FromInput>(s: &str) -> (r: MenuResult<T>)
    ensures
        match r {
            Ok(v) => T::parsed(s@) == Some(v.deep_view()),
            Err(e) => T::parsed(s@) is None && e.is_parse_failure(s@, T::kind_name()),
        },
{
    match T::parse(s) {
        Some(v) => Ok(v),
        None => Err(MenuError::ParseFailure(s.to_owned(), T::type_info().to_owned())),
    }
}

impl<T: FromInput> Query<T> {
    /// What a reading comes to as one attempt: a value is accepted, a
    /// `ParseFailure` is a rejected answer, and any other error is a
    /// failure.
    pub fn of(res: MenuResult<T>) -> (q: Self)
        ensures
            match res {
                Ok(v) => q == Query::Accepted(v),
                Err(MenuError::ParseFailure(raw, _)) => q == Query::<T>::Rejected(raw),
                Err(e) => q == Query::<T>::Failed(e),
            },
    {
        match res {
            Ok(v) => Query::Accepted(v),
            Err(MenuError::ParseFailure(raw, _)) => Query::Rejected(raw),
            Err(e) => Query::Failed(e),
        }
    }

    /// The attempt as a result: a rejected answer is a `ParseFailure` with
    /// the answer and the name of the type.
    pub fn into_result(self) -> (r: MenuResult<T>)
        ensures
            match self {
                Query::Accepted(v) => r == Ok::<T, MenuError>(v),
                Query::Rejected(raw) => r matches Err(e) && e.is_parse_failure(
                    raw@,
                    T::kind_name(),
                ),
                Query::Failed(e) => r == Err::<T, MenuError>(e),
            },
    {
        match self {
            Query::Accepted(v) => Ok(v),
            Query::Rejected(raw) => Err(
                MenuError::ParseFailure(raw, T::type_info().to_owned()),
            ),
            Query::Failed(e) => Err(e),
        }
    }
}

} // verus!
