//! The containers: the one that asks its fields in one format over one
//! stream, and the menu of actions with its sub-menus.
//!
//! A level of a menu is shown as its title on a line of its own, where it
//! has one, then one line `<number><chip><label>` for each field, numbered
//! from 1. The suffix is shown before every answer, and an answer gives the
//! number of a field.

use crate::error::{MenuError, MenuResult};
use crate::field::{after_line, next_line, ValueField};
use crate::format::ValueFieldFormatting;
use crate::parse::{decimal, decimal_text, FromInput};
use crate::reader::{Many, One};
use crate::select::{default_after, option_after, value_after, SelectMenu};
use crate::stream::{MenuStream, Stream};
use crate::text::{trim, trimmed};
use crate::utils::{keep, number_of, numbers, select, show};
use vstd::prelude::*;

verus! {

/// What holds a stream, and can hand it out.
pub trait Streamable: Sized {
    /// Whether the stream is the container's own.
    spec fn owns_stream(&self) -> bool;

    /// The session as it stands.
    spec fn session(&self) -> MenuStream;

    /// Gives the stream back and ends the container. A container that has
    /// its stream on loan cannot give it.
    fn take_stream(self) -> (r: MenuStream)
        requires
            self.owns_stream(),
        ensures
            r == self.session(),
    ;

    /// Gives back what is left of the stream, and ends the container: the
    /// lines that were not read, and the text shown.
    fn take_io(self) -> (r: (Vec<String>, String))
        requires
            self.owns_stream(),
        ensures
            r.0.deep_view() == self.session().pending(),
            r.1@ == self.session().shown(),
    ;

    /// The stream, to read it.
    fn get_stream(&self) -> (r: &MenuStream)
        ensures
            *r == self.session(),
    ;

    /// The stream, to go on with it.
    fn get_mut_stream(&mut self) -> (r: &mut MenuStream)
        ensures
            *r == old(self).session(),
            final(self).session() == *final(r),
    ;
}

/// The container that asks its fields over one stream, in one format: a
/// field that it asks takes from the format of the container what its own
/// format leaves open.
pub struct Values<'a> {
    /// The format of the container.
    pub fmt: ValueFieldFormatting<'a>,
    /// The stream that the fields are asked over.
    pub stream: Stream<'a>,
}

impl Default for Values<'_> {
    /// The container in the plain format with a stream of its own.
    fn default() -> (r: Self)
        ensures
            r.fmt == ValueFieldFormatting::plain(),
            r.stream is Owned,
            r.stream.session().pending() == Seq::<Seq<char>>::empty(),
            r.stream.session().shown() == Seq::<char>::empty(),
    {
        Values { fmt: ValueFieldFormatting::default(), stream: Stream::default() }
    }
}

impl<'a> From<MenuStream> for Values<'a> {
    /// The container in the plain format that owns `stream`.
    fn from(stream: MenuStream) -> (r: Self) {
        Values { fmt: ValueFieldFormatting::default(), stream: Stream::Owned(stream) }
    }
}

impl<'a> vstd::std_specs::convert::FromSpecImpl<MenuStream> for Values<'a> {
    open spec fn obeys_from_spec() -> bool {
        true
    }

    open spec fn from_spec(stream: MenuStream) -> Self {
        Values { fmt: ValueFieldFormatting::plain(), stream: Stream::Owned(stream) }
    }
}

impl<'a> Streamable for Values<'a> {
    open spec fn owns_stream(&self) -> bool {
        self.stream is Owned
    }

    open spec fn session(&self) -> MenuStream {
        self.stream.session()
    }

    fn take_stream(self) -> (r: MenuStream) {
        self.stream.retrieve()
    }

    fn take_io(self) -> (r: (Vec<String>, String)) {
        self.stream.retrieve().retrieve()
    }

    fn get_stream(&self) -> (r: &MenuStream) {
        self.stream.get()
    }

    fn get_mut_stream(&mut self) -> (r: &mut MenuStream) {
        self.stream.get_mut()
    }
}

impl<'a> Values<'a> {
    /// The container in the plain format that has `stream` on loan.
    pub fn new_borrowed(stream: &'a mut MenuStream) -> (r: Self)
        ensures
            r.fmt == ValueFieldFormatting::plain(),
            r.stream is Borrowed,
            r.stream.session() == *old(stream),
            *final(r.stream->Borrowed_0) == *final(stream),
    {
        Values { fmt: ValueFieldFormatting::default(), stream: Stream::Borrowed(stream) }
    }

    /// Sets the format of the container.
    pub fn format(self, fmt: ValueFieldFormatting<'a>) -> (r: Self)
        ensures
            r.fmt == fmt,
            r.stream == self.stream,
    {
        let mut values = self;
        values.fmt = fmt;
        values
    }

    /// Asks `sel` in the format that it has inside the container: the value
    /// of the option that the answer picks, as `SelectMenu::select` gives
    /// it.
    pub fn selected<T, B: Fn(&mut MenuStream) -> MenuResult<()>>(
        &mut self,
        sel: SelectMenu<'a, T, B>,
    ) -> (r: MenuResult<T>)
        requires
            sel.bound(),
        ensures
            final(self).fmt == old(self).fmt,
            final(self).stream is Owned <==> old(self).stream is Owned,
            old(self).stream is Borrowed ==> *final(old(self).stream->Borrowed_0)
                == *final(final(self).stream->Borrowed_0),
            ({
                let menu = sel.within(old(self).fmt);
                let then = old(self).session();
                let line = next_line(then.pending());
                match menu.picked(line) {
                    None => (r matches Err(e) && menu.fails(line, e))
                        && menu.asked(then, final(self).session()),
                    Some(i) => match sel.fields@[i].bind {
                        None => r == Ok::<T, MenuError>(sel.fields@[i].inner)
                            && menu.asked(then, final(self).session()),
                        Some(b) => exists|s: &mut MenuStream, done: MenuResult<()>|
                            menu.asked(then, *s) && *final(s) == final(self).session()
                                && #[trigger] call_ensures(b, (s,), done)
                                && r == value_after(done, sel.fields@[i].inner),
                    },
                }
            }),
    {
        let mut sel = sel;
        sel.inherit_fmt(&self.fmt);
        sel.select(self.stream.get_mut())
    }

    /// As `selected`, but an answer that picks no option, and the end of
    /// the input, give `None` and no error.
    pub fn optional_selected<T, B: Fn(&mut MenuStream) -> MenuResult<()>>(
        &mut self,
        sel: SelectMenu<'a, T, B>,
    ) -> (r: MenuResult<Option<T>>)
        requires
            sel.bound(),
        ensures
            final(self).fmt == old(self).fmt,
            final(self).stream is Owned <==> old(self).stream is Owned,
            old(self).stream is Borrowed ==> *final(old(self).stream->Borrowed_0)
                == *final(final(self).stream->Borrowed_0),
            ({
                let menu = sel.within(old(self).fmt);
                let then = old(self).session();
                let line = next_line(then.pending());
                match menu.picked(line) {
                    None => menu.unpicked_optional(line, r)
                        && menu.asked(then, final(self).session()),
                    Some(i) => match sel.fields@[i].bind {
                        None => r == Ok::<Option<T>, MenuError>(Some(sel.fields@[i].inner))
                            && menu.asked(then, final(self).session()),
                        Some(b) => exists|s: &mut MenuStream, done: MenuResult<()>|
                            menu.asked(then, *s) && *final(s) == final(self).session()
                                && #[trigger] call_ensures(b, (s,), done)
                                && r == option_after(done, sel.fields@[i].inner),
                    },
                }
            }),
    {
        let mut sel = sel;
        sel.inherit_fmt(&self.fmt);
        sel.optional_select(self.stream.get_mut())
    }

    /// As `selected`, but every failure other than a default that lies
    /// beyond the options gives the default of the type.
    pub fn selected_or_default<T: Default, B: Fn(&mut MenuStream) -> MenuResult<()>>(
        &mut self,
        sel: SelectMenu<'a, T, B>,
    ) -> (r: MenuResult<T>)
        requires
            sel.bound(),
        ensures
            final(self).fmt == old(self).fmt,
            final(self).stream is Owned <==> old(self).stream is Owned,
            old(self).stream is Borrowed ==> *final(old(self).stream->Borrowed_0)
                == *final(final(self).stream->Borrowed_0),
            ({
                let menu = sel.within(old(self).fmt);
                let then = old(self).session();
                let line = next_line(then.pending());
                match menu.picked(line) {
                    None => menu.unpicked_or_default(line, r)
                        && menu.asked(then, final(self).session()),
                    Some(i) => match sel.fields@[i].bind {
                        None => r == Ok::<T, MenuError>(sel.fields@[i].inner)
                            && menu.asked(then, final(self).session()),
                        Some(b) => exists|s: &mut MenuStream, done: MenuResult<()>|
                            menu.asked(then, *s) && *final(s) == final(self).session()
                                && #[trigger] call_ensures(b, (s,), done)
                                && default_after(done, sel.fields@[i].inner, r),
                    },
                }
            }),
    {
        let mut sel = sel;
        sel.inherit_fmt(&self.fmt);
        sel.select_or_default(self.stream.get_mut())
    }

    /// Asks `written` in the format that it has inside the container, until
    /// an answer reads as a value or an empty answer lets the default in.
    pub fn written<T: FromInput>(&mut self, written: &ValueField<'a>) -> (r: MenuResult<T>)
        ensures
            final(self).fmt == old(self).fmt,
            final(self).stream is Owned <==> old(self).stream is Owned,
            old(self).stream is Borrowed ==> *final(old(self).stream->Borrowed_0)
                == *final(final(self).stream->Borrowed_0),
            old(self).session().shown().is_prefix_of(final(self).session().shown()),
            written.asks(
                One::of(keep::<T>),
                written.prompt_text_in(old(self).fmt),
                old(self).session().pending(),
                r,
                final(self).session().pending(),
                final(self).session().shown().skip(old(self).session().shown().len() as int),
            ),
    {
        self.written_until(written, keep::<T>)
    }

    /// Asks `written` in the format that it has inside the container, until
    /// an answer reads as a value that passes `til` or an empty answer lets
    /// the default in.
    pub fn written_until<T: FromInput, F: Fn(&T) -> bool>(
        &mut self,
        written: &ValueField<'a>,
        til: F,
    ) -> (r: MenuResult<T>)
        requires
            forall|v: &T| call_requires(til, (v,)),
        ensures
            final(self).fmt == old(self).fmt,
            final(self).stream is Owned <==> old(self).stream is Owned,
            old(self).stream is Borrowed ==> *final(old(self).stream->Borrowed_0)
                == *final(final(self).stream->Borrowed_0),
            old(self).session().shown().is_prefix_of(final(self).session().shown()),
            written.asks(
                One::of(til),
                written.prompt_text_in(old(self).fmt),
                old(self).session().pending(),
                r,
                final(self).session().pending(),
                final(self).session().shown().skip(old(self).session().shown().len() as int),
            ),
    {
        let p = written.text_in(&self.fmt);
        let reader = One::new(til);
        written.ask_until(self.stream.get_mut(), p.as_str(), &reader)
    }

    /// Asks `written` once, for a value that is not owed: `None` where the
    /// answer does not read as a value and no default stands in.
    pub fn optional_written<T: FromInput>(&mut self, written: &ValueField<'a>) -> (r: MenuResult<
        Option<T>,
    >)
        ensures
            final(self).fmt == old(self).fmt,
            final(self).stream is Owned <==> old(self).stream is Owned,
            old(self).stream is Borrowed ==> *final(old(self).stream->Borrowed_0)
                == *final(final(self).stream->Borrowed_0),
            final(self).session().shown() == old(self).session().shown() + written.prompt_text_in(
                old(self).fmt,
            ),
            final(self).session().pending() == after_line(old(self).session().pending()),
            written.gives_optional(
                One::of(keep::<T>),
                next_line(old(self).session().pending()),
                r,
            ),
    {
        self.optional_written_until(written, keep::<T>)
    }

    /// Asks `written` once, for a value that is not owed: `None` where the
    /// answer does not read as a value that passes `til` and no default
    /// stands in.
    pub fn optional_written_until<T: FromInput, F: Fn(&T) -> bool>(
        &mut self,
        written: &ValueField<'a>,
        til: F,
    ) -> (r: MenuResult<Option<T>>)
        requires
            forall|v: &T| call_requires(til, (v,)),
        ensures
            final(self).fmt == old(self).fmt,
            final(self).stream is Owned <==> old(self).stream is Owned,
            old(self).stream is Borrowed ==> *final(old(self).stream->Borrowed_0)
                == *final(final(self).stream->Borrowed_0),
            final(self).session().shown() == old(self).session().shown() + written.prompt_text_in(
                old(self).fmt,
            ),
            final(self).session().pending() == after_line(old(self).session().pending()),
            written.gives_optional(One::of(til), next_line(old(self).session().pending()), r),
    {
        let p = written.text_in(&self.fmt);
        let reader = One::new(til);
        written.ask_optional(self.stream.get_mut(), p.as_str(), &reader)
    }

    /// Asks `written` for many values on one line, with `sep` between them,
    /// until every value of an answer passes `til` or an empty answer lets
    /// the default in. An answer of which one part fails is asked for again
    /// as a whole.
    pub fn many_written_until<T: FromInput, F: Fn(&T) -> bool>(
        &mut self,
        written: &ValueField<'a>,
        sep: &str,
        til: F,
    ) -> (r: MenuResult<Vec<T>>)
        requires
            forall|v: &T| call_requires(til, (v,)),
        ensures
            final(self).fmt == old(self).fmt,
            final(self).stream is Owned <==> old(self).stream is Owned,
            old(self).stream is Borrowed ==> *final(old(self).stream->Borrowed_0)
                == *final(final(self).stream->Borrowed_0),
            old(self).session().shown().is_prefix_of(final(self).session().shown()),
            written.asks(
                Many::of(sep, til),
                written.prompt_text_in(old(self).fmt),
                old(self).session().pending(),
                r,
                final(self).session().pending(),
                final(self).session().shown().skip(old(self).session().shown().len() as int),
            ),
    {
        let p = written.text_in(&self.fmt);
        let reader = Many::new(sep, til);
        written.ask_until(self.stream.get_mut(), p.as_str(), &reader)
    }

    /// Asks `written` for many values on one line, with `sep` between them,
    /// until an answer reads as values throughout or an empty answer lets
    /// the default in.
    pub fn many_written<T: FromInput>(&mut self, written: &ValueField<'a>, sep: &str) -> (r:
        MenuResult<Vec<T>>)
        ensures
            final(self).fmt == old(self).fmt,
            final(self).stream is Owned <==> old(self).stream is Owned,
            old(self).stream is Borrowed ==> *final(old(self).stream->Borrowed_0)
                == *final(final(self).stream->Borrowed_0),
            old(self).session().shown().is_prefix_of(final(self).session().shown()),
            written.asks(
                Many::of(sep, keep::<T>),
                written.prompt_text_in(old(self).fmt),
                old(self).session().pending(),
                r,
                final(self).session().pending(),
                final(self).session().shown().skip(old(self).session().shown().len() as int),
            ),
    {
        self.many_written_until(written, sep, keep::<T>)
    }

    /// Asks `written` once: the value that the answer reads as, or else the
    /// default of the field, or, where it has none, the default of the
    /// type. The only error is a default that does not fit.
    pub fn written_or_default<T: FromInput + Default>(&mut self, written: &ValueField<'a>) -> (r:
        MenuResult<T>)
        ensures
            final(self).fmt == old(self).fmt,
            final(self).stream is Owned <==> old(self).stream is Owned,
            old(self).stream is Borrowed ==> *final(old(self).stream->Borrowed_0)
                == *final(final(self).stream->Borrowed_0),
            final(self).session().shown() == old(self).session().shown() + written.prompt_text_in(
                old(self).fmt,
            ),
            final(self).session().pending() == after_line(old(self).session().pending()),
            written.gives_or_default(keep::<T>, next_line(old(self).session().pending()), r),
    {
        let p = written.text_in(&self.fmt);
        written.ask_or_default(self.stream.get_mut(), p.as_str(), keep::<T>)
    }
}

/// What choosing a field of a menu does.
pub enum Kind<'a, B> {
    /// Runs an action, which ends the menu.
    Unit(B),
    /// Opens a sub-menu with the fields given.
    Parent(&'a [(&'a str, Kind<'a, B>)]),
    /// Goes back as many levels as given: with 0 the present level is shown
    /// again, with 1 the menu that it was opened from, and so on.
    Back(usize),
    /// Ends the menu.
    Quit,
}

/// The fields of a menu: the label and the kind of each.
pub type Fields<'a, B> = &'a [(&'a str, Kind<'a, B>)];

/// How a menu ended.
#[derive(Debug, Clone, Copy, PartialEq, Eq, Structural)]
pub enum Res {
    /// The menu is done with.
    Finished,
    /// The menu goes back beyond its first level, as many levels further
    /// as given.
    Back(usize),
}

/// One level of a menu: its title, and its fields.
pub struct Level<'a, B> {
    /// The title of the level: the label of the field that opened it.
    pub title: Option<&'a str>,
    /// The fields of the level.
    pub fields: Fields<'a, B>,
}

/// What an answer does to the place in a menu.
pub enum Move<'a, B> {
    /// Nothing: the answer gives the number of no field, and is asked for
    /// again.
    Again,
    /// The place is at a level that is to be shown.
    Open,
    /// An action is to be run, which ends the menu.
    Run(&'a B),
    /// The menu has ended.
    Done(Res),
}

/// The place in a menu: the levels from the first one to the present one.
pub struct Cursor<'a, B> {
    /// The levels from the first one to the present one.
    pub path: Vec<Level<'a, B>>,
}

/// The lines of the first `k` of `fields`, each `<number><chip><label>`.
pub open spec fn level_rows<B>(
    fmt: ValueFieldFormatting<'_>,
    fields: Seq<(&str, Kind<'_, B>)>,
    k: int,
) -> Seq<char>
    decreases k,
{
    if k <= 0 {
        Seq::empty()
    } else {
        level_rows(fmt, fields, k - 1) + (decimal(k as nat) + fmt.option_chip()@
            + fields[k - 1].0@ + "\n"@)
    }
}

/// One level of a menu as it is shown: the title on a line of its own,
/// where there is one, and the lines of the fields.
pub open spec fn level_text<B>(
    fmt: ValueFieldFormatting<'_>,
    msg: Option<&str>,
    fields: Seq<(&str, Kind<'_, B>)>,
) -> Seq<char> {
    (match msg {
        Some(m) => m@ + "\n"@,
        None => Seq::empty(),
    }) + level_rows(fmt, fields, fields.len() as int)
}

/// One level of a menu as it is shown.
pub fn level<B>(msg: Option<&str>, fields: Fields<'_, B>, fmt: &ValueFieldFormatting<'_>) -> (r:
    String)
    ensures
        r@ == level_text(*fmt, msg, fields@),
{
    let mut out = String::new();
    match msg {
        Some(m) => {
            out.append(m);
            out.append("\n");
        },
        None => {},
    }
    let ghost head = out@;
    let n = fields.len();
    let mut i: usize = 0;
    while i < n
        invariant
            i <= n,
            n == fields@.len(),
            out@ == head + level_rows(*fmt, fields@, i as int),
        decreases n - i,
    {
        let ghost before = out@;
        out.append(decimal_text(i + 1).as_str());
        out.append(fmt.chip_of_option());
        out.append(fields[i].0);
        out.append("\n");
        assert(out@ =~= before + (decimal((i + 1) as nat) + fmt.option_chip()@
            + fields@[i as int].0@ + "\n"@));
        assert(out@ =~= head + level_rows(*fmt, fields@, i + 1));
        i += 1;
    }
    out
}

/// The place that choosing the field at `i` of the present level leads to,
/// and what it does. An action and `Quit` end the menu. A sub-menu becomes
/// the present level. To go back 0 levels is to show the present level
/// again; to go back further leads to the level so many above, or ends the
/// menu where there are not so many.
pub open spec fn entered<'a, B>(path: Seq<Level<'a, B>>, i: int) -> (
    Seq<Level<'a, B>>,
    Move<'a, B>,
) {
    let fields = path.last().fields;
    match fields@[i].1 {
        Kind::Unit(b) => (path, Move::Run(&b)),
        Kind::Quit => (path, Move::Done(Res::Finished)),
        Kind::Parent(sub) => (
            path.push(Level { title: Some(fields@[i].0), fields: sub }),
            Move::Open,
        ),
        Kind::Back(k) => if k < path.len() {
            (path.take(path.len() - k), Move::Open)
        } else {
            (path, Move::Done(Res::Back((k - path.len()) as usize)))
        },
    }
}

/// The place that the answer `text` leads to, and what it does: what the
/// field does that the answer gives the number of, and nothing where it
/// gives the number of none.
pub open spec fn answered<'a, B>(path: Seq<Level<'a, B>>, text: Seq<char>) -> (
    Seq<Level<'a, B>>,
    Move<'a, B>,
) {
    match numbers(path.last().fields@.len(), text) {
        Some(i) => entered(path, i),
        None => (path, Move::Again),
    }
}

impl<'a, B> Cursor<'a, B> {
    /// Whether the place is in a menu: at one level at least.
    pub open spec fn wf(self) -> bool {
        self.path@.len() > 0
    }

    /// The place at the first level of the menu with the title `title` and
    /// the fields `fields`.
    pub fn new(title: Option<&'a str>, fields: Fields<'a, B>) -> (r: Self)
        ensures
            r.wf(),
            r.path@ == seq![(Level { title, fields })],
    {
        let mut path: Vec<Level<'a, B>> = Vec::new();
        path.push(Level { title, fields });
        assert(path@ =~= seq![(Level { title, fields })]);
        Cursor { path }
    }

    /// The present level as it is shown.
    pub open spec fn shown(self, fmt: ValueFieldFormatting<'_>) -> Seq<char> {
        level_text(fmt, self.path@.last().title, self.path@.last().fields@)
    }

    /// The present level as it is shown.
    pub fn text(&self, fmt: &ValueFieldFormatting<'_>) -> (r: String)
        requires
            self.wf(),
        ensures
            r@ == self.shown(*fmt),
    {
        let top = &self.path[self.path.len() - 1];
        level(top.title, top.fields, fmt)
    }

    /// How many fields the present level has.
    pub fn count(&self) -> (r: usize)
        requires
            self.wf(),
        ensures
            r == self.path@.last().fields@.len(),
    {
        self.path[self.path.len() - 1].fields.len()
    }

    /// Chooses the field at `i` of the present level.
    pub fn enter(&mut self, i: usize) -> (m: Move<'a, B>)
        requires
            old(self).wf(),
            i < old(self).path@.last().fields@.len(),
        ensures
            final(self).wf(),
            (final(self).path@, m) == entered(old(self).path@, i as int),
    {
        let n = self.path.len();
        let fields: Fields<'a, B> = self.path[n - 1].fields;
        match &fields[i].1 {
            Kind::Unit(b) => Move::Run(b),
            Kind::Quit => Move::Done(Res::Finished),
            Kind::Parent(sub) => {
                self.path.push(Level { title: Some(fields[i].0), fields: *sub });
                Move::Open
            },
            Kind::Back(k) => {
                if *k < n {
                    self.path.truncate(n - *k);
                    assert(self.path@ =~= old(self).path@.take(n - *k));
                    Move::Open
                } else {
                    Move::Done(Res::Back(*k - n))
                }
            },
        }
    }

    /// Takes the answer `line`: chooses the field that the answer gives
    /// the number of, white space aside.
    pub fn answer(&mut self, line: &str) -> (m: Move<'a, B>)
        requires
            old(self).wf(),
        ensures
            final(self).wf(),
            (final(self).path@, m) == answered(old(self).path@, trimmed(line@)),
    {
        match number_of(trim(line), self.count()) {
            Some(i) => self.enter(i),
            None => Move::Again,
        }
    }
}

/// Where the way through a menu ends.
pub enum Stop<B> {
    /// At an action, which is to be run.
    Unit(B),
    /// At the end of the menu.
    Done(Res),
    /// At the end of the input, before any end of the menu.
    Starved,
}

/// The way through a menu: where it ends, how many lines it takes, and what
/// it shows.
pub struct Walk<B> {
    /// Where the way ends.
    pub stop: Stop<B>,
    /// How many lines the way takes.
    pub used: nat,
    /// What is shown on the way.
    pub out: Seq<char>,
}

/// The way `w`, gone after `used` lines were read and `out` was shown.
pub open spec fn after<B>(used: nat, out: Seq<char>, w: Walk<B>) -> Walk<B> {
    Walk { stop: w.stop, used: used + w.used, out: out + w.out }
}

/// The way through a menu from the place `path`, over a session in which
/// `lines` are still to be read. The suffix is shown before every answer;
/// an answer leads to the place that `answered` gives, and the level of a
/// place that was opened is shown. The way ends at an action, at an end of
/// the menu, or with the input.
pub open spec fn prompts<'a, B>(
    fmt: ValueFieldFormatting<'_>,
    path: Seq<Level<'a, B>>,
    lines: Seq<Seq<char>>,
) -> Walk<B>
    decreases lines.len(),
{
    if lines.len() == 0 {
        Walk { stop: Stop::Starved, used: 0, out: fmt.suffix@ }
    } else {
        let (next, m) = answered(path, trimmed(lines[0]));
        match m {
            Move::Again => after(1, fmt.suffix@, prompts(fmt, path, lines.skip(1))),
            Move::Open => after(
                1,
                fmt.suffix@ + level_text(fmt, next.last().title, next.last().fields@),
                prompts(fmt, next, lines.skip(1)),
            ),
            Move::Run(b) => Walk { stop: Stop::Unit(*b), used: 1, out: fmt.suffix@ },
            Move::Done(res) => Walk { stop: Stop::Done(res), used: 1, out: fmt.suffix@ },
        }
    }
}

/// The way through the menu with the title `msg` and the fields `fields`,
/// from its first level, which is shown first.
pub open spec fn walk<'a, B>(
    fmt: ValueFieldFormatting<'_>,
    msg: Option<&'a str>,
    fields: Fields<'a, B>,
    lines: Seq<Seq<char>>,
) -> Walk<B> {
    after(
        0,
        level_text(fmt, msg, fields@),
        prompts(fmt, seq![(Level { title: msg, fields })], lines),
    )
}

/// Whether `b` is an action of `fields`, or of a sub-menu that lies no more
/// than `depth` levels below them.
pub open spec fn has_action<'a, B>(fields: Seq<(&'a str, Kind<'a, B>)>, b: B, depth: nat) -> bool
    decreases depth,
{
    exists|i: int|
        0 <= i < fields.len() && match (#[trigger] fields[i]).1 {
            Kind::Unit(a) => a == b,
            Kind::Parent(sub) => depth > 0 && has_action(sub@, b, (depth - 1) as nat),
            _ => false,
        }
}

/// Whether every action of `fields`, and of the sub-menus below them, can be
/// run over every stream.
pub open spec fn runnable<'a, B: Fn(&mut MenuStream) -> MenuResult<()>>(
    fields: Seq<(&'a str, Kind<'a, B>)>,
) -> bool {
    forall|b: B, depth: nat| #[trigger]
        has_action(fields, b, depth) ==> forall|s: &mut MenuStream| call_requires(b, (s,))
}

/// A way from a place in a menu ends at no action but those of the menu,
/// where the levels of the place hold no action but those of the menu.
proof fn lemma_prompts_end_at_own_action<'a, B>(
    fmt: ValueFieldFormatting<'_>,
    root: Seq<(&'a str, Kind<'a, B>)>,
    path: Seq<Level<'a, B>>,
    lines: Seq<Seq<char>>,
)
    requires
        path.len() > 0,
        forall|k: int, b: B, d: nat|
            0 <= k < path.len() && #[trigger] has_action(path[k].fields@, b, d) ==> exists|
                depth: nat,
            | has_action(root, b, depth),
    ensures
        prompts(fmt, path, lines).stop matches Stop::Unit(b) ==> exists|depth: nat|
            has_action(root, b, depth),
    decreases lines.len(),
{
    if lines.len() > 0 {
        let last = path.len() - 1;
        let fields = path[last].fields;
        let rest = lines.skip(1);
        let stop = prompts(fmt, path, lines).stop;
        match numbers(fields@.len(), trimmed(lines[0])) {
            None => {
                lemma_prompts_end_at_own_action(fmt, root, path, rest);
            },
            Some(i) => {
                let (next, m) = entered(path, i);
                match fields@[i].1 {
                    Kind::Unit(b) => {
                        assert(has_action(path[last].fields@, b, 0));
                        let depth = choose|depth: nat| has_action(root, b, depth);
                        assert(stop->Unit_0 == b);
                        assert(has_action(root, stop->Unit_0, depth));
                    },
                    Kind::Quit => {},
                    Kind::Parent(sub) => {
                        assert forall|k: int, b: B, d: nat|
                            0 <= k < next.len() && #[trigger] has_action(
                                next[k].fields@,
                                b,
                                d,
                            ) implies exists|depth: nat| has_action(root, b, depth) by {
                            if k == path.len() {
                                assert(has_action(path[last].fields@, b, d + 1));
                            } else {
                                assert(has_action(path[k].fields@, b, d));
                            }
                        }
                        lemma_prompts_end_at_own_action(fmt, root, next, rest);
                    },
                    Kind::Back(k) => {
                        if k < path.len() {
                            assert forall|j: int, b: B, d: nat|
                                0 <= j < next.len() && #[trigger] has_action(
                                    next[j].fields@,
                                    b,
                                    d,
                                ) implies exists|depth: nat| has_action(root, b, depth) by {
                                assert(has_action(path[j].fields@, b, d));
                            }
                            lemma_prompts_end_at_own_action(fmt, root, next, rest);
                        }
                    },
                }
            },
        }
    }
}

/// The way through a menu ends at no action but those of the menu.
pub proof fn lemma_way_ends_at_own_action<'a, B>(
    fmt: ValueFieldFormatting<'_>,
    msg: Option<&'a str>,
    fields: Fields<'a, B>,
    lines: Seq<Seq<char>>,
)
    ensures
        walk(fmt, msg, fields, lines).stop matches Stop::Unit(b) ==> exists|depth: nat|
            has_action(fields@, b, depth),
{
    let path = seq![(Level { title: msg, fields })];
    assert(path[0].fields == fields);
    lemma_prompts_end_at_own_action(fmt, fields@, path, lines);
}

/// The way through a menu whose actions can all be run ends at no action
/// but one that can be run, whatever the lines are.
pub proof fn lemma_runnable_way<'a, B: Fn(&mut MenuStream) -> MenuResult<()>>(
    fmt: ValueFieldFormatting<'_>,
    msg: Option<&'a str>,
    fields: Fields<'a, B>,
    lines: Seq<Seq<char>>,
)
    requires
        runnable(fields@),
    ensures
        walk(fmt, msg, fields, lines).stop matches Stop::Unit(b) ==> forall|s: &mut MenuStream|
            call_requires(b, (s,)),
{
    lemma_way_ends_at_own_action(fmt, msg, fields, lines);
}

/// What is found at the end of a way through a menu.
pub enum Found<'a, B> {
    /// An action, which is to be run.
    Unit(&'a B),
    /// The end of the menu.
    Done(Res),
}

/// Goes the way through the menu with the title `msg` and the fields
/// `fields`: shows what the way shows, reads the lines that it takes, and
/// gives what it ends at, or `NoMoreInput` where the input ends first.
pub fn walk_to<'a, B>(
    msg: Option<&'a str>,
    stream: &mut MenuStream,
    fields: Fields<'a, B>,
    fmt: &ValueFieldFormatting<'_>,
) -> (r: MenuResult<Found<'a, B>>)
    ensures
        walk(*fmt, msg, fields, old(stream).pending()).used <= old(stream).pending().len(),
        final(stream).shown() == old(stream).shown() + walk(
            *fmt,
            msg,
            fields,
            old(stream).pending(),
        ).out,
        final(stream).pending() == old(stream).pending().skip(
            walk(*fmt, msg, fields, old(stream).pending()).used as int,
        ),
        match r {
            Ok(Found::Unit(b)) => walk(*fmt, msg, fields, old(stream).pending()).stop
                == Stop::Unit(*b),
            Ok(Found::Done(res)) => walk(*fmt, msg, fields, old(stream).pending()).stop
                == Stop::<B>::Done(res),
            Err(e) => walk(*fmt, msg, fields, old(stream).pending()).stop is Starved
                && e is NoMoreInput,
        },
{
    let ghost lines0 = stream.pending();
    let ghost shown0 = stream.shown();
    let ghost whole = walk(*fmt, msg, fields, lines0);
    let mut cursor = Cursor::new(msg, fields);
    show(cursor.text(fmt).as_str(), stream);
    let ghost mut used: nat = 0;
    let ghost mut out: Seq<char> = level_text(*fmt, msg, fields@);
    proof {
        assert(lines0.skip(0) =~= lines0);
    }
    loop
        invariant
            lines0 == old(stream).pending(),
            shown0 == old(stream).shown(),
            whole == walk(*fmt, msg, fields, lines0),
            cursor.wf(),
            used <= lines0.len(),
            stream.pending() == lines0.skip(used as int),
            stream.shown() == shown0 + out,
            whole.stop == prompts(*fmt, cursor.path@, stream.pending()).stop,
            whole.used == used + prompts(*fmt, cursor.path@, stream.pending()).used,
            whole.out == out + prompts(*fmt, cursor.path@, stream.pending()).out,
        decreases stream.pending().len(),
    {
        let ghost cur = stream.pending();
        let ghost path = cursor.path@;
        let ghost here = prompts(*fmt, path, cur);
        let chosen = match select(stream, fmt.suffix, None, cursor.count()) {
            Ok(chosen) => chosen,
            Err(e) => {
                proof {
                    assert(stream.shown() =~= shown0 + (out + here.out));
                    assert(lines0.skip(used as int).skip(0) =~= lines0.skip(used as int));
                }
                return Err(e);
            },
        };
        proof {
            assert(cur.skip(1) =~= lines0.skip((used + 1) as int));
            assert(stream.shown() =~= shown0 + (out + fmt.suffix@));
        }
        let m = match chosen {
            Some(i) => cursor.enter(i),
            None => Move::Again,
        };
        assert((cursor.path@, m) == answered(path, trimmed(cur[0])));
        match m {
            Move::Again => {
                proof {
                    let next = prompts(*fmt, path, cur.skip(1));
                    assert(out + (fmt.suffix@ + next.out) =~= (out + fmt.suffix@) + next.out);
                    used = used + 1;
                    out = out + fmt.suffix@;
                }
            },
            Move::Open => {
                let ghost opened = level_text(
                    *fmt,
                    cursor.path@.last().title,
                    cursor.path@.last().fields@,
                );
                show(cursor.text(fmt).as_str(), stream);
                proof {
                    let next = prompts(*fmt, cursor.path@, cur.skip(1));
                    assert(out + ((fmt.suffix@ + opened) + next.out) =~= (out + fmt.suffix@
                        + opened) + next.out);
                    assert(stream.shown() =~= shown0 + (out + fmt.suffix@ + opened));
                    used = used + 1;
                    out = out + fmt.suffix@ + opened;
                }
            },
            Move::Run(b) => {
                return Ok(Found::Unit(b));
            },
            Move::Done(res) => {
                return Ok(Found::Done(res));
            },
        }
    }
}

/// What a menu ends with where its way ended at an action that gave `done`:
/// `Finished` where the action succeeded, and the error of the action where
/// it failed.
pub open spec fn after_action(done: MenuResult<()>) -> MenuResult<Res> {
    match done {
        Ok(_) => Ok(Res::Finished),
        Err(e) => Err(e),
    }
}

/// Ends a menu whose way ended at an action that gave `done`.
pub fn finished(done: MenuResult<()>) -> (r: MenuResult<Res>)
    ensures
        r == after_action(done),
{
    match done {
        Ok(_) => Ok(Res::Finished),
        Err(e) => Err(e),
    }
}

/// What running a menu gives where its way ended at an action that gave
/// `done`: success where the action succeeded, and the error of the action
/// where it failed.
pub open spec fn run_after(done: MenuResult<()>) -> MenuResult<()> {
    match done {
        Ok(_) => Ok(()),
        Err(e) => Err(e),
    }
}

/// Whether the session `now` is the session `then` after the way `w` was
/// gone: what the way shows was shown, and the lines that it takes were
/// read.
pub open spec fn gone<B>(then: MenuStream, w: Walk<B>, now: MenuStream) -> bool {
    now.shown() == then.shown() + w.out && now.pending() == then.pending().skip(w.used as int)
}

/// Goes the way through the menu with the title `msg` and the fields
/// `fields`, and runs the action that the way ends at, if it ends at one:
/// once, over the stream as the way leaves it. The result is how the menu
/// ended, or the error of the action, or `NoMoreInput` where the input
/// ended first. The action that the way ends at is one that can be run:
/// where every action of the menu can be run, `lemma_runnable_way` shows so
/// whatever the lines are.
pub fn run_with<'a, B: Fn(&mut MenuStream) -> MenuResult<()>>(
    msg: Option<&'a str>,
    stream: &mut MenuStream,
    fields: Fields<'a, B>,
    fmt: &ValueFieldFormatting<'_>,
) -> (r: MenuResult<Res>)
    requires
        walk(*fmt, msg, fields, old(stream).pending()).stop matches Stop::Unit(b) ==> forall|
            s: &mut MenuStream,
        | call_requires(b, (s,)),
    ensures
        match walk(*fmt, msg, fields, old(stream).pending()).stop {
            Stop::Unit(b) => exists|s: &mut MenuStream, done: MenuResult<()>|
                gone(*old(stream), walk(*fmt, msg, fields, old(stream).pending()), *s) && *final(s)
                    == *final(stream) && #[trigger] call_ensures(b, (s,), done) && r
                    == after_action(done),
            Stop::Done(res) => r == Ok::<Res, MenuError>(res) && gone(
                *old(stream),
                walk(*fmt, msg, fields, old(stream).pending()),
                *final(stream),
            ),
            Stop::Starved => (r matches Err(e) && e is NoMoreInput) && gone(
                *old(stream),
                walk(*fmt, msg, fields, old(stream).pending()),
                *final(stream),
            ),
        },
{
    let ghost way = walk(*fmt, msg, fields, stream.pending());
    match walk_to(msg, stream, fields, fmt) {
        Err(e) => Err(e),
        Ok(Found::Done(res)) => Ok(res),
        Ok(Found::Unit(b)) => {
            assert(way.stop == Stop::Unit(*b));
            assert(way.stop matches Stop::Unit(a) && a == *b);
            assert(forall|s: &mut MenuStream| call_requires(*b, (s,)));
            let done = b(stream);
            finished(done)
        },
    }
}

/// A menu of actions: choosing a field runs an action, opens a sub-menu,
/// goes back, or ends the menu.
pub struct Menu<'a, B> {
    /// The format of the menu.
    pub fmt: ValueFieldFormatting<'a>,
    /// The title above the fields.
    pub title: Option<&'a str>,
    /// The fields of the menu.
    pub fields: Fields<'a, B>,
    /// The stream that the menu is run over.
    pub stream: Stream<'a>,
}

impl<'a, B: Fn(&mut MenuStream) -> MenuResult<()>> Streamable for Menu<'a, B> {
    open spec fn owns_stream(&self) -> bool {
        self.stream is Owned
    }

    open spec fn session(&self) -> MenuStream {
        self.stream.session()
    }

    fn take_stream(self) -> (r: MenuStream) {
        self.stream.retrieve()
    }

    fn take_io(self) -> (r: (Vec<String>, String)) {
        self.stream.retrieve().retrieve()
    }

    fn get_stream(&self) -> (r: &MenuStream) {
        self.stream.get()
    }

    fn get_mut_stream(&mut self) -> (r: &mut MenuStream) {
        self.stream.get_mut()
    }
}

impl<'a, B: Fn(&mut MenuStream) -> MenuResult<()>> Menu<'a, B> {
    fn inner_new(stream: Stream<'a>, fields: Fields<'a, B>) -> (r: Self)
        ensures
            r.fmt == ValueFieldFormatting::plain(),
            r.title is None,
            r.fields == fields,
            r.stream == stream,
    {
        Menu { title: None, fields, stream, fmt: ValueFieldFormatting::default() }
    }

    /// The menu with the fields `fields`, in the plain format and without
    /// title, that owns `stream`.
    pub fn new_owned(stream: MenuStream, fields: Fields<'a, B>) -> (r: Self)
        ensures
            r.fmt == ValueFieldFormatting::plain(),
            r.title is None,
            r.fields == fields,
            r.stream == Stream::Owned(stream),
    {
        Self::inner_new(Stream::Owned(stream), fields)
    }

    /// The menu with the fields `fields`, in the plain format and without
    /// title, that has `stream` on loan.
    pub fn new_borrowed(stream: &'a mut MenuStream, fields: Fields<'a, B>) -> (r: Self)
        ensures
            r.fmt == ValueFieldFormatting::plain(),
            r.title is None,
            r.fields == fields,
            r.stream is Borrowed,
            r.stream.session() == *old(stream),
            *final(r.stream->Borrowed_0) == *final(stream),
    {
        Menu {
            title: None,
            fields,
            stream: Stream::Borrowed(stream),
            fmt: ValueFieldFormatting::default(),
        }
    }

    /// Sets the format of the menu.
    pub fn format(self, fmt: ValueFieldFormatting<'a>) -> (r: Self)
        ensures
            r.fmt == fmt,
            r.title == self.title,
            r.fields == self.fields,
            r.stream == self.stream,
    {
        let mut menu = self;
        menu.fmt = fmt;
        menu
    }

    /// Sets the title of the menu.
    pub fn title(self, title: &'a str) -> (r: Self)
        ensures
            r.fmt == self.fmt,
            r.title == Some(title),
            r.fields == self.fields,
            r.stream == self.stream,
    {
        let mut menu = self;
        menu.title = Some(title);
        menu
    }

    /// The first level of the menu as it is shown.
    pub fn text(&self) -> (r: String)
        ensures
            r@ == level_text(self.fmt, self.title, self.fields@),
    {
        level(self.title, self.fields, &self.fmt)
    }

    /// The way through the menu over the lines that are still to be read.
    pub open spec fn way(self) -> Walk<B> {
        walk(self.fmt, self.title, self.fields, self.stream.session().pending())
    }

    /// Runs the menu: goes the way through it, and runs the action that
    /// the way ends at, once, over the stream as the way leaves it; the
    /// result of the action is then the result. Going back from the first
    /// level ends the menu as `Quit` does. The action that the way ends at
    /// is one that can be run: where every action of the menu can be run,
    /// `lemma_runnable_way` shows so whatever the lines are.
    pub fn run(&mut self) -> (r: MenuResult<()>)
        requires
            old(self).way().stop matches Stop::Unit(b) ==> forall|s: &mut MenuStream|
                call_requires(b, (s,)),
        ensures
            final(self).fmt == old(self).fmt,
            final(self).title == old(self).title,
            final(self).fields == old(self).fields,
            final(self).stream is Owned <==> old(self).stream is Owned,
            old(self).stream is Borrowed ==> *final(old(self).stream->Borrowed_0)
                == *final(final(self).stream->Borrowed_0),
            match old(self).way().stop {
                Stop::Unit(b) => exists|s: &mut MenuStream, done: MenuResult<()>|
                    gone(old(self).stream.session(), old(self).way(), *s) && *final(s)
                        == final(self).stream.session() && #[trigger] call_ensures(b, (s,), done)
                        && r == run_after(done),
                Stop::Done(_) => r is Ok && gone(
                    old(self).stream.session(),
                    old(self).way(),
                    final(self).stream.session(),
                ),
                Stop::Starved => (r matches Err(e) && e is NoMoreInput) && gone(
                    old(self).stream.session(),
                    old(self).way(),
                    final(self).stream.session(),
                ),
            },
    {
        let ghost way = self.way();
        let ghost then = self.stream.session();
        let ended = run_with(self.title, self.stream.get_mut(), self.fields, &self.fmt);
        let r = match ended {
            Ok(_) => Ok(()),
            Err(e) => Err(e),
        };
        proof {
            if way.stop is Unit {
                let b = way.stop->Unit_0;
                let (s, done) = choose|s: &mut MenuStream, done: MenuResult<()>|
                    gone(then, way, *s) && *final(s) == self.stream.session()
                        && #[trigger] call_ensures(b, (s,), done) && ended == after_action(done);
                assert(r == run_after(done));
            }
        }
        r
    }
}

} // verus!
