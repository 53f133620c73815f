//! The session that a menu talks over: the lines still to be read, and the
//! text shown so far.

use vstd::prelude::*;

verus! {

/// One session: answers come out of it line by line, and what is shown goes
/// into it.
#[derive(Debug)]
pub struct MenuStream {
    /// The lines still to be read, the next one last.
    rest: Vec<String>,
    output: String,
}

/// The lines of `lines` in reverse order.
fn reversed(lines: Vec<String>) -> (r: Vec<String>)
    ensures
        r@.len() == lines@.len(),
        forall|i: int| 0 <= i < r@.len() ==> r@[i] == lines@[lines@.len() - 1 - i],
{
    let mut from = lines;
    let mut to: Vec<String> = Vec::new();
    while from.len() > 0
        invariant
            from@ == lines@.take(from@.len() as int),
            from@.len() <= lines@.len(),
            to@.len() == lines@.len() - from@.len(),
            forall|i: int| 0 <= i < to@.len() ==> to@[i] == lines@[lines@.len() - 1 - i],
        decreases from@.len(),
    {
        let line = from.pop().unwrap();
        to.push(line);
    }
    to
}

impl MenuStream {
    /// The lines that are still to be read, in order.
    pub closed spec fn pending(self) -> Seq<Seq<char>> {
        Seq::new(self.rest@.len(), |i: int| self.rest@[self.rest@.len() - 1 - i]@)
    }

    /// The text shown so far.
    pub closed spec fn shown(self) -> Seq<char> {
        self.output@
    }

    /// A session in which `input` will be answered, line by line, and nothing
    /// has been shown.
    pub fn new(input: Vec<String>) -> (r: Self)
        ensures
            r.pending() == input.deep_view(),
            r.shown() == Seq::<char>::empty(),
    {
        let r = MenuStream { rest: reversed(input), output: String::new() };
        assert(r.pending() =~= input.deep_view());
        r
    }

    /// A session that goes on from what was shown before: `input` will be
    /// answered, and `output` has been shown.
    pub fn with(input: Vec<String>, output: String) -> (r: Self)
        ensures
            r.pending() == input.deep_view(),
            r.shown() == output@,
    {
        let r = MenuStream { rest: reversed(input), output };
        assert(r.pending() =~= input.deep_view());
        r
    }

    /// Takes the next line, or `None` where the input has ended.
    pub fn read_line(&mut self) -> (r: Option<String>)
        ensures
            final(self).shown() == old(self).shown(),
            match r {
                Some(line) => old(self).pending().len() > 0 && line@ == old(self).pending()[0]
                    && final(self).pending() == old(self).pending().skip(1),
                None => old(self).pending().len() == 0 && final(self).pending()
                    == old(self).pending(),
            },
    {
        let r = self.rest.pop();
        assert(final(self).pending() =~= if r is Some {
            old(self).pending().skip(1)
        } else {
            old(self).pending()
        });
        r
    }

    /// Shows `text`.
    pub fn write(&mut self, text: &str)
        ensures
            final(self).shown() == old(self).shown() + text@,
            final(self).pending() == old(self).pending(),
    {
        self.output.append(text);
    }

    /// The text shown so far.
    pub fn output(&self) -> (r: &str)
        ensures
            r@ == self.shown(),
    {
        self.output.as_str()
    }

    /// How many lines are still to be read.
    pub fn remaining(&self) -> (r: usize)
        ensures
            r == self.pending().len(),
    {
        self.rest.len()
    }

    /// Ends the session: the lines that were not read, and the text shown.
    pub fn retrieve(self) -> (r: (Vec<String>, String))
        ensures
            r.0.deep_view() == self.pending(),
            r.1@ == self.shown(),
    {
        let left = reversed(self.rest);
        assert(left.deep_view() =~= self.pending());
        (left, self.output)
    }
}

impl Default for MenuStream {
    /// A session without input, in which nothing has been shown.
    fn default() -> (r: Self)
        ensures
            r.pending() == Seq::<Seq<char>>::empty(),
            r.shown() == Seq::<char>::empty(),
    {
        let r = MenuStream { rest: Vec::new(), output: String::new() };
        assert(r.pending() =~= Seq::<Seq<char>>::empty());
        r
    }
}

/// The stream of a container: its own, or one lent to it.
#[derive(Debug)]
pub enum Stream<'a> {
    /// A stream that the container owns, and can give back.
    Owned(MenuStream),
    /// A stream that the container has on loan.
    Borrowed(&'a mut MenuStream),
}

impl<'a> Stream<'a> {
    /// The session as it stands.
    pub open spec fn session(self) -> MenuStream {
        match self {
            Stream::Owned(s) => s,
            Stream::Borrowed(s) => *s,
        }
    }

    /// The session, to read it.
    pub fn get(&self) -> (r: &MenuStream)
        ensures
            *r == self.session(),
    {
        match self {
            Stream::Owned(s) => s,
            Stream::Borrowed(s) => s,
        }
    }

    /// The session, to go on with it. A stream on loan stays the loan of
    /// the same stream.
    pub fn get_mut(&mut self) -> (r: &mut MenuStream)
        ensures
            *r == old(self).session(),
            final(self).session() == *final(r),
            *final(self) is Owned <==> *old(self) is Owned,
            *old(self) is Borrowed ==> *final(old(self)->Borrowed_0)
                == *final(final(self)->Borrowed_0),
    {
        match self {
            Stream::Owned(s) => s,
            Stream::Borrowed(s) => s,
        }
    }

    /// Gives the stream back, if the container owns it.
    pub fn retrieve(self) -> (r: MenuStream)
        requires
            self is Owned,
        ensures
            r == self.session(),
    {
        match self {
            Stream::Owned(s) => s,
            Stream::Borrowed(_) => vstd::pervasive::unreached(),
        }
    }
}

impl Default for Stream<'_> {
    /// A stream of the container's own, without input.
    fn default() -> (r: Self)
        ensures
            r is Owned,
            r.session().pending() == Seq::<Seq<char>>::empty(),
            r.session().shown() == Seq::<char>::empty(),
    {
        Stream::Owned(MenuStream::default())
    }
}

} // verus!
