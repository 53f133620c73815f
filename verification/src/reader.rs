//! The ways of reading an answer: as one value, or as many values between
//! separators, each put to a test of the caller's.
//!
//! A test is any function from a value to `bool`. What it returns is its own
//! affair: the contracts here say what follows from either answer.

use crate::parse::FromInput;
use crate::text::{parts, split};
use core::marker::PhantomData;
use vstd::prelude::*;

verus! {

/// Whether the test `until` may let `v` pass.
pub open spec fn lets_pass<T, F: Fn(&T) -> bool>(until: F, v: T) -> bool {
    call_ensures(until, (&v,), true)
}

/// Whether the test `until` may turn `v` down.
pub open spec fn turns_down<T, F: Fn(&T) -> bool>(until: F, v: T) -> bool {
    call_ensures(until, (&v,), false)
}

/// Whether the answer `text` may be accepted as `v`: it reads as `v`, and
/// the test may let `v` pass.
pub open spec fn may_accept<T: FromInput, F: Fn(&T) -> bool>(
    until: F,
    text: Seq<char>,
    v: T,
) -> bool {
    T::parsed(text) == Some(v.deep_view()) && lets_pass(until, v)
}

/// Whether the answer `text` may be rejected: it reads as no value, or as
/// one that the test may turn down.
pub open spec fn may_reject<T: FromInput, F: Fn(&T) -> bool>(until: F, text: Seq<char>) -> bool {
    T::parsed(text) is None || exists|v: T|
        T::parsed(text) == Some(v.deep_view()) && #[trigger] turns_down(until, v)
}

/// A way of reading an answer as a value.
pub trait Reader {
    /// What an answer is read as.
    type Out;

    /// Whether the reader can be used: its test can be put to every value.
    spec fn ready(&self) -> bool;

    /// Whether the answer `text` may be accepted as `v`.
    spec fn accepts(&self, text: Seq<char>, v: Self::Out) -> bool;

    /// Whether the answer `text` may be rejected.
    spec fn rejects(&self, text: Seq<char>) -> bool;

    /// Whether the default `text` denotes `v`. A default is put to no test.
    spec fn fits(&self, text: Seq<char>, v: Self::Out) -> bool;

    /// Whether the default `text` denotes no value.
    spec fn misfits(&self, text: Seq<char>) -> bool;

    /// Reads the answer `text`: the value it is accepted as, or `None`
    /// where it is rejected.
    fn read(&self, text: &str) -> (r: Option<Self::Out>)
        requires
            self.ready(),
        ensures
            match r {
                Some(v) => self.accepts(text@, v),
                None => self.rejects(text@),
            },
    ;

    /// Reads the default `text`: the value it denotes, or `None` where it
    /// denotes none.
    fn read_default(&self, text: &str) -> (r: Option<Self::Out>)
        ensures
            match r {
                Some(v) => self.fits(text@, v),
                None => self.misfits(text@),
            },
    ;
}

/// Reads an answer as one value of the type `T`, and puts the value to the
/// test `until`.
pub struct One<T, F> {
    /// The test that an accepted value has passed.
    pub until: F,
    /// The type that answers are read as.
    pub kind: PhantomData<T>,
}

impl<T: FromInput, F: Fn(&T) -> bool> One<T, F> {
    /// The reader of one value that passes `until`.
    pub open spec fn of(until: F) -> Self {
        One { until, kind: PhantomData }
    }

    /// The reader of one value that passes `until`.
    pub fn new(until: F) -> (r: Self)
        ensures
            r == Self::of(until),
    {
        One { until, kind: PhantomData }
    }
}

impl<T: FromInput, F: Fn(&T) -> bool> Reader for One<T, F> {
    type Out = T;

    open spec fn ready(&self) -> bool {
        forall|v: &T| call_requires(self.until, (v,))
    }

    open spec fn accepts(&self, text: Seq<char>, v: T) -> bool {
        may_accept(self.until, text, v)
    }

    open spec fn rejects(&self, text: Seq<char>) -> bool {
        may_reject::<T, F>(self.until, text)
    }

    open spec fn fits(&self, text: Seq<char>, v: T) -> bool {
        T::parsed(text) == Some(v.deep_view())
    }

    open spec fn misfits(&self, text: Seq<char>) -> bool {
        T::parsed(text) is None
    }

    fn read(&self, text: &str) -> (r: Option<T>) {
        match T::parse(text) {
            Some(v) => {
                if (self.until)(&v) {
                    Some(v)
                } else {
                    assert(turns_down(self.until, v));
                    None
                }
            },
            None => None,
        }
    }

    fn read_default(&self, text: &str) -> (r: Option<T>) {
        T::parse(text)
    }
}

/// Whether the parts `tokens` may be accepted as the values `vs`, part by
/// part.
pub open spec fn may_accept_each<T: FromInput, F: Fn(&T) -> bool>(
    until: F,
    tokens: Seq<Seq<char>>,
    vs: Seq<T>,
) -> bool {
    vs.len() == tokens.len() && forall|i: int|
        0 <= i < tokens.len() ==> may_accept(until, tokens[i], #[trigger] vs[i])
}

/// Whether one of the parts `tokens` may be rejected.
pub open spec fn may_reject_any<T: FromInput, F: Fn(&T) -> bool>(
    until: F,
    tokens: Seq<Seq<char>>,
) -> bool {
    exists|i: int| 0 <= i < tokens.len() && may_reject::<T, F>(until, #[trigger] tokens[i])
}

/// Whether the parts `tokens` denote the values `vs`, part by part.
pub open spec fn each_denotes<T: FromInput>(tokens: Seq<Seq<char>>, vs: Seq<T>) -> bool {
    vs.len() == tokens.len() && forall|i: int|
        0 <= i < tokens.len() ==> T::parsed(tokens[i]) == Some((#[trigger] vs[i]).deep_view())
}

/// Whether one of the parts `tokens` denotes no value.
pub open spec fn any_denotes_none<T: FromInput>(tokens: Seq<Seq<char>>) -> bool {
    exists|i: int| 0 <= i < tokens.len() && T::parsed(#[trigger] tokens[i]) is None
}

/// Reads an answer as many values of the type `T`, written with the
/// separator `sep` between them, and puts each value to the test `until`.
/// The answer is accepted only where every part is.
pub struct Many<'s, T, F> {
    /// The separator between two values.
    pub sep: &'s str,
    /// The test that every accepted value has passed.
    pub until: F,
    /// The type that the parts of an answer are read as.
    pub kind: PhantomData<T>,
}

impl<'s, T: FromInput, F: Fn(&T) -> bool> Many<'s, T, F> {
    /// The reader of values between `sep` that pass `until`.
    pub open spec fn of(sep: &'s str, until: F) -> Self {
        Many { sep, until, kind: PhantomData }
    }

    /// The reader of values between `sep` that pass `until`.
    pub fn new(sep: &'s str, until: F) -> (r: Self)
        ensures
            r == Self::of(sep, until),
    {
        Many { sep, until, kind: PhantomData }
    }
}

impl<'s, T: FromInput, F: Fn(&T) -> bool> Reader for Many<'s, T, F> {
    type Out = Vec<T>;

    open spec fn ready(&self) -> bool {
        forall|v: &T| call_requires(self.until, (v,))
    }

    open spec fn accepts(&self, text: Seq<char>, vs: Vec<T>) -> bool {
        may_accept_each(self.until, parts(text, self.sep@), vs@)
    }

    open spec fn rejects(&self, text: Seq<char>) -> bool {
        may_reject_any::<T, F>(self.until, parts(text, self.sep@))
    }

    open spec fn fits(&self, text: Seq<char>, vs: Vec<T>) -> bool {
        each_denotes(parts(text, self.sep@), vs@)
    }

    open spec fn misfits(&self, text: Seq<char>) -> bool {
        any_denotes_none::<T>(parts(text, self.sep@))
    }

    fn read(&self, text: &str) -> (r: Option<Vec<T>>) {
        let tokens = split(text, self.sep);
        let ghost want = parts(text@, self.sep@);
        let mut out: Vec<T> = Vec::new();
        let mut i: usize = 0;
        while i < tokens.len()
            invariant
                i <= tokens@.len(),
                tokens.deep_view() == want,
                want == parts(text@, self.sep@),
                self.ready(),
                out@.len() == i,
                forall|j: int| 0 <= j < i ==> may_accept(self.until, want[j], #[trigger] out@[j]),
            decreases tokens@.len() - i,
        {
            let token: &str = tokens[i];
            assert(token@ == tokens.deep_view()[i as int]);
            match T::parse(token) {
                Some(v) => {
                    if (self.until)(&v) {
                        out.push(v);
                    } else {
                        assert(turns_down(self.until, v));
                        assert(may_reject::<T, F>(self.until, want[i as int]));
                        return None;
                    }
                },
                None => {
                    assert(may_reject::<T, F>(self.until, want[i as int]));
                    return None;
                },
            }
            i += 1;
        }
        assert(tokens.deep_view().len() == tokens@.len());
        Some(out)
    }

    fn read_default(&self, text: &str) -> (r: Option<Vec<T>>) {
        let tokens = split(text, self.sep);
        let ghost want = parts(text@, self.sep@);
        let mut out: Vec<T> = Vec::new();
        let mut i: usize = 0;
        while i < tokens.len()
            invariant
                i <= tokens@.len(),
                tokens.deep_view() == want,
                want == parts(text@, self.sep@),
                out@.len() == i,
                forall|j: int|
                    0 <= j < i ==> T::parsed(want[j]) == Some((#[trigger] out@[j]).deep_view()),
            decreases tokens@.len() - i,
        {
            let token: &str = tokens[i];
            assert(token@ == tokens.deep_view()[i as int]);
            match T::parse(token) {
                Some(v) => {
                    out.push(v);
                },
                None => {
                    assert(T::parsed(want[i as int]) is None);
                    return None;
                },
            }
            i += 1;
        }
        assert(tokens.deep_view().len() == tokens@.len());
        Some(out)
    }
}

} // verus!
