//! The small steps that every field is asked with: showing a text, reading
//! an answer, and the errors of a default that does not fit.

use crate::error::{MenuError, MenuResult};
use crate::stream::MenuStream;
use crate::parse::{parse_unsigned, unsigned_numeral};
use crate::text::{trim, trimmed};
use vstd::prelude::*;

verus! {

/// Accepts every value: the test of a field that puts no condition on its
/// answer.
pub fn keep<T>(_val: &T) -> (r: bool)
    ensures
        r,
{
    true
}

/// Shows `text` on the stream.
pub fn show(text: &str, stream: &mut MenuStream)
    ensures
        final(stream).shown() == old(stream).shown() + text@,
        final(stream).pending() == old(stream).pending(),
{
    stream.write(text);
}

/// Takes the next answer from the stream, without the white space around
/// it, or fails with `NoMoreInput` where the input has ended.
pub fn read_input(stream: &mut MenuStream) -> (r: MenuResult<String>)
    ensures
        final(stream).shown() == old(stream).shown(),
        match r {
            Ok(answer) => old(stream).pending().len() > 0 && answer@ == trimmed(
                old(stream).pending()[0],
            ) && final(stream).pending() == old(stream).pending().skip(1),
            Err(e) => old(stream).pending().len() == 0 && e is NoMoreInput
                && final(stream).pending() == old(stream).pending(),
        },
{
    match stream.read_line() {
        Some(line) => Ok(trim(line.as_str()).to_owned()),
        None => Err(MenuError::NoMoreInput),
    }
}

/// Shows `text`, then takes the next answer as `read_input` does.
pub fn prompt(text: &str, stream: &mut MenuStream) -> (r: MenuResult<String>)
    ensures
        final(stream).shown() == old(stream).shown() + text@,
        match r {
            Ok(answer) => old(stream).pending().len() > 0 && answer@ == trimmed(
                old(stream).pending()[0],
            ) && final(stream).pending() == old(stream).pending().skip(1),
            Err(e) => old(stream).pending().len() == 0 && e is NoMoreInput
                && final(stream).pending() == old(stream).pending(),
        },
{
    show(text, stream);
    read_input(stream)
}

/// The error of a default that does not read as the type it was declared
/// for: `MisconfiguredDefault` with the default as written.
pub fn default_failed(default: &str) -> (r: MenuError)
    ensures
        r.is_misconfigured_default(default@),
{
    MenuError::MisconfiguredDefault(default.to_owned())
}

/// The option that `text` gives the number of, among `n` options numbered
/// from 1: its place, counted from 0.
pub open spec fn numbers(n: nat, text: Seq<char>) -> Option<int> {
    match unsigned_numeral(text) {
        Some(k) if 1 <= k <= n => Some(k - 1),
        _ => None,
    }
}

/// The option that `answer` gives the number of, among `max` options
/// numbered from 1: its place, counted from 0.
pub fn number_of(answer: &str, max: usize) -> (r: Option<usize>)
    ensures
        match numbers(max as nat, answer@) {
            Some(i) => r == Some(i as usize),
            None => r is None,
        },
{
    match parse_unsigned(answer, max as u64) {
        Some(k) => {
            if k >= 1 {
                Some((k - 1) as usize)
            } else {
                None
            }
        },
        None => None,
    }
}

/// Shows `suffix` and takes the next answer as the number of one of `max`
/// options: the place of that option, or else the default, or else
/// nothing; and `NoMoreInput` where the input has ended.
pub fn select(stream: &mut MenuStream, suffix: &str, default: Option<usize>, max: usize) -> (r:
    MenuResult<Option<usize>>)
    ensures
        final(stream).shown() == old(stream).shown() + suffix@,
        match r {
            Ok(found) => old(stream).pending().len() > 0 && final(stream).pending()
                == old(stream).pending().skip(1) && match numbers(
                max as nat,
                trimmed(old(stream).pending()[0]),
            ) {
                Some(i) => found == Some(i as usize),
                None => found == default,
            },
            Err(e) => old(stream).pending().len() == 0 && e is NoMoreInput
                && final(stream).pending() == old(stream).pending(),
        },
{
    let answer = match prompt(suffix, stream) {
        Ok(answer) => answer,
        Err(e) => {
            return Err(e);
        },
    };
    match number_of(answer.as_str(), max) {
        Some(i) => Ok(Some(i)),
        None => Ok(default),
    }
}

} // verus!
