//! Reading typed values from text, and writing numbers back as text.
//!
//! A type that can be asked for implements [`FromInput`]: its `parsed` says
//! which texts denote a value, and `parse` computes it.

use crate::text::{chars_of, push_char, same_text};
use vstd::prelude::*;

verus! {

/// Whether `c` is one of the ten decimal digits.
pub open spec fn is_digit(c: char) -> bool {
    '0' <= c <= '9'
}

/// The number that the digit `c` stands for.
pub open spec fn digit_value(c: char) -> nat {
    if is_digit(c) {
        (c as u32 - 48) as nat
    } else {
        0
    }
}

/// The digit that stands for `d`, for `d` below ten.
pub open spec fn digit_char(d: nat) -> char {
    (48 + d) as char
}

/// Whether `s` holds decimal digits only.
pub open spec fn all_digits(s: Seq<char>) -> bool {
    forall|i: int| 0 <= i < s.len() ==> is_digit(#[trigger] s[i])
}

/// The number that the digits `s` denote, most significant digit first.
pub open spec fn digits_value(s: Seq<char>) -> nat
    decreases s.len(),
{
    if s.len() == 0 {
        0
    } else {
        digits_value(s.drop_last()) * 10 + digit_value(s.last())
    }
}

/// The number that `s` denotes as a run of one or more digits.
pub open spec fn magnitude(s: Seq<char>) -> Option<nat> {
    if s.len() > 0 && all_digits(s) {
        Some(digits_value(s))
    } else {
        None
    }
}

/// The number that `s` denotes as an unsigned numeral: digits, with or
/// without a `+` in front.
pub open spec fn unsigned_numeral(s: Seq<char>) -> Option<nat> {
    if s.len() > 0 && s[0] == '+' {
        magnitude(s.skip(1))
    } else {
        magnitude(s)
    }
}

/// The number that `s` denotes as a signed numeral: digits, with or without
/// a `+` or a `-` in front.
pub open spec fn signed_numeral(s: Seq<char>) -> Option<int> {
    if s.len() > 0 && s[0] == '-' {
        match magnitude(s.skip(1)) {
            Some(m) => Some(-(m as int)),
            None => None,
        }
    } else {
        match unsigned_numeral(s) {
            Some(m) => Some(m as int),
            None => None,
        }
    }
}

/// The unsigned numeral `s`, if it is no more than `max`.
pub open spec fn unsigned_within(s: Seq<char>, max: nat) -> Option<nat> {
    match unsigned_numeral(s) {
        Some(v) if v <= max => Some(v),
        _ => None,
    }
}

/// The signed numeral `s`, if it lies between `min` and `max`.
pub open spec fn signed_within(s: Seq<char>, min: int, max: int) -> Option<int> {
    match signed_numeral(s) {
        Some(v) if min <= v <= max => Some(v),
        _ => None,
    }
}

/// The decimal numeral of `n`, without sign or leading zeros.
pub open spec fn decimal(n: nat) -> Seq<char>
    decreases n,
{
    if n < 10 {
        seq![digit_char(n)]
    } else {
        decimal(n / 10).push(digit_char(n % 10))
    }
}

/// The numeral of the whole number `v`: the decimal numeral of its size,
/// behind a `-` where it is below zero.
pub open spec fn signed_decimal(v: int) -> Seq<char> {
    if v < 0 {
        seq!['-'] + decimal((-v) as nat)
    } else {
        decimal(v as nat)
    }
}

/// Whether `s` is a numeral as a number is written: digits, without a sign
/// and without a zero in front of other digits.
pub open spec fn plain_unsigned(s: Seq<char>) -> bool {
    magnitude(s) is Some && (s.len() == 1 || s[0] != '0')
}

/// Whether `s` is a numeral as a whole number is written: a numeral as a
/// number is written, or a `-` and such a numeral that does not start with
/// a zero.
pub open spec fn plain_signed(s: Seq<char>) -> bool {
    if s.len() > 0 && s[0] == '-' {
        magnitude(s.skip(1)) is Some && s[1] != '0'
    } else {
        plain_unsigned(s)
    }
}

/// A prefix of a run of digits denotes no more than the whole run.
proof fn lemma_digits_prefix(s: Seq<char>, k: int)
    requires
        0 <= k <= s.len(),
    ensures
        digits_value(s.take(k)) <= digits_value(s),
    decreases s.len() - k,
{
    if k == s.len() {
        assert(s.take(k) == s);
    } else {
        lemma_digits_prefix(s.drop_last(), k);
        assert(s.drop_last().take(k) == s.take(k));
    }
}

/// The number that `c` stands for, if `c` is a digit.
fn digit_of(c: char) -> (r: Option<u64>)
    ensures
        match r {
            Some(v) => is_digit(c) && v == digit_value(c) && v < 10,
            None => !is_digit(c),
        },
{
    let code: u32 = c as u32;
    if 48 <= code && code <= 57 {
        Some((code - 48) as u64)
    } else {
        None
    }
}

/// The digits of `chars` from `from` on, as a number no more than `max`.
fn parse_digits(chars: &Vec<char>, from: usize, max: u64) -> (r: Option<u64>)
    requires
        from <= chars@.len(),
    ensures
        match r {
            Some(v) => magnitude(chars@.skip(from as int)) == Some(v as nat) && v <= max,
            None => match magnitude(chars@.skip(from as int)) {
                Some(m) => m > max,
                None => true,
            },
        },
{
    let n = chars.len();
    let ghost d = chars@.skip(from as int);
    if from == n {
        return None;
    }
    let mut i: usize = from;
    let mut acc: u64 = 0;
    assert(d.take(0) == Seq::<char>::empty());
    while i < n
        invariant
            from <= i <= n,
            n == chars@.len(),
            d == chars@.skip(from as int),
            forall|j: int| 0 <= j < i - from ==> is_digit(#[trigger] d[j]),
            acc == digits_value(d.take(i - from)),
            acc <= max,
        decreases n - i,
    {
        let c = chars[i];
        assert(c == d[i - from]);
        let v: u64 = match digit_of(c) {
            Some(v) => v,
            None => {
                return None;
            },
        };
        proof {
            let k = i - from;
            assert(d.take(k + 1).drop_last() == d.take(k));
            assert(d.take(k + 1).last() == c);
            lemma_digits_prefix(d, k + 1);
        }
        if v > max || acc > (max - v) / 10 {
            return None;
        }
        acc = acc * 10 + v;
        i += 1;
    }
    assert(d.take(n - from) == d);
    Some(acc)
}

/// Reads an unsigned numeral no more than `max`.
pub fn parse_unsigned(text: &str, max: u64) -> (r: Option<u64>)
    ensures
        match r {
            Some(v) => unsigned_within(text@, max as nat) == Some(v as nat),
            None => unsigned_within(text@, max as nat) is None,
        },
{
    let chars = chars_of(text);
    if chars.len() > 0 && chars[0] == '+' {
        parse_digits(&chars, 1, max)
    } else {
        assert(chars@.skip(0) == text@);
        parse_digits(&chars, 0, max)
    }
}

/// Reads a signed numeral between `min` and `max`.
pub fn parse_signed(text: &str, min: i64, max: i64) -> (r: Option<i64>)
    ensures
        match r {
            Some(v) => signed_within(text@, min as int, max as int) == Some(v as int),
            None => signed_within(text@, min as int, max as int) is None,
        },
{
    let chars = chars_of(text);
    let value: Option<i64> = if chars.len() > 0 && chars[0] == '-' {
        match parse_digits(&chars, 1, 0x8000_0000_0000_0000u64) {
            Some(m) => if m == 0 {
                Some(0)
            } else {
                Some(-((m - 1) as i64) - 1)
            },
            None => None,
        }
    } else if chars.len() > 0 && chars[0] == '+' {
        match parse_digits(&chars, 1, i64::MAX as u64) {
            Some(m) => Some(m as i64),
            None => None,
        }
    } else {
        assert(chars@.skip(0) == text@);
        match parse_digits(&chars, 0, i64::MAX as u64) {
            Some(m) => Some(m as i64),
            None => None,
        }
    };
    match value {
        Some(v) => if min <= v && v <= max {
            Some(v)
        } else {
            None
        },
        None => None,
    }
}

/// The text of one decimal digit.
fn digit_text(d: u64) -> (r: &'static str)
    requires
        d < 10,
    ensures
        r@ == seq![digit_char(d as nat)],
{
    proof {
        reveal_strlit("0");
        reveal_strlit("1");
        reveal_strlit("2");
        reveal_strlit("3");
        reveal_strlit("4");
        reveal_strlit("5");
        reveal_strlit("6");
        reveal_strlit("7");
        reveal_strlit("8");
        reveal_strlit("9");
    }
    let r = match d {
        0 => "0",
        1 => "1",
        2 => "2",
        3 => "3",
        4 => "4",
        5 => "5",
        6 => "6",
        7 => "7",
        8 => "8",
        _ => "9",
    };
    assert(r@ =~= seq![digit_char(d as nat)]);
    r
}

/// The decimal numeral of `n`.
pub fn unsigned_text(n: u64) -> (r: String)
    ensures
        r@ == decimal(n as nat),
    decreases n,
{
    if n < 10 {
        String::from_str(digit_text(n))
    } else {
        let mut s = unsigned_text(n / 10);
        s.append(digit_text(n % 10));
        s
    }
}

/// The decimal numeral of `n`.
pub fn decimal_text(n: usize) -> (r: String)
    ensures
        r@ == decimal(n as nat),
{
    unsigned_text(n as u64)
}

/// The numeral of the whole number `v`.
pub fn signed_text(v: i64) -> (r: String)
    ensures
        r@ == signed_decimal(v as int),
{
    if v < 0 {
        let size: u64 = (-(v + 1)) as u64 + 1;
        let mut s = String::from_str("-");
        s.append(unsigned_text(size).as_str());
        proof {
            reveal_strlit("-");
            assert(s@ =~= signed_decimal(v as int));
        }
        s
    } else {
        unsigned_text(v as u64)
    }
}

/// A decimal numeral holds digits only, and at least one.
pub proof fn lemma_decimal_digits(n: nat)
    ensures
        decimal(n).len() > 0,
        all_digits(decimal(n)),
        decimal(n).len() > 1 ==> decimal(n)[0] != '0',
        digits_value(decimal(n)) == n,
    decreases n,
{
    let s = decimal(n);
    if n < 10 {
        assert(s.drop_last() == Seq::<char>::empty());
        assert(digits_value(s.drop_last()) == 0);
        assert(digit_value(s.last()) == n);
    } else {
        lemma_decimal_digits(n / 10);
        let head = decimal(n / 10);
        assert(s.drop_last() == head);
        assert(s[0] == head[0]);
        assert(digit_value(s.last()) == n % 10);
        if head.len() == 1 {
            assert(head.drop_last() == Seq::<char>::empty());
            assert(digits_value(head.drop_last()) == 0);
            assert(digits_value(head) == digit_value(head[0]));
        }
    }
}

/// Writing a number and reading the text back gives the number: the
/// numeral of `n` denotes `n`, as an unsigned and as a signed numeral.
pub proof fn lemma_decimal_round_trip(n: nat)
    ensures
        unsigned_numeral(decimal(n)) == Some(n),
        signed_numeral(decimal(n)) == Some(n as int),
{
    lemma_decimal_digits(n);
}

/// Reading a numeral and writing the number back gives the text, where the
/// text has no sign and no leading zero.
pub proof fn lemma_numeral_round_trip(s: Seq<char>)
    requires
        magnitude(s) is Some,
        s.len() == 1 || s[0] != '0',
    ensures
        decimal(magnitude(s)->0) == s,
    decreases s.len(),
{
    let t = s.drop_last();
    let c = s.last();
    assert(is_digit(c));
    if s.len() == 1 {
        assert(t == Seq::<char>::empty());
        assert(digits_value(t) == 0);
        assert(digits_value(s) == digit_value(c));
        assert(decimal(digits_value(s)) =~= s);
    } else {
        assert(t[0] == s[0]);
        assert(forall|i: int| 0 <= i < t.len() ==> t[i] == s[i]);
        lemma_numeral_round_trip(t);
        lemma_leading_digit(t);
        assert(decimal(digits_value(s)) =~= s);
    }
}

/// Writing a whole number and reading the text back gives the number, and
/// what is written is a numeral as a whole number is written.
pub proof fn lemma_signed_round_trip(v: int)
    ensures
        signed_numeral(signed_decimal(v)) == Some(v),
        plain_signed(signed_decimal(v)),
{
    let s = signed_decimal(v);
    if v < 0 {
        let size = (-v) as nat;
        lemma_decimal_digits(size);
        assert(s.skip(1) =~= decimal(size));
        assert(s[1] == decimal(size)[0]);
        if decimal(size).len() == 1 {
            assert(decimal(size).drop_last() == Seq::<char>::empty());
            assert(digits_value(decimal(size).drop_last()) == 0);
        }
    } else {
        lemma_decimal_digits(v as nat);
        assert(is_digit(s[0]));
    }
}

/// What is written of a number is a numeral as a number is written.
pub proof fn lemma_decimal_plain(n: nat)
    ensures
        plain_unsigned(decimal(n)),
        plain_signed(decimal(n)),
{
    lemma_decimal_digits(n);
    assert(is_digit(decimal(n)[0]));
}

/// Reading a numeral as a number is written and writing the number back
/// gives the text.
pub proof fn lemma_plain_unsigned_round_trip(s: Seq<char>)
    requires
        plain_unsigned(s),
    ensures
        unsigned_numeral(s) matches Some(n) && decimal(n) == s,
{
    assert(is_digit(s[0]));
    lemma_numeral_round_trip(s);
}

/// Reading a numeral as a whole number is written and writing the number
/// back gives the text.
pub proof fn lemma_plain_signed_round_trip(s: Seq<char>)
    requires
        plain_signed(s),
    ensures
        signed_numeral(s) matches Some(v) && signed_decimal(v) == s,
{
    if s.len() > 0 && s[0] == '-' {
        let t = s.skip(1);
        assert(t[0] == s[1]);
        lemma_numeral_round_trip(t);
        lemma_leading_digit(t);
        assert(seq!['-'] + t =~= s);
    } else {
        lemma_plain_unsigned_round_trip(s);
    }
}

/// Digits that do not start with a zero denote at least one.
proof fn lemma_leading_digit(s: Seq<char>)
    requires
        s.len() > 0,
        all_digits(s),
        s[0] != '0',
    ensures
        digits_value(s) >= 1,
    decreases s.len(),
{
    if s.len() == 1 {
        assert(s.drop_last() == Seq::<char>::empty());
    } else {
        let t = s.drop_last();
        assert(t[0] == s[0]);
        assert(forall|i: int| 0 <= i < t.len() ==> t[i] == s[i]);
        lemma_leading_digit(t);
    }
}

/// A type whose values can be read from one answer.
pub trait FromInput: Sized + DeepView {
    /// The value that `text` denotes, if it denotes one.
    spec fn parsed(text: Seq<char>) -> Option<<Self as DeepView>::V>;

    /// Reads `text` as a value.
    fn parse(text: &str) -> (r: Option<Self>)
        ensures
            r.deep_view() == Self::parsed(text@),
    ;

    /// The text that the value `v` is written as.
    spec fn spelled(v: <Self as DeepView>::V) -> Seq<char>;

    /// Writes the value as text.
    fn spell(&self) -> (r: String)
        ensures
            r@ == Self::spelled(self.deep_view()),
    ;

    /// Whether `text` is written as this type writes its values: a text
    /// that denotes a value may still be written otherwise, as a numeral
    /// with a `+` or with zeros in front.
    spec fn is_plain(text: Seq<char>) -> bool;

    /// Writing a value and reading the text back gives the value, and what
    /// is written is written as this type writes its values.
    proof fn lemma_spelled_is_read(v: <Self as DeepView>::V)
        ensures
            Self::parsed(Self::spelled(v)) == Some(v),
            Self::is_plain(Self::spelled(v)),
    ;

    /// Reading a text and writing the value back gives the text, where the
    /// text is written as this type writes its values.
    proof fn lemma_read_is_spelled(text: Seq<char>)
        requires
            Self::is_plain(text),
            Self::parsed(text) is Some,
        ensures
            Self::spelled(Self::parsed(text)->0) == text,
    ;

    /// The name of the type, for the reader of an error.
    spec fn kind_name() -> Seq<char>;

    /// The name of the type, for the reader of an error.
    fn type_info() -> (r: &'static str)
        ensures
            r@ == Self::kind_name(),
    ;
}

/// Any text is a `String`: itself.
impl FromInput for String {
    open spec fn parsed(text: Seq<char>) -> Option<Seq<char>> {
        Some(text)
    }

    fn parse(text: &str) -> (r: Option<String>) {
        Some(text.to_owned())
    }

    open spec fn spelled(v: Seq<char>) -> Seq<char> {
        v
    }

    fn spell(&self) -> (r: String) {
        self.clone()
    }

    open spec fn is_plain(text: Seq<char>) -> bool {
        true
    }

    proof fn lemma_spelled_is_read(v: Seq<char>) {
    }

    proof fn lemma_read_is_spelled(text: Seq<char>) {
    }

    open spec fn kind_name() -> Seq<char> {
        "String"@
    }

    fn type_info() -> (r: &'static str) {
        "String"
    }
}

/// A `char` is a text of one character.
impl FromInput for char {
    open spec fn parsed(text: Seq<char>) -> Option<char> {
        if text.len() == 1 {
            Some(text[0])
        } else {
            None
        }
    }

    fn parse(text: &str) -> (r: Option<char>) {
        let chars = chars_of(text);
        if chars.len() == 1 {
            Some(chars[0])
        } else {
            None
        }
    }

    open spec fn spelled(v: char) -> Seq<char> {
        seq![v]
    }

    fn spell(&self) -> (r: String) {
        let mut r = String::new();
        push_char(&mut r, *self);
        assert(r@ =~= seq![*self]);
        r
    }

    open spec fn is_plain(text: Seq<char>) -> bool {
        true
    }

    proof fn lemma_spelled_is_read(v: char) {
    }

    proof fn lemma_read_is_spelled(text: Seq<char>) {
        assert(seq![text[0]] =~= text);
    }

    open spec fn kind_name() -> Seq<char> {
        "char"@
    }

    fn type_info() -> (r: &'static str) {
        "char"
    }
}

/// A `bool` is `true` or `false`, written so.
impl FromInput for bool {
    open spec fn parsed(text: Seq<char>) -> Option<bool> {
        if text == "true"@ {
            Some(true)
        } else if text == "false"@ {
            Some(false)
        } else {
            None
        }
    }

    fn parse(text: &str) -> (r: Option<bool>) {
        if same_text(text, "true") {
            Some(true)
        } else if same_text(text, "false") {
            Some(false)
        } else {
            None
        }
    }

    open spec fn spelled(v: bool) -> Seq<char> {
        if v {
            "true"@
        } else {
            "false"@
        }
    }

    fn spell(&self) -> (r: String) {
        if *self {
            String::from_str("true")
        } else {
            String::from_str("false")
        }
    }

    open spec fn is_plain(text: Seq<char>) -> bool {
        true
    }

    proof fn lemma_spelled_is_read(v: bool) {
        reveal_strlit("true");
        reveal_strlit("false");
        assert("true"@.len() != "false"@.len());
    }

    proof fn lemma_read_is_spelled(text: Seq<char>) {
    }

    open spec fn kind_name() -> Seq<char> {
        "bool"@
    }

    fn type_info() -> (r: &'static str) {
        "bool"
    }
}

impl FromInput for u8 {
    open spec fn parsed(text: Seq<char>) -> Option<u8> {
        match unsigned_within(text, u8::MAX as nat) {
            Some(v) => Some(v as u8),
            None => None,
        }
    }

    fn parse(text: &str) -> (r: Option<u8>) {
        match parse_unsigned(text, u8::MAX as u64) {
            Some(v) => Some(v as u8),
            None => None,
        }
    }

    open spec fn spelled(v: u8) -> Seq<char> {
        decimal(v as nat)
    }

    fn spell(&self) -> (r: String) {
        unsigned_text(*self as u64)
    }

    open spec fn is_plain(text: Seq<char>) -> bool {
        plain_unsigned(text)
    }

    proof fn lemma_spelled_is_read(v: u8) {
        lemma_decimal_round_trip(v as nat);
        lemma_decimal_plain(v as nat);
    }

    proof fn lemma_read_is_spelled(text: Seq<char>) {
        lemma_plain_unsigned_round_trip(text);
    }

    open spec fn kind_name() -> Seq<char> {
        "u8"@
    }

    fn type_info() -> (r: &'static str) {
        "u8"
    }
}

impl FromInput for u16 {
    open spec fn parsed(text: Seq<char>) -> Option<u16> {
        match unsigned_within(text, u16::MAX as nat) {
            Some(v) => Some(v as u16),
            None => None,
        }
    }

    fn parse(text: &str) -> (r: Option<u16>) {
        match parse_unsigned(text, u16::MAX as u64) {
            Some(v) => Some(v as u16),
            None => None,
        }
    }

    open spec fn spelled(v: u16) -> Seq<char> {
        decimal(v as nat)
    }

    fn spell(&self) -> (r: String) {
        unsigned_text(*self as u64)
    }

    open spec fn is_plain(text: Seq<char>) -> bool {
        plain_unsigned(text)
    }

    proof fn lemma_spelled_is_read(v: u16) {
        lemma_decimal_round_trip(v as nat);
        lemma_decimal_plain(v as nat);
    }

    proof fn lemma_read_is_spelled(text: Seq<char>) {
        lemma_plain_unsigned_round_trip(text);
    }

    open spec fn kind_name() -> Seq<char> {
        "u16"@
    }

    fn type_info() -> (r: &'static str) {
        "u16"
    }
}

impl FromInput for u32 {
    open spec fn parsed(text: Seq<char>) -> Option<u32> {
        match unsigned_within(text, u32::MAX as nat) {
            Some(v) => Some(v as u32),
            None => None,
        }
    }

    fn parse(text: &str) -> (r: Option<u32>) {
        match parse_unsigned(text, u32::MAX as u64) {
            Some(v) => Some(v as u32),
            None => None,
        }
    }

    open spec fn spelled(v: u32) -> Seq<char> {
        decimal(v as nat)
    }

    fn spell(&self) -> (r: String) {
        unsigned_text(*self as u64)
    }

    open spec fn is_plain(text: Seq<char>) -> bool {
        plain_unsigned(text)
    }

    proof fn lemma_spelled_is_read(v: u32) {
        lemma_decimal_round_trip(v as nat);
        lemma_decimal_plain(v as nat);
    }

    proof fn lemma_read_is_spelled(text: Seq<char>) {
        lemma_plain_unsigned_round_trip(text);
    }

    open spec fn kind_name() -> Seq<char> {
        "u32"@
    }

    fn type_info() -> (r: &'static str) {
        "u32"
    }
}

impl FromInput for u64 {
    open spec fn parsed(text: Seq<char>) -> Option<u64> {
        match unsigned_within(text, u64::MAX as nat) {
            Some(v) => Some(v as u64),
            None => None,
        }
    }

    fn parse(text: &str) -> (r: Option<u64>) {
        match parse_unsigned(text, u64::MAX as u64) {
            Some(v) => Some(v as u64),
            None => None,
        }
    }

    open spec fn spelled(v: u64) -> Seq<char> {
        decimal(v as nat)
    }

    fn spell(&self) -> (r: String) {
        unsigned_text(*self as u64)
    }

    open spec fn is_plain(text: Seq<char>) -> bool {
        plain_unsigned(text)
    }

    proof fn lemma_spelled_is_read(v: u64) {
        lemma_decimal_round_trip(v as nat);
        lemma_decimal_plain(v as nat);
    }

    proof fn lemma_read_is_spelled(text: Seq<char>) {
        lemma_plain_unsigned_round_trip(text);
    }

    open spec fn kind_name() -> Seq<char> {
        "u64"@
    }

    fn type_info() -> (r: &'static str) {
        "u64"
    }
}

impl FromInput for usize {
    open spec fn parsed(text: Seq<char>) -> Option<usize> {
        match unsigned_within(text, usize::MAX as nat) {
            Some(v) => Some(v as usize),
            None => None,
        }
    }

    fn parse(text: &str) -> (r: Option<usize>) {
        match parse_unsigned(text, usize::MAX as u64) {
            Some(v) => Some(v as usize),
            None => None,
        }
    }

    open spec fn spelled(v: usize) -> Seq<char> {
        decimal(v as nat)
    }

    fn spell(&self) -> (r: String) {
        unsigned_text(*self as u64)
    }

    open spec fn is_plain(text: Seq<char>) -> bool {
        plain_unsigned(text)
    }

    proof fn lemma_spelled_is_read(v: usize) {
        lemma_decimal_round_trip(v as nat);
        lemma_decimal_plain(v as nat);
    }

    proof fn lemma_read_is_spelled(text: Seq<char>) {
        lemma_plain_unsigned_round_trip(text);
    }

    open spec fn kind_name() -> Seq<char> {
        "usize"@
    }

    fn type_info() -> (r: &'static str) {
        "usize"
    }
}

impl FromInput for i8 {
    open spec fn parsed(text: Seq<char>) -> Option<i8> {
        match signed_within(text, i8::MIN as int, i8::MAX as int) {
            Some(v) => Some(v as i8),
            None => None,
        }
    }

    fn parse(text: &str) -> (r: Option<i8>) {
        match parse_signed(text, i8::MIN as i64, i8::MAX as i64) {
            Some(v) => Some(v as i8),
            None => None,
        }
    }

    open spec fn spelled(v: i8) -> Seq<char> {
        signed_decimal(v as int)
    }

    fn spell(&self) -> (r: String) {
        signed_text(*self as i64)
    }

    open spec fn is_plain(text: Seq<char>) -> bool {
        plain_signed(text)
    }

    proof fn lemma_spelled_is_read(v: i8) {
        lemma_signed_round_trip(v as int);
    }

    proof fn lemma_read_is_spelled(text: Seq<char>) {
        lemma_plain_signed_round_trip(text);
    }

    open spec fn kind_name() -> Seq<char> {
        "i8"@
    }

    fn type_info() -> (r: &'static str) {
        "i8"
    }
}

impl FromInput for i16 {
    open spec fn parsed(text: Seq<char>) -> Option<i16> {
        match signed_within(text, i16::MIN as int, i16::MAX as int) {
            Some(v) => Some(v as i16),
            None => None,
        }
    }

    fn parse(text: &str) -> (r: Option<i16>) {
        match parse_signed(text, i16::MIN as i64, i16::MAX as i64) {
            Some(v) => Some(v as i16),
            None => None,
        }
    }

    open spec fn spelled(v: i16) -> Seq<char> {
        signed_decimal(v as int)
    }

    fn spell(&self) -> (r: String) {
        signed_text(*self as i64)
    }

    open spec fn is_plain(text: Seq<char>) -> bool {
        plain_signed(text)
    }

    proof fn lemma_spelled_is_read(v: i16) {
        lemma_signed_round_trip(v as int);
    }

    proof fn lemma_read_is_spelled(text: Seq<char>) {
        lemma_plain_signed_round_trip(text);
    }

    open spec fn kind_name() -> Seq<char> {
        "i16"@
    }

    fn type_info() -> (r: &'static str) {
        "i16"
    }
}

impl FromInput for i32 {
    open spec fn parsed(text: Seq<char>) -> Option<i32> {
        match signed_within(text, i32::MIN as int, i32::MAX as int) {
            Some(v) => Some(v as i32),
            None => None,
        }
    }

    fn parse(text: &str) -> (r: Option<i32>) {
        match parse_signed(text, i32::MIN as i64, i32::MAX as i64) {
            Some(v) => Some(v as i32),
            None => None,
        }
    }

    open spec fn spelled(v: i32) -> Seq<char> {
        signed_decimal(v as int)
    }

    fn spell(&self) -> (r: String) {
        signed_text(*self as i64)
    }

    open spec fn is_plain(text: Seq<char>) -> bool {
        plain_signed(text)
    }

    proof fn lemma_spelled_is_read(v: i32) {
        lemma_signed_round_trip(v as int);
    }

    proof fn lemma_read_is_spelled(text: Seq<char>) {
        lemma_plain_signed_round_trip(text);
    }

    open spec fn kind_name() -> Seq<char> {
        "i32"@
    }

    fn type_info() -> (r: &'static str) {
        "i32"
    }
}

impl FromInput for i64 {
    open spec fn parsed(text: Seq<char>) -> Option<i64> {
        match signed_within(text, i64::MIN as int, i64::MAX as int) {
            Some(v) => Some(v as i64),
            None => None,
        }
    }

    fn parse(text: &str) -> (r: Option<i64>) {
        match parse_signed(text, i64::MIN as i64, i64::MAX as i64) {
            Some(v) => Some(v as i64),
            None => None,
        }
    }

    open spec fn spelled(v: i64) -> Seq<char> {
        signed_decimal(v as int)
    }

    fn spell(&self) -> (r: String) {
        signed_text(*self as i64)
    }

    open spec fn is_plain(text: Seq<char>) -> bool {
        plain_signed(text)
    }

    proof fn lemma_spelled_is_read(v: i64) {
        lemma_signed_round_trip(v as int);
    }

    proof fn lemma_read_is_spelled(text: Seq<char>) {
        lemma_plain_signed_round_trip(text);
    }

    open spec fn kind_name() -> Seq<char> {
        "i64"@
    }

    fn type_info() -> (r: &'static str) {
        "i64"
    }
}

impl FromInput for isize {
    open spec fn parsed(text: Seq<char>) -> Option<isize> {
        match signed_within(text, isize::MIN as int, isize::MAX as int) {
            Some(v) => Some(v as isize),
            None => None,
        }
    }

    fn parse(text: &str) -> (r: Option<isize>) {
        match parse_signed(text, isize::MIN as i64, isize::MAX as i64) {
            Some(v) => Some(v as isize),
            None => None,
        }
    }

    open spec fn spelled(v: isize) -> Seq<char> {
        signed_decimal(v as int)
    }

    fn spell(&self) -> (r: String) {
        signed_text(*self as i64)
    }

    open spec fn is_plain(text: Seq<char>) -> bool {
        plain_signed(text)
    }

    proof fn lemma_spelled_is_read(v: isize) {
        lemma_signed_round_trip(v as int);
    }

    proof fn lemma_read_is_spelled(text: Seq<char>) {
        lemma_plain_signed_round_trip(text);
    }

    open spec fn kind_name() -> Seq<char> {
        "isize"@
    }

    fn type_info() -> (r: &'static str) {
        "isize"
    }
}

} // verus!
