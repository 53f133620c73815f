//! Text as sequences of characters: white space, trimming, comparison,
//! splitting on a separator, and lowercase forms.

use vstd::prelude::*;

verus! {

/// Whether `c` is white space: a character with the Unicode property
/// `White_Space`.
pub open spec fn is_space(c: char) -> bool {
    let n = c as u32;
    ||| 0x09 <= n <= 0x0D
    ||| n == 0x20
    ||| n == 0x85
    ||| n == 0xA0
    ||| n == 0x1680
    ||| 0x2000 <= n <= 0x200A
    ||| n == 0x2028
    ||| n == 0x2029
    ||| n == 0x202F
    ||| n == 0x205F
    ||| n == 0x3000
}

/// `s` without its leading white space.
pub open spec fn trim_start(s: Seq<char>) -> Seq<char>
    decreases s.len(),
{
    if s.len() > 0 && is_space(s[0]) {
        trim_start(s.skip(1))
    } else {
        s
    }
}

/// `s` without its trailing white space.
pub open spec fn trim_end(s: Seq<char>) -> Seq<char>
    decreases s.len(),
{
    if s.len() > 0 && is_space(s.last()) {
        trim_end(s.drop_last())
    } else {
        s
    }
}

/// `s` without the white space at either end.
pub open spec fn trimmed(s: Seq<char>) -> Seq<char> {
    trim_end(trim_start(s))
}

/// Whether `c` is white space.
pub fn is_whitespace(c: char) -> (r: bool)
    ensures
        r == is_space(c),
{
    let n: u32 = c as u32;
    (0x09 <= n && n <= 0x0D) || n == 0x20 || n == 0x85 || n == 0xA0 || n == 0x1680 || (0x2000 <= n
        && n <= 0x200A) || n == 0x2028 || n == 0x2029 || n == 0x202F || n == 0x205F || n == 0x3000
}

/// The characters of `text`, in order.
pub fn chars_of(text: &str) -> (r: Vec<char>)
    ensures
        r@ == text@,
{
    let mut out: Vec<char> = Vec::new();
    for c in it: text.chars()
        invariant
            it.seq() == text@,
            out@ == text@.take(it.index() as int),
    {
        out.push(c);
    }
    out
}

/// Puts `c` at the end of `text`. This calls `String::push` of the standard
/// library, which appends the character and changes nothing else.
#[verifier::external_body]
pub(crate) fn push_char(text: &mut String, c: char)
    ensures
        final(text)@ == old(text)@.push(c),
{
    text.push(c)
}

/// Whether two texts hold the same characters.
pub fn same_text(a: &str, b: &str) -> (r: bool)
    ensures
        r == (a@ == b@),
{
    a.to_owned() == b.to_owned()
}

/// Whether `t` is `s` without the white space at either end: a run of `s`
/// that neither starts nor ends with white space, with white space only
/// before and behind it.
pub open spec fn is_trimmed(s: Seq<char>, t: Seq<char>) -> bool {
    &&& t.len() > 0 ==> !is_space(t[0]) && !is_space(t.last())
    &&& exists|a: int, b: int|
        0 <= a <= b <= s.len() && t == s.subrange(a, b) && (forall|i: int|
            0 <= i < a || b <= i < s.len() ==> is_space(#[trigger] s[i]))
}

/// The part of `text` between its leading and its trailing white space.
pub fn trim<'a>(text: &'a str) -> (r: &'a str)
    ensures
        r@ == trimmed(text@),
        is_trimmed(text@, r@),
{
    proof {
        lemma_trimmed(text@);
    }
    let chars = chars_of(text);
    let n = chars.len();
    let mut a: usize = 0;
    assert(text@.skip(0) == text@);
    while a < n && is_whitespace(chars[a])
        invariant
            a <= n,
            n == text@.len(),
            chars@ == text@,
            trim_start(text@) == trim_start(text@.skip(a as int)),
        decreases n - a,
    {
        assert(text@.skip(a as int).skip(1) == text@.skip(a + 1));
        a += 1;
    }
    let ghost rest = text@.skip(a as int);
    assert(trim_start(text@) == rest);
    let mut b: usize = n;
    assert(text@.subrange(a as int, n as int) == rest);
    while b > a && is_whitespace(chars[b - 1])
        invariant
            a <= b <= n,
            n == text@.len(),
            chars@ == text@,
            rest == text@.skip(a as int),
            trim_end(rest) == trim_end(text@.subrange(a as int, b as int)),
        decreases b,
    {
        assert(text@.subrange(a as int, b as int).drop_last() == text@.subrange(
            a as int,
            b - 1,
        ));
        b -= 1;
    }
    assert(trim_end(rest) == text@.subrange(a as int, b as int));
    text.substring_char(a, b)
}

/// Trimming leaves no white space at either end, and takes no more than white
/// space away: the result is a run of `s` with only white space around it.
pub proof fn lemma_trimmed(s: Seq<char>)
    ensures
        trimmed(s).len() <= s.len(),
        is_trimmed(s, trimmed(s)),
{
    lemma_trim_start(s);
    let (a, _b) = choose|a: int, b: int|
        0 <= a <= b <= s.len() && b == s.len() && trim_start(s) == s.subrange(a, b) && (forall|
            i: int,
        | 0 <= i < a ==> is_space(#[trigger] s[i]));
    let t = s.subrange(a, s.len() as int);
    lemma_trim_end(t);
    let (_c, d) = choose|c: int, d: int|
        c == 0 && 0 <= d <= t.len() && trim_end(t) == t.subrange(c, d) && (forall|i: int|
            d <= i < t.len() ==> is_space(#[trigger] t[i]));
    assert(t.subrange(0, d) == s.subrange(a, a + d));
    assert forall|i: int| 0 <= i < a || a + d <= i < s.len() implies is_space(
        #[trigger] s[i],
    ) by {
        if i >= a + d {
            assert(s[i] == t[i - a]);
        }
    }
    assert(0 <= a <= a + d <= s.len() && trimmed(s) == s.subrange(a, a + d));
}

proof fn lemma_trim_start(s: Seq<char>)
    ensures
        exists|a: int, b: int|
            0 <= a <= b <= s.len() && b == s.len() && trim_start(s) == s.subrange(a, b) && (
            forall|i: int| 0 <= i < a ==> is_space(#[trigger] s[i])),
        trim_start(s).len() > 0 ==> !is_space(trim_start(s)[0]),
    decreases s.len(),
{
    if s.len() > 0 && is_space(s[0]) {
        let t = s.skip(1);
        lemma_trim_start(t);
        let (a, b) = choose|a: int, b: int|
            0 <= a <= b <= t.len() && b == t.len() && trim_start(t) == t.subrange(a, b) && (
            forall|i: int| 0 <= i < a ==> is_space(#[trigger] t[i]));
        assert(t.subrange(a, b) == s.subrange(a + 1, b + 1));
        assert forall|i: int| 0 <= i < a + 1 implies is_space(#[trigger] s[i]) by {
            if i > 0 {
                assert(s[i] == t[i - 1]);
            }
        }
        assert(0 <= a + 1 <= b + 1 <= s.len() && b + 1 == s.len() && trim_start(s) == s.subrange(
            a + 1,
            b + 1,
        ));
    } else {
        assert(s == s.subrange(0, s.len() as int));
    }
}

proof fn lemma_trim_end(s: Seq<char>)
    ensures
        exists|a: int, b: int|
            a == 0 && 0 <= b <= s.len() && trim_end(s) == s.subrange(a, b) && (forall|i: int|
                b <= i < s.len() ==> is_space(#[trigger] s[i])),
        trim_end(s).len() > 0 ==> !is_space(trim_end(s).last()) && trim_end(s)[0] == s[0],
    decreases s.len(),
{
    if s.len() > 0 && is_space(s.last()) {
        let t = s.drop_last();
        lemma_trim_end(t);
        let (a, b) = choose|a: int, b: int|
            a == 0 && 0 <= b <= t.len() && trim_end(t) == t.subrange(a, b) && (forall|i: int|
                b <= i < t.len() ==> is_space(#[trigger] t[i]));
        assert(t.subrange(0, b) == s.subrange(0, b));
        assert forall|i: int| b <= i < s.len() implies is_space(#[trigger] s[i]) by {
            if i < t.len() {
                assert(s[i] == t[i]);
            }
        }
        assert(0 <= b <= s.len() && trim_end(s) == s.subrange(0, b));
    } else {
        assert(s == s.subrange(0, s.len() as int));
    }
}

/// Whether `sep` stands in `s` at the place `i`.
pub open spec fn occurs_at(s: Seq<char>, sep: Seq<char>, i: int) -> bool {
    0 <= i && i + sep.len() <= s.len() && s.subrange(i, i + sep.len()) == sep
}

/// The parts of `s` between the occurrences of the separator `sep`, for the
/// part that starts at `start` and holds no occurrence before `i`: the
/// occurrences are taken from left to right, and none overlaps the one
/// before it.
pub open spec fn parts_from(s: Seq<char>, sep: Seq<char>, start: int, i: int) -> Seq<Seq<char>>
    decreases s.len() - i,
{
    if sep.len() == 0 || i + sep.len() > s.len() {
        seq![s.subrange(start, s.len() as int)]
    } else if occurs_at(s, sep, i) {
        seq![s.subrange(start, i)] + parts_from(s, sep, i + sep.len(), i + sep.len())
    } else {
        parts_from(s, sep, start, i + 1)
    }
}

/// The parts of `s` between the occurrences of the separator `sep`. An
/// empty separator stands before every character and at the end: the parts
/// are then an empty one, each character, and an empty one again.
pub open spec fn parts(s: Seq<char>, sep: Seq<char>) -> Seq<Seq<char>> {
    if sep.len() == 0 {
        seq![Seq::<char>::empty()] + Seq::new(s.len(), |i: int| seq![s[i]]) + seq![
            Seq::<char>::empty(),
        ]
    } else {
        parts_from(s, sep, 0, 0)
    }
}

/// Whether `sep` stands in `chars` at the place `i`.
fn matches_at(chars: &Vec<char>, sep: &Vec<char>, i: usize) -> (r: bool)
    requires
        i + sep@.len() <= chars@.len(),
    ensures
        r == occurs_at(chars@, sep@, i as int),
{
    let m = sep.len();
    let n = chars.len();
    let mut k: usize = 0;
    while k < m
        invariant
            k <= m,
            m == sep@.len(),
            n == chars@.len(),
            i + m <= n,
            forall|j: int| 0 <= j < k ==> chars@[i + j] == sep@[j],
        decreases m - k,
    {
        if chars[i + k] != sep[k] {
            assert(chars@.subrange(i as int, i + m)[k as int] != sep@[k as int]);
            return false;
        }
        k += 1;
    }
    assert(chars@.subrange(i as int, i + m) =~= sep@);
    true
}

/// Splits `text` at the occurrences of the separator `sep`.
pub fn split<'a>(text: &'a str, sep: &str) -> (r: Vec<&'a str>)
    ensures
        r.deep_view() == parts(text@, sep@),
{
    let chars = chars_of(text);
    let seps = chars_of(sep);
    let n = chars.len();
    let m = seps.len();
    let mut out: Vec<&'a str> = Vec::new();
    if m == 0 {
        out.push(text.substring_char(0, 0));
        let mut k: usize = 0;
        while k < n
            invariant
                k <= n,
                n == text@.len(),
                out@.len() == k + 1,
                out@[0]@ == Seq::<char>::empty(),
                forall|j: int| 0 <= j < k ==> (#[trigger] out@[j + 1])@ == seq![text@[j]],
            decreases n - k,
        {
            let part = text.substring_char(k, k + 1);
            assert(part@ =~= seq![text@[k as int]]);
            out.push(part);
            k += 1;
        }
        out.push(text.substring_char(n, n));
        assert(out.deep_view() =~= parts(text@, sep@)) by {
            let want = parts(text@, sep@);
            assert(out.deep_view().len() == want.len());
            assert forall|j: int| 0 <= j < want.len() implies out.deep_view()[j] == want[j] by {
                if 0 < j && j < n + 1 {
                    assert(out@[(j - 1) + 1]@ == seq![text@[j - 1]]);
                }
            }
        }
        return out;
    }
    let mut start: usize = 0;
    let mut i: usize = 0;
    assert(out.deep_view() + parts_from(text@, sep@, 0, 0) =~= parts(text@, sep@));
    while m <= n - i
        invariant
            start <= i <= n,
            n == text@.len(),
            m == sep@.len(),
            m > 0,
            chars@ == text@,
            seps@ == sep@,
            parts(text@, sep@) == out.deep_view() + parts_from(
                text@,
                sep@,
                start as int,
                i as int,
            ),
        decreases n - i,
    {
        if matches_at(&chars, &seps, i) {
            let part = text.substring_char(start, i);
            let ghost before = out.deep_view();
            out.push(part);
            assert(out.deep_view() =~= before.push(part@));
            assert(before.push(part@) + parts_from(text@, sep@, i + m, i + m) =~= before + (
            seq![part@] + parts_from(text@, sep@, i + m, i + m)));
            i += m;
            start = i;
        } else {
            i += 1;
        }
    }
    let part = text.substring_char(start, n);
    let ghost before = out.deep_view();
    out.push(part);
    assert(out.deep_view() =~= before.push(part@));
    assert(before.push(part@) =~= before + seq![part@]);
    out
}

/// The lowercase form of `text`, as `str::to_lowercase` of the standard
/// library gives it.
pub uninterp spec fn lowercase_of(text: Seq<char>) -> Seq<char>;

/// The lowercase form of `text`. This calls `str::to_lowercase`, which maps
/// every character to its lowercase equivalent by the Unicode tables: the
/// contract only names what it returns, as a function of the text alone.
#[verifier::external_body]
pub(crate) fn lowercase(text: &str) -> (r: String)
    ensures
        r@ == lowercase_of(text@),
{
    text.to_lowercase()
}

/// Whether two texts are the same but for the case of their letters.
pub open spec fn same_but_case(a: Seq<char>, b: Seq<char>) -> bool {
    lowercase_of(a) == lowercase_of(b)
}

/// Whether `i` is the place of the first of `folded` that equals `wanted`.
pub open spec fn is_first_equal(folded: Seq<Seq<char>>, wanted: Seq<char>, i: int) -> bool {
    &&& 0 <= i < folded.len()
    &&& folded[i] == wanted
    &&& forall|j: int| 0 <= j < i ==> folded[j] != wanted
}

/// The place of the first of `folded` that equals `wanted`, if there is
/// one.
pub fn find_first(folded: &Vec<String>, wanted: &str) -> (r: Option<usize>)
    ensures
        match r {
            Some(i) => is_first_equal(folded.deep_view(), wanted@, i as int),
            None => forall|j: int| 0 <= j < folded@.len() ==> folded.deep_view()[j] != wanted@,
        },
{
    let mut i: usize = 0;
    while i < folded.len()
        invariant
            i <= folded@.len(),
            forall|j: int| 0 <= j < i ==> folded.deep_view()[j] != wanted@,
        decreases folded@.len() - i,
    {
        if same_text(folded[i].as_str(), wanted) {
            return Some(i);
        }
        i += 1;
    }
    None
}

} // verus!
