//! Numbers and lines in byte strings.

use vstd::prelude::*;
use vstd::string::StringSliceAdditionalSpecFns;
use vstd::utf8::valid_utf8;

verus! {

/// The string that `bytes` spell, where they are valid UTF-8.
///
/// This is `core::str::from_utf8`, which the verifier takes on trust: it
/// answers exactly for the byte strings that are valid UTF-8, with the
/// string that has those bytes.
#[verifier::external_body]
pub(crate) fn str_from_utf8(bytes: &[u8]) -> (r: Option<&str>)
    ensures
        match r {
            Some(s) => valid_utf8(bytes@) && s.spec_bytes() == bytes@,
            None => !valid_utf8(bytes@),
        },
{
    core::str::from_utf8(bytes).ok()
}

/// What `text` becomes when its lower-case letters are replaced by their
/// upper-case forms, as Unicode defines them.
pub uninterp spec fn uppercase(text: Seq<u8>) -> Seq<u8>;

/// The upper-case form of `s`, as UTF-8.
///
/// This is `str::to_uppercase`, which the verifier takes on trust: what it
/// returns is a matter of the text alone, and is called [`uppercase`] here.
#[verifier::external_body]
pub(crate) fn to_uppercase(s: &str) -> (r: Vec<u8>)
    ensures
        r@ == uppercase(s.spec_bytes()),
{
    s.to_uppercase().into_bytes()
}

/// The text that the UTF-16 code units `units` spell, as UTF-8; `None`
/// where they spell none.
pub uninterp spec fn utf16_text(units: Seq<u16>) -> Option<Seq<u8>>;

/// The text that the UTF-16 code units `units` spell, as UTF-8.
///
/// This is `String::from_utf16`, which the verifier takes on trust: what
/// it returns is a matter of the code units alone, and is called
/// [`utf16_text`] here.
#[verifier::external_body]
pub(crate) fn string_from_utf16(units: &[u16]) -> (r: Option<Vec<u8>>)
    ensures
        match r {
            Some(text) => utf16_text(units@) == Some(text@),
            None => utf16_text(units@) is None,
        },
{
    String::from_utf16(units).ok().map(String::into_bytes)
}

/// The value of the digit `b` in the base `radix`, for bases up to 16:
/// `0` to `9`, then `a` to `f` in either case.
pub open spec fn digit_value(b: u8, radix: int) -> Option<int> {
    let v = if 0x30 <= b <= 0x39 {
        b - 0x30
    } else if 0x61 <= b <= 0x66 {
        b - 0x61 + 10
    } else if 0x41 <= b <= 0x46 {
        b - 0x41 + 10
    } else {
        16
    };
    if v < radix {
        Some(v)
    } else {
        None
    }
}

/// The number that the digits `s` spell in the base `radix`; `None` where
/// one of them is no digit of that base. No digits spell 0.
pub open spec fn digits_value(s: Seq<u8>, radix: int) -> Option<int>
    decreases s.len(),
{
    if s.len() == 0 {
        Some(0)
    } else {
        match (digits_value(s.drop_last(), radix), digit_value(s.last(), radix)) {
            (Some(high), Some(low)) => Some(high * radix + low),
            _ => None,
        }
    }
}

/// The number that `s` spells in the base `radix`, as the standard library
/// reads an unsigned number: an optional `+`, then at least one digit.
pub open spec fn number_value(s: Seq<u8>, radix: int) -> Option<int> {
    let digits = if s.len() > 0 && s[0] == 0x2B {
        s.skip(1)
    } else {
        s
    };
    if digits.len() == 0 {
        None
    } else {
        digits_value(digits, radix)
    }
}

/// The 64-bit number that `s` spells in the base `radix`; `None` where `s`
/// spells no number or one that does not fit.
pub open spec fn spec_parse_u64(s: Seq<u8>, radix: int) -> Option<u64> {
    match number_value(s, radix) {
        Some(v) => if v <= u64::MAX {
            Some(v as u64)
        } else {
            None
        },
        None => None,
    }
}

/// A number does not get smaller when digits are added to it.
pub proof fn lemma_digits_grow(s: Seq<u8>, radix: int, k: int)
    requires
        2 <= radix <= 16,
        0 <= k <= s.len(),
        digits_value(s, radix) is Some,
    ensures
        digits_value(s.take(k), radix) is Some,
        0 <= digits_value(s.take(k), radix)->Some_0 <= digits_value(s, radix)->Some_0,
    decreases s.len(),
{
    if k == s.len() {
        assert(s.take(k) =~= s);
        lemma_digits_nonnegative(s, radix);
    } else {
        lemma_digits_grow(s.drop_last(), radix, k);
        assert(s.drop_last().take(k) =~= s.take(k));
        let high = digits_value(s.drop_last(), radix)->Some_0;
        lemma_digits_nonnegative(s.drop_last(), radix);
        assert(high * radix >= high) by (nonlinear_arith)
            requires
                high >= 0,
                radix >= 2,
        ;
    }
}

/// A number is not negative.
pub proof fn lemma_digits_nonnegative(s: Seq<u8>, radix: int)
    requires
        2 <= radix <= 16,
        digits_value(s, radix) is Some,
    ensures
        digits_value(s, radix)->Some_0 >= 0,
    decreases s.len(),
{
    if s.len() > 0 {
        lemma_digits_nonnegative(s.drop_last(), radix);
        let high = digits_value(s.drop_last(), radix)->Some_0;
        assert(high * radix >= 0) by (nonlinear_arith)
            requires
                high >= 0,
                radix >= 2,
        ;
    }
}

/// The value of a digit; see [`digit_value`].
pub fn digit_of(b: u8, radix: u8) -> (r: Option<u8>)
    requires
        radix <= 16,
    ensures
        match r {
            Some(v) => digit_value(b, radix as int) == Some(v as int),
            None => digit_value(b, radix as int) is None,
        },
{
    let v: u8 = if 0x30 <= b && b <= 0x39 {
        b - 0x30
    } else if 0x61 <= b && b <= 0x66 {
        b - 0x61 + 10
    } else if 0x41 <= b && b <= 0x46 {
        b - 0x41 + 10
    } else {
        16
    };
    if v < radix {
        Some(v)
    } else {
        None
    }
}

/// Reads an unsigned number in the base `radix`; see [`spec_parse_u64`].
#[verifier::loop_isolation(false)]
pub fn parse_u64(s: &[u8], radix: u8) -> (r: Option<u64>)
    requires
        2 <= radix <= 16,
    ensures
        r == spec_parse_u64(s@, radix as int),
{
    let start: usize = if s.len() > 0 && s[0] == 0x2B {
        1
    } else {
        0
    };
    if start == s.len() {
        return None;
    }
    let ghost digits = s@.skip(start as int);
    assert(s@.skip(0) =~= s@);
    let mut acc: u64 = 0;
    let mut i: usize = start;
    assert(digits.take(0) =~= Seq::<u8>::empty());
    while i < s.len()
        invariant
            start <= i <= s.len(),
            2 <= radix <= 16,
            digits == s@.skip(start as int),
            digits_value(digits.take(i - start), radix as int) == Some(acc as int),
        decreases s.len() - i,
    {
        let ghost sofar = digits.take(i - start);
        let ghost next = digits.take(i - start + 1);
        assert(next.drop_last() =~= sofar);
        assert(next.last() == s@[i as int]);
        assert(digits_value(next, radix as int) == match digit_value(s@[i as int], radix as int) {
            Some(low) => Some(acc * radix + low),
            None => None,
        });
        let d = match digit_of(s[i], radix) {
            Some(d) => d,
            None => {
                proof {
                    if digits_value(digits, radix as int) is Some {
                        lemma_digits_grow(digits, radix as int, i - start + 1);
                    }
                }
                return None;
            },
        };
        let shifted = match acc.checked_mul(radix as u64) {
            Some(v) => v,
            None => {
                proof {
                    if digits_value(digits, radix as int) is Some {
                        lemma_digits_grow(digits, radix as int, i - start + 1);
                    }
                }
                return None;
            },
        };
        acc = match shifted.checked_add(d as u64) {
            Some(v) => v,
            None => {
                proof {
                    if digits_value(digits, radix as int) is Some {
                        lemma_digits_grow(digits, radix as int, i - start + 1);
                    }
                }
                return None;
            },
        };
        i += 1;
    }
    assert(digits.take(i - start) =~= digits);
    Some(acc)
}

/// Whether `b` is white space: a blank, a tab, a line feed, a vertical tab,
/// a form feed or a carriage return.
pub open spec fn is_space(b: u8) -> bool {
    b == 0x20 || (0x09 <= b <= 0x0D)
}

/// How many bytes of white space `s` begins with, counted from `i` on.
pub open spec fn leading_space(s: Seq<u8>, i: int) -> int
    decreases s.len() - i,
{
    if 0 <= i < s.len() && is_space(s[i]) {
        leading_space(s, i + 1)
    } else {
        i
    }
}

/// Where the white space that `s` ends in begins, looking back from `j`
/// and no further than `from`.
pub open spec fn trailing_space(s: Seq<u8>, from: int, j: int) -> int
    decreases j,
{
    if 0 <= from < j <= s.len() && is_space(s[j - 1]) {
        trailing_space(s, from, j - 1)
    } else {
        j
    }
}

/// `s` without the white space at its ends.
pub open spec fn trimmed(s: Seq<u8>) -> Seq<u8> {
    let from = leading_space(s, 0);
    if from >= s.len() {
        Seq::empty()
    } else {
        s.subrange(from, trailing_space(s, from, s.len() as int))
    }
}

/// The part of `s` between the white space at its ends; see [`trimmed`].
pub fn trim(s: &[u8]) -> (r: &[u8])
    ensures
        r@ == trimmed(s@),
{
    let mut from: usize = 0;
    while from < s.len() && is_space_byte(s[from])
        invariant
            from <= s.len(),
            leading_space(s@, 0) == leading_space(s@, from as int),
        decreases s.len() - from,
    {
        from += 1;
    }
    if from >= s.len() {
        let empty = vstd::slice::slice_subrange(s, 0, 0);
        assert(empty@ =~= Seq::<u8>::empty());
        return empty;
    }
    let mut to: usize = s.len();
    while to > from && is_space_byte(s[to - 1])
        invariant
            from <= to <= s.len(),
            trailing_space(s@, from as int, s.len() as int) == trailing_space(
                s@,
                from as int,
                to as int,
            ),
        decreases to,
    {
        to -= 1;
    }
    vstd::slice::slice_subrange(s, from, to)
}

/// `s` without the white space at its end.
pub open spec fn trimmed_end(s: Seq<u8>) -> Seq<u8> {
    s.subrange(0, trailing_space(s, 0, s.len() as int))
}

/// The part of `s` before the white space at its end; see
/// [`trimmed_end`].
pub fn trim_end(s: &[u8]) -> (r: &[u8])
    ensures
        r@ == trimmed_end(s@),
{
    let mut to: usize = s.len();
    while to > 0 && is_space_byte(s[to - 1])
        invariant
            to <= s.len(),
            trailing_space(s@, 0, s.len() as int) == trailing_space(s@, 0, to as int),
        decreases to,
    {
        to -= 1;
    }
    vstd::slice::slice_subrange(s, 0, to)
}

/// Whether `b` is white space; see [`is_space`].
pub fn is_space_byte(b: u8) -> (r: bool)
    ensures
        r == is_space(b),
{
    b == 0x20 || (0x09 <= b && b <= 0x0D)
}

/// Where the first byte `b` lies in `s` from `i` on, or the length of `s`
/// where there is none.
pub open spec fn index_of(s: Seq<u8>, b: u8, i: int) -> int
    decreases s.len() - i,
{
    if i < 0 || i >= s.len() {
        s.len() as int
    } else if s[i] == b {
        i
    } else {
        index_of(s, b, i + 1)
    }
}

/// Finds the first byte `b` in `s` from `from` on; see [`index_of`].
pub fn find_byte(s: &[u8], b: u8, from: usize) -> (r: usize)
    requires
        from <= s.len(),
    ensures
        r == index_of(s@, b, from as int),
        from <= r <= s.len(),
        r < s.len() ==> s[r as int] == b,
        forall|k: int| from <= k < r ==> s[k] != b,
{
    let mut i: usize = from;
    while i < s.len() && s[i] != b
        invariant
            from <= i <= s.len(),
            index_of(s@, b, from as int) == index_of(s@, b, i as int),
            forall|k: int| from <= k < i ==> s[k] != b,
        decreases s.len() - i,
    {
        i += 1;
    }
    i
}

/// The white space that a byte string begins with ends before its length
/// or at it, and what follows is no white space.
pub proof fn lemma_leading_space(s: Seq<u8>, i: int)
    requires
        0 <= i <= s.len(),
    ensures
        i <= leading_space(s, i) <= s.len(),
        leading_space(s, i) < s.len() ==> !is_space(s[leading_space(s, i)]),
        forall|k: int| i <= k < leading_space(s, i) ==> is_space(s[k]),
    decreases s.len() - i,
{
    if i < s.len() && is_space(s[i]) {
        lemma_leading_space(s, i + 1);
    }
}

/// The white space that a byte string ends in begins after `from` or at
/// it, and what comes before is no white space.
pub proof fn lemma_trailing_space(s: Seq<u8>, from: int, j: int)
    requires
        0 <= from <= j <= s.len(),
    ensures
        from <= trailing_space(s, from, j) <= j,
        from < trailing_space(s, from, j) ==> !is_space(s[trailing_space(s, from, j) - 1]),
    decreases j,
{
    if from < j && is_space(s[j - 1]) {
        lemma_trailing_space(s, from, j - 1);
    }
}

/// What is trimmed has no white space left at its ends: trimming it again
/// changes nothing.
pub proof fn lemma_trimmed_is_trimmed(s: Seq<u8>)
    ensures
        trimmed(trimmed(s)) == trimmed(s),
{
    let t = trimmed(s);
    lemma_leading_space(s, 0);
    let from = leading_space(s, 0);
    if from >= s.len() {
        assert(t =~= Seq::<u8>::empty());
    } else {
        lemma_trailing_space(s, from, s.len() as int);
        let to = trailing_space(s, from, s.len() as int);
        assert(!is_space(s[from]));
        assert(to > from) by {
            lemma_trailing_keeps(s, from, s.len() as int);
        }
        assert(t.len() == to - from);
        assert(t[0] == s[from]);
        assert(t[t.len() - 1] == s[to - 1]);
        assert(leading_space(t, 0) == 0);
        assert(trailing_space(t, 0, t.len() as int) == t.len());
        assert(t.subrange(0, t.len() as int) =~= t);
    }
}

/// Looking back for white space stops at a byte that is none.
pub proof fn lemma_trailing_keeps(s: Seq<u8>, from: int, j: int)
    requires
        0 <= from < j <= s.len(),
        !is_space(s[from]),
    ensures
        trailing_space(s, from, j) > from,
    decreases j,
{
    if is_space(s[j - 1]) {
        if j - 1 > from {
            lemma_trailing_keeps(s, from, j - 1);
        }
    }
}

} // verus!
