//! Character-level helpers shared by the query serializer and the
//! parsers: string equality, decimal rendering of integers, and
//! JSON string escaping.

use vstd::prelude::*;
use vstd::string::StrSliceExecFns;
use vstd::string::StringExecFns;

verus! {

/// Relies on String::push: appends the given char to the end of the string.
#[verifier::external_body]
pub(crate) fn push_char(s: &mut String, c: char)
    ensures
        final(s)@ == old(s)@.push(c),
{
    s.push(c);
}

/// Character-for-character string equality, stated over the views.
pub fn str_eq(a: &str, b: &str) -> (r: bool)
    ensures
        r == (a@ == b@),
{
    let alen = a.unicode_len();
    let blen = b.unicode_len();
    if alen != blen {
        return false;
    }
    let mut i: usize = 0;
    while i < alen
        invariant
            i <= alen,
            alen == a@.len(),
            blen == b@.len(),
            alen == blen,
            forall|j: int| 0 <= j < i ==> a@[j] == b@[j],
        decreases alen - i,
    {
        if a.get_char(i) != b.get_char(i) {
            return false;
        }
        i = i + 1;
    }
    proof {
        assert(a@ =~= b@);
    }
    true
}

pub open spec fn digit_char(d: int) -> char
    recommends
        0 <= d < 10,
{
    (48 + d) as char
}

/// The decimal rendering of a non-negative integer, most significant
/// digit first; zero renders as the single digit `0`.
pub open spec fn dec_digits(n: int) -> Seq<char>
    recommends
        n >= 0,
    decreases n,
{
    if n < 10 {
        seq![digit_char(n)]
    } else {
        dec_digits(n / 10).push(digit_char(n % 10))
    }
}

/// The decimal rendering of a signed integer: a leading minus sign
/// for negative values, then the digits of the magnitude.
pub open spec fn int_digits(n: int) -> Seq<char> {
    if n < 0 {
        seq!['-'] + dec_digits(-n)
    } else {
        dec_digits(n)
    }
}

fn digit_char_of(d: u64) -> (c: char)
    requires
        d < 10,
    ensures
        c == digit_char(d as int),
{
    ((48 + d as u8)) as char
}

/// Appends the decimal rendering of `n` to `out`.
pub fn append_u64(out: &mut String, n: u64)
    ensures
        final(out)@ == old(out)@ + dec_digits(n as int),
{
    let ghost pre = out@;
    if n < 10 {
        let c = digit_char_of(n);
        push_char(out, c);
        assert(out@ =~= pre + dec_digits(n as int));
        return;
    }
    let mut digits: Vec<char> = Vec::new();
    let mut m: u64 = n;
    while m > 0
        invariant
            if m > 0 {
                dec_digits(n as int) =~= dec_digits(m as int) + digits@.reverse()
            } else {
                digits@.len() > 0 && dec_digits(n as int) =~= digits@.reverse()
            },
        decreases m,
    {
        let d = digit_char_of(m % 10);
        let ghost olddigits = digits@;
        digits.push(d);
        proof {
            assert(digits@.reverse() =~= seq![d] + olddigits.reverse());
        }
        let m2 = m / 10;
        proof {
            if m2 > 0 {
                assert(dec_digits(m as int) =~= dec_digits(m2 as int).push(digit_char(m as int % 10)));
                assert(dec_digits(n as int) =~= dec_digits(m2 as int) + digits@.reverse());
            } else {
                assert(dec_digits(m as int) =~= seq![digit_char(m as int)]);
                assert(dec_digits(n as int) =~= digits@.reverse());
            }
        }
        m = m2;
    }
    let len = digits.len();
    let mut j: usize = 0;
    while j < len
        invariant
            j <= len,
            len == digits@.len(),
            dec_digits(n as int) =~= digits@.reverse(),
            out@ =~= pre + digits@.reverse().take(j as int),
        decreases len - j,
    {
        let c = digits[len - 1 - j];
        push_char(out, c);
        proof {
            assert(digits@.reverse()[j as int] == digits@[len - 1 - j]);
            assert(digits@.reverse().take(j + 1) =~= digits@.reverse().take(j as int).push(digits@.reverse()[j as int]));
            assert(out@ =~= pre + digits@.reverse().take(j + 1));
        }
        j = j + 1;
    }
    proof {
        assert(digits@.reverse().take(len as int) =~= digits@.reverse());
    }
}

/// Appends the decimal rendering of the signed `n` to `out`.
pub fn append_i64(out: &mut String, n: i64)
    ensures
        final(out)@ == old(out)@ + int_digits(n as int),
{
    let ghost pre = out@;
    if n < 0 {
        push_char(out, '-');
        let mag: u64 = ((-(n as i128)) as u64);
        append_u64(out, mag);
        assert(out@ =~= pre + int_digits(n as int));
    } else {
        append_u64(out, n as u64);
    }
}

pub open spec fn hex_char(d: int) -> char
    recommends
        0 <= d < 16,
{
    if d < 10 {
        (48 + d) as char
    } else {
        (87 + d) as char
    }
}

/// How one character appears inside a JSON string literal: quotes and
/// backslashes are escaped, the common control characters take their
/// short escapes, any other control character takes a `\u00..` escape,
/// and everything else stands for itself.
pub open spec fn esc_char(c: char) -> Seq<char> {
    if c == '"' {
        seq!['\\', '"']
    } else if c == '\\' {
        seq!['\\', '\\']
    } else if c == '\u{8}' {
        seq!['\\', 'b']
    } else if c == '\u{9}' {
        seq!['\\', 't']
    } else if c == '\u{a}' {
        seq!['\\', 'n']
    } else if c == '\u{c}' {
        seq!['\\', 'f']
    } else if c == '\u{d}' {
        seq!['\\', 'r']
    } else if (c as u32) < 32 {
        seq!['\\', 'u', '0', '0', hex_char(c as int / 16), hex_char(c as int % 16)]
    } else {
        seq![c]
    }
}

/// The body of a JSON string literal for `s`: each character escaped.
pub open spec fn escaped(s: Seq<char>) -> Seq<char>
    decreases s.len(),
{
    if s.len() == 0 {
        Seq::empty()
    } else {
        escaped(s.drop_last()) + esc_char(s.last())
    }
}

/// A JSON string literal: the escaped body between double quotes.
pub open spec fn quoted(s: Seq<char>) -> Seq<char> {
    "\""@ + escaped(s) + "\""@
}

fn hex_char_of(d: u32) -> (c: char)
    requires
        d < 16,
    ensures
        c == hex_char(d as int),
{
    if d < 10 {
        ((48 + d as u8)) as char
    } else {
        ((87 + d as u8)) as char
    }
}

/// Appends the escaped body of a JSON string literal for `s` to `out`.
pub fn append_escaped(out: &mut String, s: &str)
    ensures
        final(out)@ == old(out)@ + escaped(s@),
{
    let ghost pre = out@;
    let len = s.unicode_len();
    let mut i: usize = 0;
    while i < len
        invariant
            i <= len,
            len == s@.len(),
            out@ =~= pre + escaped(s@.take(i as int)),
        decreases len - i,
    {
        let c = s.get_char(i);
        if c == '"' {
            push_char(out, '\\');
            push_char(out, '"');
        } else if c == '\\' {
            push_char(out, '\\');
            push_char(out, '\\');
        } else if c == '\u{8}' {
            push_char(out, '\\');
            push_char(out, 'b');
        } else if c == '\u{9}' {
            push_char(out, '\\');
            push_char(out, 't');
        } else if c == '\u{a}' {
            push_char(out, '\\');
            push_char(out, 'n');
        } else if c == '\u{c}' {
            push_char(out, '\\');
            push_char(out, 'f');
        } else if c == '\u{d}' {
            push_char(out, '\\');
            push_char(out, 'r');
        } else if (c as u32) < 32 {
            push_char(out, '\\');
            push_char(out, 'u');
            push_char(out, '0');
            push_char(out, '0');
            let hi = hex_char_of((c as u32) / 16);
            push_char(out, hi);
            let lo = hex_char_of((c as u32) % 16);
            push_char(out, lo);
        } else {
            push_char(out, c);
        }
        proof {
            assert(out@ =~= pre + escaped(s@.take(i as int)) + esc_char(c));
            assert(s@.take(i + 1).drop_last() =~= s@.take(i as int));
            assert(s@.take(i + 1).last() == c);
            assert(escaped(s@.take(i + 1)) =~= escaped(s@.take(i as int)) + esc_char(c));
            assert(out@ =~= pre + escaped(s@.take(i + 1)));
        }
        i = i + 1;
    }
    proof {
        assert(s@.take(len as int) =~= s@);
    }
}

} // verus!
