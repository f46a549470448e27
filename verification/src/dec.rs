//! Decimal rendering of signed 64-bit timestamps, used by the session value
//! encoding.

use vstd::prelude::*;
use crate::strutil::push_char;

verus! {

/// True of the characters `0`-`9`.
pub open spec fn is_dec_digit(c: char) -> bool {
    48 <= c as u32 <= 57
}

/// Numeric value of a decimal digit character.
pub open spec fn dec_val_of(c: char) -> int {
    c as u32 - 48
}

/// The decimal digit character for a value below 10.
pub open spec fn dec_char_of(d: int) -> char {
    if d == 0 { '0' }
    else if d == 1 { '1' }
    else if d == 2 { '2' }
    else if d == 3 { '3' }
    else if d == 4 { '4' }
    else if d == 5 { '5' }
    else if d == 6 { '6' }
    else if d == 7 { '7' }
    else if d == 8 { '8' }
    else { '9' }
}

/// The canonical (no leading zero) decimal digit string of a value `v >= 0`.
pub open spec fn dec_digits(v: int) -> Seq<char>
    decreases v,
{
    if v < 10 {
        seq![dec_char_of(v)]
    } else {
        dec_digits(v / 10).push(dec_char_of(v % 10))
    }
}

/// Numeric value of a big-endian sequence of decimal digit characters.
pub open spec fn dec_value(s: Seq<char>) -> int
    decreases s.len(),
{
    if s.len() == 0 {
        0
    } else {
        dec_value(s.drop_last()) * 10 + dec_val_of(s.last())
    }
}

/// The canonical decimal string of a signed value: a minus sign for negative
/// values, then the digits of the magnitude.
pub open spec fn spec_i64_dec(v: int) -> Seq<char> {
    if v < 0 {
        seq!['-'] + dec_digits(-v)
    } else {
        dec_digits(v)
    }
}

pub proof fn lemma_dec_digits_wf(v: int)
    requires
        v >= 0,
    ensures
        dec_digits(v).len() >= 1,
        forall|i: int| 0 <= i < dec_digits(v).len() ==> is_dec_digit(#[trigger] dec_digits(v)[i]),
    decreases v,
{
    if v >= 10 {
        lemma_dec_digits_wf(v / 10);
        let d = dec_digits(v);
        let p = dec_digits(v / 10);
        assert(forall|i: int| 0 <= i < p.len() ==> d[i] == #[trigger] p[i]);
        assert(d[d.len() - 1] == dec_char_of(v % 10));
        assert(0 <= v % 10 < 10);
    } else {
        assert(0 <= v < 10);
    }
}

/// Reading the decimal digits of a value back recovers the value.
pub proof fn lemma_dec_value_of_digits(v: int)
    requires
        v >= 0,
    ensures
        dec_value(dec_digits(v)) == v,
    decreases v,
{
    if v < 10 {
        let s = dec_digits(v);
        assert(s.len() == 1);
        assert(s.drop_last() =~= Seq::<char>::empty());
        assert(dec_value(s) == dec_value(s.drop_last()) * 10 + dec_val_of(dec_char_of(v)));
    } else {
        lemma_dec_value_of_digits(v / 10);
        let s = dec_digits(v);
        assert(s.drop_last() =~= dec_digits(v / 10)) by {
            lemma_dec_digits_wf(v / 10);
        }
        assert(0 <= v % 10 < 10);
        assert(dec_val_of(dec_char_of(v % 10)) == v % 10);
        vstd::arithmetic::div_mod::lemma_fundamental_div_mod(v, 10);
    }
}

/// The decimal digit character for a value below 10.
fn dec_char(d: u8) -> (c: char)
    requires
        d < 10,
    ensures
        c == dec_char_of(d as int),
{
    if d == 0 { '0' }
    else if d == 1 { '1' }
    else if d == 2 { '2' }
    else if d == 3 { '3' }
    else if d == 4 { '4' }
    else if d == 5 { '5' }
    else if d == 6 { '6' }
    else if d == 7 { '7' }
    else if d == 8 { '8' }
    else { '9' }
}

/// Numeric value of a decimal digit character, or nothing for any other
/// character.
pub(crate) fn dec_val(c: char) -> (r: Option<u8>)
    ensures
        match r {
            Some(d) => is_dec_digit(c) && d as int == dec_val_of(c) && d < 10,
            None => !is_dec_digit(c),
        },
{
    let u: u32 = c as u32;
    if 48 <= u && u <= 57 {
        Some((u - 48) as u8)
    } else {
        None
    }
}

/// Appends the canonical decimal digits of `v` to `out`.
fn append_u64_dec(out: &mut String, v: u64)
    ensures
        final(out)@ == old(out)@ + dec_digits(v as int),
    decreases v,
{
    if v < 10 {
        let c = dec_char(v as u8);
        push_char(out, c);
        proof {
            assert(old(out)@ + dec_digits(v as int) =~= old(out)@.push(dec_char_of(v as int)));
        }
    } else {
        append_u64_dec(out, v / 10);
        let c = dec_char((v % 10) as u8);
        push_char(out, c);
        proof {
            assert(old(out)@ + dec_digits(v as int)
                =~= (old(out)@ + dec_digits(v as int / 10)).push(dec_char_of(v as int % 10)));
        }
    }
}

/// Appends the canonical decimal string of a signed value to `out`.
pub(crate) fn append_i64_dec(out: &mut String, v: i64)
    ensures
        final(out)@ == old(out)@ + spec_i64_dec(v as int),
{
    if v >= 0 {
        append_u64_dec(out, v as u64);
    } else {
        push_char(out, '-');
        let m: u64 = if v == i64::MIN {
            9223372036854775808u64
        } else {
            (-v) as u64
        };
        append_u64_dec(out, m);
        proof {
            assert(old(out)@ + spec_i64_dec(v as int)
                =~= old(out)@.push('-') + dec_digits(m as int));
        }
    }
}

} // verus!
