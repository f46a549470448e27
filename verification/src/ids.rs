//! 128-bit identifiers and their hyphenated hexadecimal string form
//! (8-4-4-4-12 lowercase hex digits), the form the cache and the relational
//! store exchange identifiers in.

use vstd::prelude::*;
use vstd::arithmetic::power::pow;
use vstd::string::StrSliceExecFns;
use crate::strutil::push_char;

verus! {

/// A 128-bit universally unique identifier, held as its integer value.
#[derive(Clone, Copy, PartialEq, Eq, Structural, Debug)]
pub struct Uuid {
    pub value: u128,
}

/// True of the characters `0`-`9`, `a`-`f` and `A`-`F`.
pub open spec fn is_hex_digit(c: char) -> bool {
    48 <= c as u32 <= 57 || 97 <= c as u32 <= 102 || 65 <= c as u32 <= 70
}

/// Numeric value of a hex digit character.
pub open spec fn hex_val_of(c: char) -> int {
    if 48 <= c as u32 <= 57 {
        c as u32 - 48
    } else if 97 <= c as u32 <= 102 {
        c as u32 - 87
    } else {
        c as u32 - 55
    }
}

/// The lowercase hex digit character for a value below 16.
pub open spec fn hex_char_of(d: int) -> char {
    if d == 0 { '0' }
    else if d == 1 { '1' }
    else if d == 2 { '2' }
    else if d == 3 { '3' }
    else if d == 4 { '4' }
    else if d == 5 { '5' }
    else if d == 6 { '6' }
    else if d == 7 { '7' }
    else if d == 8 { '8' }
    else if d == 9 { '9' }
    else if d == 10 { 'a' }
    else if d == 11 { 'b' }
    else if d == 12 { 'c' }
    else if d == 13 { 'd' }
    else if d == 14 { 'e' }
    else { 'f' }
}

/// The fixed-width big-endian lowercase hex rendering of `v` with `n` digits.
pub open spec fn hex_digits(v: int, n: nat) -> Seq<char>
    decreases n,
{
    if n == 0 {
        Seq::empty()
    } else {
        hex_digits(v / 16, (n - 1) as nat).push(hex_char_of(v % 16))
    }
}

/// Numeric value of a big-endian sequence of hex digit characters.
pub open spec fn hex_value(s: Seq<char>) -> int
    decreases s.len(),
{
    if s.len() == 0 {
        0
    } else {
        hex_value(s.drop_last()) * 16 + hex_val_of(s.last())
    }
}

/// The characters of `s` that are not hyphens, in order.
pub open spec fn without_hyphens(s: Seq<char>) -> Seq<char>
    decreases s.len(),
{
    if s.len() == 0 {
        Seq::empty()
    } else if s.last() == '-' {
        without_hyphens(s.drop_last())
    } else {
        without_hyphens(s.drop_last()).push(s.last())
    }
}

/// Shape of a hyphenated identifier string: 36 characters, hyphens exactly at
/// positions 8, 13, 18 and 23, hex digits everywhere else.
pub open spec fn is_uuid_str(s: Seq<char>) -> bool {
    &&& s.len() == 36
    &&& s[8] == '-'
    &&& s[13] == '-'
    &&& s[18] == '-'
    &&& s[23] == '-'
    &&& forall|i: int|
        0 <= i < 36 && i != 8 && i != 13 && i != 18 && i != 23 ==> is_hex_digit(#[trigger] s[i])
}

/// What parsing a hyphenated identifier string yields: the value of its hex
/// digits if the shape is right, nothing otherwise.
pub open spec fn spec_parse_uuid(s: Seq<char>) -> Option<u128> {
    if is_uuid_str(s) {
        Some(hex_value(without_hyphens(s)) as u128)
    } else {
        None
    }
}

/// The canonical hyphenated string of a 128-bit value.
pub open spec fn spec_uuid_str(v: u128) -> Seq<char> {
    let d = hex_digits(v as int, 32);
    d.subrange(0, 8) + seq!['-'] + d.subrange(8, 12) + seq!['-'] + d.subrange(12, 16)
        + seq!['-'] + d.subrange(16, 20) + seq!['-'] + d.subrange(20, 32)
}

/// The value of 16 to the 32nd: one more than the largest 128-bit value.
pub proof fn lemma_pow16_32()
    ensures
        pow(16, 32) == 0x100000000000000000000000000000000,
{
    vstd::arithmetic::power2::lemma2_to64();
    vstd::arithmetic::power2::lemma_pow2_adds(64, 64);
    vstd::arithmetic::power2::lemma_pow2(128);
    vstd::arithmetic::power::lemma_pow_multiplies(2, 4, 32);
    assert(pow(2, 4) == 16) by {
        reveal_with_fuel(pow, 5);
    }
}

pub proof fn lemma_hex_digits_len(v: int, n: nat)
    ensures
        hex_digits(v, n).len() == n,
    decreases n,
{
    if n > 0 {
        lemma_hex_digits_len(v / 16, (n - 1) as nat);
    }
}

pub proof fn lemma_hex_digits_are_hex(v: int, n: nat)
    requires
        v >= 0,
    ensures
        forall|i: int| 0 <= i < n ==> is_hex_digit(#[trigger] hex_digits(v, n)[i]),
        forall|i: int| 0 <= i < n ==> #[trigger] hex_digits(v, n)[i] != '-',
    decreases n,
{
    if n > 0 {
        lemma_hex_digits_len(v / 16, (n - 1) as nat);
        lemma_hex_digits_are_hex(v / 16, (n - 1) as nat);
        assert(0 <= v % 16 < 16);
        assert(is_hex_digit(hex_char_of(v % 16)));
        assert(hex_char_of(v % 16) != '-');
        assert(forall|i: int|
            0 <= i < n - 1 ==> hex_digits(v, n)[i] == #[trigger] hex_digits(v / 16, (n - 1) as nat)[i]);
        assert(hex_digits(v, n)[n - 1] == hex_char_of(v % 16));
    }
}

/// Reading the hex digits of a value back recovers the value.
pub proof fn lemma_hex_value_of_digits(v: int, n: nat)
    requires
        0 <= v < pow(16, n),
    ensures
        hex_value(hex_digits(v, n)) == v,
    decreases n,
{
    if n == 0 {
        vstd::arithmetic::power::lemma_pow0(16);
    } else {
        assert(pow(16, n) == 16 * pow(16, (n - 1) as nat)) by {
            vstd::arithmetic::power::lemma_pow1(16);
            vstd::arithmetic::power::lemma_pow_adds(16, 1, (n - 1) as nat);
        }
        assert(v / 16 < pow(16, (n - 1) as nat)) by {
            vstd::arithmetic::div_mod::lemma_fundamental_div_mod(v, 16);
            assert(v == 16 * (v / 16) + v % 16);
            if v / 16 >= pow(16, (n - 1) as nat) {
                assert(16 * (v / 16) >= 16 * pow(16, (n - 1) as nat)) by (nonlinear_arith)
                    requires v / 16 >= pow(16, (n - 1) as nat) >= 0;
                assert(false);
            }
        }
        lemma_hex_value_of_digits(v / 16, (n - 1) as nat);
        let d = hex_digits(v, n);
        assert(d.drop_last() =~= hex_digits(v / 16, (n - 1) as nat)) by {
            lemma_hex_digits_len(v / 16, (n - 1) as nat);
        }
        assert(0 <= v % 16 < 16);
        assert(hex_val_of(hex_char_of(v % 16)) == v % 16);
        vstd::arithmetic::div_mod::lemma_fundamental_div_mod(v, 16);
    }
}

/// Value of a hex digit string is below 16^length.
pub proof fn lemma_hex_value_bound(s: Seq<char>)
    requires
        forall|i: int| 0 <= i < s.len() ==> is_hex_digit(#[trigger] s[i]),
    ensures
        0 <= hex_value(s) < pow(16, s.len()),
    decreases s.len(),
{
    if s.len() == 0 {
        vstd::arithmetic::power::lemma_pow0(16);
    } else {
        lemma_hex_value_bound(s.drop_last());
        let m = (s.len() - 1) as nat;
        assert(pow(16, s.len()) == 16 * pow(16, m)) by {
            vstd::arithmetic::power::lemma_pow1(16);
            vstd::arithmetic::power::lemma_pow_adds(16, 1, m);
        }
        assert(is_hex_digit(s.last()));
        assert(0 <= hex_val_of(s.last()) < 16);
        assert(hex_value(s.drop_last()) * 16 + 16 <= pow(16, m) * 16) by (nonlinear_arith)
            requires hex_value(s.drop_last()) < pow(16, m);
        assert(hex_value(s.drop_last()) * 16 >= 0) by (nonlinear_arith)
            requires hex_value(s.drop_last()) >= 0;
    }
}

pub proof fn lemma_without_hyphens_concat(a: Seq<char>, b: Seq<char>)
    ensures
        without_hyphens(a + b) == without_hyphens(a) + without_hyphens(b),
    decreases b.len(),
{
    if b.len() == 0 {
        assert(a + b =~= a);
        assert(without_hyphens(a) + without_hyphens(b) =~= without_hyphens(a));
    } else {
        lemma_without_hyphens_concat(a, b.drop_last());
        assert((a + b).drop_last() =~= a + b.drop_last());
        assert((a + b).last() == b.last());
        if b.last() == '-' {
            assert(without_hyphens(b) == without_hyphens(b.drop_last()));
        } else {
            assert(without_hyphens(a) + without_hyphens(b.drop_last()).push(b.last())
                =~= (without_hyphens(a) + without_hyphens(b.drop_last())).push(b.last()));
        }
    }
}

pub proof fn lemma_without_hyphens_id(s: Seq<char>)
    requires
        forall|i: int| 0 <= i < s.len() ==> #[trigger] s[i] != '-',
    ensures
        without_hyphens(s) == s,
    decreases s.len(),
{
    if s.len() > 0 {
        lemma_without_hyphens_id(s.drop_last());
        assert(without_hyphens(s.drop_last()).push(s.last()) =~= s);
    }
}

/// Index-wise description of the canonical hyphenated string.
pub proof fn lemma_uuid_str_index(v: u128)
    ensures
        spec_uuid_str(v).len() == 36,
        forall|i: int| 0 <= i < 36 ==> #[trigger] spec_uuid_str(v)[i] == (
            if i == 8 || i == 13 || i == 18 || i == 23 {
                '-'
            } else if i < 8 {
                hex_digits(v as int, 32)[i]
            } else if i < 13 {
                hex_digits(v as int, 32)[i - 1]
            } else if i < 18 {
                hex_digits(v as int, 32)[i - 2]
            } else if i < 23 {
                hex_digits(v as int, 32)[i - 3]
            } else {
                hex_digits(v as int, 32)[i - 4]
            }),
{
    lemma_hex_digits_len(v as int, 32);
}

/// Parsing the canonical hyphenated string of a value recovers the value.
pub proof fn lemma_uuid_str_round_trip(v: u128)
    ensures
        spec_parse_uuid(spec_uuid_str(v)) == Some(v),
{
    let d = hex_digits(v as int, 32);
    let s = spec_uuid_str(v);
    lemma_hex_digits_len(v as int, 32);
    lemma_hex_digits_are_hex(v as int, 32);
    lemma_uuid_str_index(v);
    assert(is_uuid_str(s));
    let h = seq!['-'];
    assert(without_hyphens(h) =~= Seq::<char>::empty()) by {
        reveal_with_fuel(without_hyphens, 2);
        assert(h.last() == '-');
        assert(h.drop_last() =~= Seq::<char>::empty());
    }
    let d0 = d.subrange(0, 8);
    let d1 = d.subrange(8, 12);
    let d2 = d.subrange(12, 16);
    let d3 = d.subrange(16, 20);
    let d4 = d.subrange(20, 32);
    lemma_without_hyphens_concat(d0 + h + d1 + h + d2 + h + d3 + h, d4);
    lemma_without_hyphens_concat(d0 + h + d1 + h + d2 + h + d3, h);
    lemma_without_hyphens_concat(d0 + h + d1 + h + d2 + h, d3);
    lemma_without_hyphens_concat(d0 + h + d1 + h + d2, h);
    lemma_without_hyphens_concat(d0 + h + d1 + h, d2);
    lemma_without_hyphens_concat(d0 + h + d1, h);
    lemma_without_hyphens_concat(d0 + h, d1);
    lemma_without_hyphens_concat(d0, h);
    lemma_without_hyphens_id(d0);
    lemma_without_hyphens_id(d1);
    lemma_without_hyphens_id(d2);
    lemma_without_hyphens_id(d3);
    lemma_without_hyphens_id(d4);
    assert(without_hyphens(s) =~= d0 + d1 + d2 + d3 + d4);
    assert(d0 + d1 + d2 + d3 + d4 =~= d);
    assert(v <= u128::MAX);
    lemma_pow16_32();
    lemma_hex_value_of_digits(v as int, 32);
}

/// The lowercase hex digit character for a value below 16.
pub(crate) fn hex_char(d: u8) -> (c: char)
    requires
        d < 16,
    ensures
        c == hex_char_of(d as int),
{
    if d == 0 { '0' }
    else if d == 1 { '1' }
    else if d == 2 { '2' }
    else if d == 3 { '3' }
    else if d == 4 { '4' }
    else if d == 5 { '5' }
    else if d == 6 { '6' }
    else if d == 7 { '7' }
    else if d == 8 { '8' }
    else if d == 9 { '9' }
    else if d == 10 { 'a' }
    else if d == 11 { 'b' }
    else if d == 12 { 'c' }
    else if d == 13 { 'd' }
    else if d == 14 { 'e' }
    else { 'f' }
}

/// Numeric value of a hex digit character, or nothing for any other character.
pub(crate) fn hex_val(c: char) -> (r: Option<u8>)
    ensures
        match r {
            Some(d) => is_hex_digit(c) && d as int == hex_val_of(c) && d < 16,
            None => !is_hex_digit(c),
        },
{
    let u: u32 = c as u32;
    if 48 <= u && u <= 57 {
        Some((u - 48) as u8)
    } else if 97 <= u && u <= 102 {
        Some((u - 87) as u8)
    } else if 65 <= u && u <= 70 {
        Some((u - 55) as u8)
    } else {
        None
    }
}

/// Big-endian fixed-width lowercase hex rendering of a value.
fn hex_str_of(v: u128, n: usize) -> (r: String)
    requires
        n <= 32,
    ensures
        r@ == hex_digits(v as int, n as nat),
    decreases n,
{
    if n == 0 {
        String::new()
    } else {
        let mut r = hex_str_of(v / 16, n - 1);
        let c = hex_char((v % 16) as u8);
        push_char(&mut r, c);
        r
    }
}

impl Uuid {
    /// The canonical hyphenated lowercase form, as the relational store
    /// renders identifiers.
    pub fn to_hyphenated(&self) -> (r: String)
        ensures
            r@ == spec_uuid_str(self.value),
    {
        let d = hex_str_of(self.value, 32);
        proof {
            lemma_hex_digits_len(self.value as int, 32);
            lemma_uuid_str_index(self.value);
        }
        let mut r = String::new();
        let mut i: usize = 0;
        let mut j: usize = 0;
        while i < 36
            invariant
                i <= 36,
                d@ == hex_digits(self.value as int, 32),
                d@.len() == 32,
                j == if i <= 8 { i as int } else if i <= 13 { i - 1 } else if i <= 18 { i - 2 }
                    else if i <= 23 { i - 3 } else { i - 4 },
                r@ =~= spec_uuid_str(self.value).subrange(0, i as int),
                spec_uuid_str(self.value).len() == 36,
                forall|k: int| 0 <= k < 36 ==> #[trigger] spec_uuid_str(self.value)[k] == (
                    if k == 8 || k == 13 || k == 18 || k == 23 {
                        '-'
                    } else if k < 8 {
                        hex_digits(self.value as int, 32)[k]
                    } else if k < 13 {
                        hex_digits(self.value as int, 32)[k - 1]
                    } else if k < 18 {
                        hex_digits(self.value as int, 32)[k - 2]
                    } else if k < 23 {
                        hex_digits(self.value as int, 32)[k - 3]
                    } else {
                        hex_digits(self.value as int, 32)[k - 4]
                    }),
            decreases 36 - i,
        {
            if i == 8 || i == 13 || i == 18 || i == 23 {
                push_char(&mut r, '-');
            } else {
                let c = d.as_str().get_char(j);
                push_char(&mut r, c);
                j = j + 1;
            }
            i = i + 1;
        }
        proof {
            assert(r@ =~= spec_uuid_str(self.value));
        }
        r
    }

    /// Parses the canonical hyphenated form; any other shape yields nothing.
    pub fn parse_hyphenated(s: &str) -> (r: Option<Uuid>)
        ensures
            match r {
                Some(u) => spec_parse_uuid(s@) == Some(u.value),
                None => spec_parse_uuid(s@) == None::<u128>,
            },
    {
        let n = s.unicode_len();
        if n != 36 {
            return None;
        }
        let mut acc: u128 = 0;
        let mut i: usize = 0;
        let ghost mut hexes: int = 0;
        proof {
            vstd::arithmetic::power::lemma_pow0(16);
        }
        while i < 36
            invariant
                i <= 36,
                s@.len() == 36,
                hexes == if i <= 8 { i as int } else if i <= 13 { i - 1 } else if i <= 18 { i - 2 }
                    else if i <= 23 { i - 3 } else { i - 4 },
                i > 8 ==> s@[8] == '-',
                i > 13 ==> s@[13] == '-',
                i > 18 ==> s@[18] == '-',
                i > 23 ==> s@[23] == '-',
                forall|k: int| 0 <= k < i && k != 8 && k != 13 && k != 18 && k != 23
                    ==> is_hex_digit(#[trigger] s@[k]),
                without_hyphens(s@.subrange(0, i as int)).len() == hexes,
                forall|k: int| 0 <= k < hexes
                    ==> is_hex_digit(#[trigger] without_hyphens(s@.subrange(0, i as int))[k]),
                acc as int == hex_value(without_hyphens(s@.subrange(0, i as int))),
                acc < pow(16, hexes as nat),
            decreases 36 - i,
        {
            let c = s.get_char(i);
            let ghost pre = s@.subrange(0, i as int);
            let ghost post = s@.subrange(0, i + 1 as int);
            proof {
                assert(post.drop_last() =~= pre);
                assert(post.last() == s@[i as int]);
            }
            if i == 8 || i == 13 || i == 18 || i == 23 {
                if c != '-' {
                    return None;
                }
                proof {
                    assert(without_hyphens(post) == without_hyphens(pre));
                }
            } else {
                match hex_val(c) {
                    Some(d) => {
                        proof {
                            assert(without_hyphens(post) == without_hyphens(pre).push(c));
                            assert(without_hyphens(post).drop_last() =~= without_hyphens(pre));
                            assert(pow(16, (hexes + 1) as nat) == 16 * pow(16, hexes as nat)) by {
                                vstd::arithmetic::power::lemma_pow1(16);
                                vstd::arithmetic::power::lemma_pow_adds(16, 1, hexes as nat);
                            }
                            assert(acc * 16 + 16 <= pow(16, hexes as nat) * 16) by (nonlinear_arith)
                                requires (acc as int) < pow(16, hexes as nat);
                            lemma_pow16_32();
                            vstd::arithmetic::power::lemma_pow_increases(16, (hexes + 1) as nat, 32);
                        }
                        acc = acc * 16 + (d as u128);
                        proof {
                            hexes = hexes + 1;
                        }
                    }
                    None => {
                        proof {
                            assert(!is_uuid_str(s@));
                        }
                        return None;
                    }
                }
            }
            i = i + 1;
        }
        proof {
            assert(s@.subrange(0, 36) =~= s@);
            assert(is_uuid_str(s@));
            lemma_hex_value_bound(without_hyphens(s@));
        }
        Some(Uuid { value: acc })
    }
}

} // verus!
