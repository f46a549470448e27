//! The session value encoding: one explicit encode/decode pair for the JSON
//! object `{"userId":...,"userEmail":...,"createdAt":...}` that the session
//! store keeps in the cache.

use vstd::prelude::*;
use vstd::string::StrSliceExecFns;
use vstd::string::StringExecFns;
use crate::dec::{spec_i64_dec, dec_digits, dec_value, is_dec_digit};
use crate::ids::{spec_uuid_str, is_uuid_str, hex_value, without_hyphens, is_hex_digit,
    hex_val_of, hex_char_of, Uuid};
use crate::sessions::{Session, SessionModel};
use crate::strutil::push_char;

verus! {

/// How one character of a string value is written inside a JSON string:
/// quote and backslash escaped, control characters as `\u00XX`, everything
/// else as itself.
pub open spec fn escape_char(c: char) -> Seq<char> {
    if c == '"' {
        seq!['\\', '"']
    } else if c == '\\' {
        seq!['\\', '\\']
    } else if (c as u32) < 32 {
        seq!['\\', 'u', '0', '0', hex_char_of(c as u32 as int / 16), hex_char_of(
            c as u32 as int % 16,
        )]
    } else {
        seq![c]
    }
}

/// The JSON string body of a string value: each character escaped in turn.
pub open spec fn escape_str(s: Seq<char>) -> Seq<char>
    decreases s.len(),
{
    if s.len() == 0 {
        Seq::empty()
    } else {
        escape_char(s[0]) + escape_str(s.drop_first())
    }
}

/// The JSON rendering of the optional user id: `null` or the quoted
/// hyphenated identifier.
pub open spec fn spec_opt_uuid_json(u: Option<u128>) -> Seq<char> {
    match u {
        None => "null"@,
        Some(v) => seq!['"'] + spec_uuid_str(v) + seq!['"'],
    }
}

/// The JSON rendering of the optional user email: `null` or the quoted
/// escaped string.
pub open spec fn spec_opt_str_json(e: Option<Seq<char>>) -> Seq<char> {
    match e {
        None => "null"@,
        Some(s) => seq!['"'] + escape_str(s) + seq!['"'],
    }
}

/// The canonical cache value of a session record.
pub open spec fn spec_session_json(m: SessionModel) -> Seq<char> {
    "{\"userId\":"@ + spec_opt_uuid_json(m.user_id) + ",\"userEmail\":"@ + spec_opt_str_json(
        m.user_email,
    ) + ",\"createdAt\":"@ + spec_i64_dec(m.created_at) + "}"@
}

/// True when `p` is the first `p.len()` characters of `s`.
pub open spec fn begins_with(s: Seq<char>, p: Seq<char>) -> bool {
    p.len() <= s.len() && s.subrange(0, p.len() as int) == p
}

/// Reads a JSON string body up to and including its closing quote; yields the
/// decoded content and the number of characters consumed.
pub open spec fn scan_str(s: Seq<char>) -> Option<(Seq<char>, int)>
    decreases s.len(),
{
    if s.len() == 0 {
        None
    } else if s[0] == '"' {
        Some((Seq::empty(), 1))
    } else if s[0] == '\\' {
        if s.len() >= 2 && (s[1] == '"' || s[1] == '\\') {
            match scan_str(s.subrange(2, s.len() as int)) {
                Some(t) => Some((seq![s[1]] + t.0, 2 + t.1)),
                None => None,
            }
        } else if s.len() >= 6 && s[1] == 'u' && s[2] == '0' && s[3] == '0' && is_hex_digit(s[4])
            && is_hex_digit(s[5]) && 16 * hex_val_of(s[4]) + hex_val_of(s[5]) < 32 {
            match scan_str(s.subrange(6, s.len() as int)) {
                Some(t) => Some(
                    (seq![((16 * hex_val_of(s[4]) + hex_val_of(s[5])) as u32) as char] + t.0,
                    6 + t.1),
                ),
                None => None,
            }
        } else {
            None
        }
    } else {
        match scan_str(s.subrange(1, s.len() as int)) {
            Some(t) => Some((seq![s[0]] + t.0, 1 + t.1)),
            None => None,
        }
    }
}

/// Length of the run of decimal digits at the front of `s`.
pub open spec fn digit_run_len(s: Seq<char>) -> int
    decreases s.len(),
{
    if s.len() == 0 || !is_dec_digit(s[0]) {
        0
    } else {
        1 + digit_run_len(s.subrange(1, s.len() as int))
    }
}

/// Reads the user id field value: `null`, or a quoted hyphenated identifier.
pub open spec fn parse_user_id(s: Seq<char>) -> Option<(Option<u128>, int)> {
    if begins_with(s, "null"@) {
        Some((None, 4))
    } else if s.len() >= 38 && s[0] == '"' && s[37] == '"' && is_uuid_str(s.subrange(1, 37)) {
        Some((Some(hex_value(without_hyphens(s.subrange(1, 37))) as u128), 38))
    } else {
        None
    }
}

/// Reads the user email field value: `null`, or a quoted escaped string.
pub open spec fn parse_email(s: Seq<char>) -> Option<(Option<Seq<char>>, int)> {
    if begins_with(s, "null"@) {
        Some((None, 4))
    } else if s.len() >= 1 && s[0] == '"' {
        match scan_str(s.subrange(1, s.len() as int)) {
            Some(t) => Some((Some(t.0), 1 + t.1)),
            None => None,
        }
    } else {
        None
    }
}

/// Reads the creation timestamp: an optional minus sign and a digit run whose
/// value fits a signed 64-bit integer.
pub open spec fn parse_created_at(s: Seq<char>) -> Option<(int, int)> {
    if s.len() >= 1 && s[0] == '-' {
        let rest = s.subrange(1, s.len() as int);
        let run = digit_run_len(rest);
        if run >= 1 && dec_value(rest.subrange(0, run)) <= 0x8000000000000000 {
            Some((-dec_value(rest.subrange(0, run)), 1 + run))
        } else {
            None
        }
    } else {
        let run = digit_run_len(s);
        if run >= 1 && dec_value(s.subrange(0, run)) <= 0x7fffffffffffffff {
            Some((dec_value(s.subrange(0, run)), run))
        } else {
            None
        }
    }
}

/// What decoding a cache value yields: the session record, if the value has
/// exactly the shape the encoder produces (with tolerance in the escape and
/// digit forms), nothing otherwise.
pub open spec fn spec_parse_session(s: Seq<char>) -> Option<SessionModel> {
    if !begins_with(s, "{\"userId\":"@) {
        None
    } else {
        let s1 = s.skip(10);
        match parse_user_id(s1) {
            None => None,
            Some((uid, n1)) => {
                let s2 = s1.skip(n1);
                if !begins_with(s2, ",\"userEmail\":"@) {
                    None
                } else {
                    let s3 = s2.skip(13);
                    match parse_email(s3) {
                        None => None,
                        Some((em, n2)) => {
                            let s4 = s3.skip(n2);
                            if !begins_with(s4, ",\"createdAt\":"@) {
                                None
                            } else {
                                let s5 = s4.skip(13);
                                match parse_created_at(s5) {
                                    None => None,
                                    Some((ts, n3)) => {
                                        let s6 = s5.skip(n3);
                                        if s6.len() == 1 && s6[0] == '}' {
                                            Some(
                                                SessionModel {
                                                    user_id: uid,
                                                    user_email: em,
                                                    created_at: ts,
                                                },
                                            )
                                        } else {
                                            None
                                        }
                                    },
                                }
                            }
                        },
                    }
                }
            },
        }
    }
}

/// Escaping distributes over concatenation.
pub proof fn lemma_escape_concat(a: Seq<char>, b: Seq<char>)
    ensures
        escape_str(a + b) == escape_str(a) + escape_str(b),
    decreases a.len(),
{
    if a.len() == 0 {
        assert(a + b =~= b);
        assert(escape_str(a) + escape_str(b) =~= escape_str(b));
    } else {
        lemma_escape_concat(a.drop_first(), b);
        assert((a + b).drop_first() =~= a.drop_first() + b);
        assert((a + b)[0] == a[0]);
        assert(escape_char(a[0]) + (escape_str(a.drop_first()) + escape_str(b)) =~= (escape_char(
            a[0],
        ) + escape_str(a.drop_first())) + escape_str(b));
    }
}

/// Escaping a single character yields that character's escape form.
pub proof fn lemma_escape_single(c: char)
    ensures
        escape_str(seq![c]) == escape_char(c),
{
    let s = seq![c];
    assert(s.drop_first() =~= Seq::<char>::empty());
    assert(escape_str(s) == escape_char(c) + escape_str(Seq::<char>::empty()));
    assert(escape_char(c) + Seq::<char>::empty() =~= escape_char(c));
}

/// Encodes a session record to its canonical cache value.
pub fn encode_session(sess: &Session) -> (r: String)
    ensures
        r@ == spec_session_json(sess@),
{
    let mut r = String::from_str("{\"userId\":");
    match &sess.user_id {
        None => {
            r.append("null");
        },
        Some(u) => {
            push_char(&mut r, '"');
            let h = u.to_hyphenated();
            r.append(h.as_str());
            push_char(&mut r, '"');
            proof {
                assert(r@ =~= "{\"userId\":"@ + (seq!['"'] + spec_uuid_str(u.value)
                    + seq!['"']));
            }
        },
    }
    let ghost r1 = "{\"userId\":"@ + spec_opt_uuid_json(sess@.user_id);
    proof {
        assert(r@ =~= r1);
    }
    r.append(",\"userEmail\":");
    match &sess.user_email {
        None => {
            r.append("null");
        },
        Some(e) => {
            push_char(&mut r, '"');
            let ghost base = r@;
            let n = e.as_str().unicode_len();
            let mut i: usize = 0;
            while i < n
                invariant
                    i <= n,
                    n == e@.len(),
                    r@ == base + escape_str(e@.subrange(0, i as int)),
                decreases n - i,
            {
                let c = e.as_str().get_char(i);
                proof {
                    assert(e@.subrange(0, i + 1 as int) =~= e@.subrange(0, i as int) + seq![c]);
                    lemma_escape_concat(e@.subrange(0, i as int), seq![c]);
                    lemma_escape_single(c);
                }
                let u: u32 = c as u32;
                if c == '"' {
                    push_char(&mut r, '\\');
                    push_char(&mut r, '"');
                    proof {
                        assert(r@ =~= base + escape_str(e@.subrange(0, i + 1 as int)));
                    }
                } else if c == '\\' {
                    push_char(&mut r, '\\');
                    push_char(&mut r, '\\');
                    proof {
                        assert(r@ =~= base + escape_str(e@.subrange(0, i + 1 as int)));
                    }
                } else if u < 32 {
                    push_char(&mut r, '\\');
                    push_char(&mut r, 'u');
                    push_char(&mut r, '0');
                    push_char(&mut r, '0');
                    let hi = crate::ids::hex_char((u / 16) as u8);
                    let lo = crate::ids::hex_char((u % 16) as u8);
                    push_char(&mut r, hi);
                    push_char(&mut r, lo);
                    proof {
                        assert(r@ =~= base + escape_str(e@.subrange(0, i + 1 as int)));
                    }
                } else {
                    push_char(&mut r, c);
                    proof {
                        assert(r@ =~= base + escape_str(e@.subrange(0, i + 1 as int)));
                    }
                }
                i = i + 1;
            }
            proof {
                assert(e@.subrange(0, n as int) =~= e@);
            }
            push_char(&mut r, '"');
            proof {
                assert(r@ =~= r1 + ",\"userEmail\":"@ + (seq!['"'] + escape_str(e@)
                    + seq!['"']));
            }
        },
    }
    let ghost r2 = r1 + ",\"userEmail\":"@ + spec_opt_str_json(sess@.user_email);
    proof {
        assert(r@ =~= r2);
    }
    r.append(",\"createdAt\":");
    crate::dec::append_i64_dec(&mut r, sess.created_at);
    push_char(&mut r, '}');
    proof {
        reveal_strlit("}");
        assert(r@ =~= spec_session_json(sess@));
    }
    r
}

/// Checks that `lit` occurs in `s` at position `i`.
fn expect_lit(s: &str, i: usize, lit: &str) -> (r: Option<usize>)
    requires
        i <= s@.len(),
    ensures
        match r {
            Some(j) => begins_with(s@.skip(i as int), lit@) && j == i + lit@.len()
                && j <= s@.len(),
            None => !begins_with(s@.skip(i as int), lit@),
        },
{
    let n = s.unicode_len();
    let ln = lit.unicode_len();
    if ln > n - i {
        return None;
    }
    let mut j: usize = 0;
    while j < ln
        invariant
            j <= ln,
            i + ln <= n,
            n == s@.len(),
            ln == lit@.len(),
            forall|k: int| 0 <= k < j ==> s@[i + k] == lit@[k],
        decreases ln - j,
    {
        let a = s.get_char(i + j);
        let b = lit.get_char(j);
        if a != b {
            proof {
                assert(s@.skip(i as int)[j as int] == s@[i + j]);
                if begins_with(s@.skip(i as int), lit@) {
                    assert(s@.skip(i as int).subrange(0, ln as int)[j as int] == lit@[j as int]);
                    assert(false);
                }
            }
            return None;
        }
        j = j + 1;
    }
    proof {
        assert(s@.skip(i as int).subrange(0, ln as int) =~= lit@);
    }
    Some(i + ln)
}

/// Reads the user id field at position `i`, as `parse_user_id` describes.
fn parse_uuid_field(s: &str, i: usize) -> (r: Option<(Option<Uuid>, usize)>)
    requires
        i <= s@.len(),
    ensures
        match r {
            Some(p) => {
                &&& parse_user_id(s@.skip(i as int)) == Some(
                    (
                        match p.0 {
                            Some(u) => Some(u.value),
                            None => None::<u128>,
                        },
                        p.1 - i,
                    ),
                )
                &&& i <= p.1 <= s@.len()
            },
            None => parse_user_id(s@.skip(i as int)) == None::<(Option<u128>, int)>,
        },
{
    proof {
        reveal_strlit("null");
    }
    match expect_lit(s, i, "null") {
        Some(j) => {
            return Some((None, j));
        },
        None => {},
    }
    let n = s.unicode_len();
    if n - i < 38 {
        return None;
    }
    let c0 = s.get_char(i);
    proof {
        assert(s@.skip(i as int)[0] == s@[i as int]);
        assert(s@.skip(i as int)[37] == s@[i + 37]);
    }
    if c0 != '"' {
        return None;
    }
    let c37 = s.get_char(i + 37);
    if c37 != '"' {
        return None;
    }
    let sub = s.substring_char(i + 1, i + 37);
    proof {
        assert(sub@ =~= s@.skip(i as int).subrange(1, 37));
    }
    match Uuid::parse_hyphenated(sub) {
        Some(u) => Some((Some(u), i + 38)),
        None => None,
    }
}

/// Reads the user email field at position `i`, as `parse_email` describes.
#[verifier::loop_isolation(false)]
fn parse_email_field(s: &str, i: usize) -> (r: Option<(Option<String>, usize)>)
    requires
        i <= s@.len(),
    ensures
        match r {
            Some(p) => {
                &&& parse_email(s@.skip(i as int)) == Some(
                    (
                        match p.0 {
                            Some(ref e) => Some(e@),
                            None => None::<Seq<char>>,
                        },
                        p.1 - i,
                    ),
                )
                &&& i <= p.1 <= s@.len()
            },
            None => parse_email(s@.skip(i as int)) == None::<(Option<Seq<char>>, int)>,
        },
{
    proof {
        reveal_strlit("null");
    }
    match expect_lit(s, i, "null") {
        Some(j) => {
            return Some((None, j));
        },
        None => {},
    }
    let n = s.unicode_len();
    if i >= n {
        return None;
    }
    let c0 = s.get_char(i);
    proof {
        assert(s@.skip(i as int)[0] == s@[i as int]);
    }
    if c0 != '"' {
        return None;
    }
    let ghost start = i + 1 as int;
    proof {
        assert(s@.skip(i as int).subrange(1, s@.skip(i as int).len() as int) =~= s@.skip(start));
    }
    let mut out = String::new();
    let mut k: usize = i + 1;
    while k < n
        invariant
            i + 1 <= k <= n,
            n == s@.len(),
            start == i + 1,
            scan_str(s@.skip(start)) == match scan_str(s@.skip(k as int)) {
                Some(t) => Some::<(Seq<char>, int)>((out@ + t.0, (k - start) + t.1)),
                None => None::<(Seq<char>, int)>,
            },
        decreases n - k,
    {
        let c = s.get_char(k);
        proof {
            assert(s@.skip(k as int)[0] == s@[k as int]);
            assert(s@.skip(k as int).len() == n - k);
        }
        if c == '"' {
            proof {
                assert(scan_str(s@.skip(k as int)) == Some((Seq::<char>::empty(), 1int)));
                assert(out@ + Seq::<char>::empty() =~= out@);
            }
            return Some((Some(out), k + 1));
        } else if c == '\\' {
            if k + 1 >= n {
                proof {
                    assert(scan_str(s@.skip(k as int)) == None::<(Seq<char>, int)>);
                }
                return None;
            }
            let c1 = s.get_char(k + 1);
            proof {
                assert(s@.skip(k as int)[1] == s@[k + 1]);
            }
            if c1 == '"' || c1 == '\\' {
                proof {
                    assert(s@.skip(k as int).subrange(2, s@.skip(k as int).len() as int)
                        =~= s@.skip(k + 2 as int));
                }
                push_char(&mut out, c1);
                proof {
                    if scan_str(s@.skip(k + 2 as int)) is Some {
                        let t = scan_str(s@.skip(k + 2 as int)).unwrap();
                        assert(out@ + t.0 =~= (out@.drop_last() + (seq![c1] + t.0)));
                    }
                }
                k = k + 2;
            } else if c1 == 'u' {
                if n - k < 6 {
                    proof {
                        assert(s@.skip(k as int).len() < 6);
                        assert(scan_str(s@.skip(k as int)) == None::<(Seq<char>, int)>);
                    }
                    return None;
                }
                let c2 = s.get_char(k + 2);
                let c3 = s.get_char(k + 3);
                proof {
                    assert(s@.skip(k as int)[2] == s@[k + 2]);
                    assert(s@.skip(k as int)[3] == s@[k + 3]);
                    assert(s@.skip(k as int)[4] == s@[k + 4]);
                    assert(s@.skip(k as int)[5] == s@[k + 5]);
                }
                if c2 != '0' || c3 != '0' {
                    return None;
                }
                let d1 = match crate::ids::hex_val(s.get_char(k + 4)) {
                    Some(d) => d,
                    None => {
                        return None;
                    },
                };
                let d2 = match crate::ids::hex_val(s.get_char(k + 5)) {
                    Some(d) => d,
                    None => {
                        return None;
                    },
                };
                let val: u8 = 16 * d1 + d2;
                if val >= 32 {
                    return None;
                }
                let ch = val as char;
                proof {
                    assert(ch == ((16 * hex_val_of(s@[k + 4]) + hex_val_of(s@[k + 5])) as u32)
                        as char);
                    assert(s@.skip(k as int).subrange(6, s@.skip(k as int).len() as int)
                        =~= s@.skip(k + 6 as int));
                }
                push_char(&mut out, ch);
                proof {
                    if scan_str(s@.skip(k + 6 as int)) is Some {
                        let t = scan_str(s@.skip(k + 6 as int)).unwrap();
                        assert(out@ + t.0 =~= (out@.drop_last() + (seq![ch] + t.0)));
                    }
                }
                k = k + 6;
            } else {
                proof {
                    assert(scan_str(s@.skip(k as int)) == None::<(Seq<char>, int)>);
                }
                return None;
            }
        } else {
            proof {
                assert(s@.skip(k as int).subrange(1, s@.skip(k as int).len() as int)
                    =~= s@.skip(k + 1 as int));
            }
            push_char(&mut out, c);
            proof {
                if scan_str(s@.skip(k + 1 as int)) is Some {
                    let t = scan_str(s@.skip(k + 1 as int)).unwrap();
                    assert(out@ + t.0 =~= (out@.drop_last() + (seq![c] + t.0)));
                }
            }
            k = k + 1;
        }
    }
    proof {
        assert(s@.skip(k as int).len() == 0);
        assert(scan_str(s@.skip(k as int)) == None::<(Seq<char>, int)>);
    }
    None
}

/// True when the character at position `k` is a decimal digit.
fn is_digit_at(s: &str, k: usize) -> (r: bool)
    requires
        k < s@.len(),
    ensures
        r == is_dec_digit(s@[k as int]),
{
    let c = s.get_char(k);
    match crate::dec::dec_val(c) {
        Some(_) => true,
        None => false,
    }
}

/// Reads the creation timestamp at position `i`, as `parse_created_at`
/// describes.
#[verifier::loop_isolation(false)]
fn parse_ts_field(s: &str, i: usize) -> (r: Option<(i64, usize)>)
    requires
        i <= s@.len(),
    ensures
        match r {
            Some(p) => {
                &&& parse_created_at(s@.skip(i as int)) == Some((p.0 as int, p.1 - i))
                &&& i <= p.1 <= s@.len()
            },
            None => parse_created_at(s@.skip(i as int)) == None::<(int, int)>,
        },
{
    let n = s.unicode_len();
    let neg: bool = if i < n {
        let c = s.get_char(i);
        proof {
            assert(s@.skip(i as int)[0] == s@[i as int]);
        }
        c == '-'
    } else {
        false
    };
    let start: usize = if neg {
        i + 1
    } else {
        i
    };
    proof {
        if neg {
            assert(s@.skip(i as int).subrange(1, s@.skip(i as int).len() as int)
                =~= s@.skip(start as int));
        }
    }
    let mut acc: u128 = 0;
    let mut over: bool = false;
    let mut k: usize = start;
    proof {
        assert(s@.subrange(start as int, start as int) =~= Seq::<char>::empty());
    }
    while k < n && is_digit_at(s, k)
        invariant
            start <= k <= n,
            forall|m: int| start <= m < k ==> is_dec_digit(#[trigger] s@[m]),
            digit_run_len(s@.skip(start as int)) == (k - start) + digit_run_len(
                s@.skip(k as int),
            ),
            !over ==> acc as int == dec_value(s@.subrange(start as int, k as int))
                && acc <= 0x8000000000000000,
            over ==> dec_value(s@.subrange(start as int, k as int)) > 0x8000000000000000,
            dec_value(s@.subrange(start as int, k as int)) >= 0,
        decreases n - k,
    {
        let c = s.get_char(k);
        let d = match crate::dec::dec_val(c) {
            Some(d) => d,
            None => vstd::pervasive::unreached(),
        };
        proof {
            assert(s@.skip(k as int)[0] == s@[k as int]);
            assert(s@.skip(k as int).subrange(1, s@.skip(k as int).len() as int)
                =~= s@.skip(k + 1 as int));
            assert(s@.subrange(start as int, k + 1 as int).drop_last()
                =~= s@.subrange(start as int, k as int));
        }
        let ghost old_val = dec_value(s@.subrange(start as int, k as int));
        proof {
            assert(dec_value(s@.subrange(start as int, k + 1 as int)) == old_val * 10 + d);
            if over {
                assert(old_val * 10 + d > 0x8000000000000000) by (nonlinear_arith)
                    requires
                        old_val > 0x8000000000000000,
                        d >= 0;
            }
        }
        if !over {
            acc = acc * 10 + (d as u128);
            if acc > 0x8000000000000000 {
                over = true;
            }
        }
        k = k + 1;
    }
    proof {
        if k < n && is_dec_digit(s@[k as int]) {
            assert(false);
        }
        assert(digit_run_len(s@.skip(k as int)) == 0) by {
            if s@.skip(k as int).len() > 0 {
                assert(s@.skip(k as int)[0] == s@[k as int]);
            }
        }
    }
    let run = k - start;
    let ghost srange = s@.subrange(start as int, k as int);
    proof {
        if run > 0 {
            if neg {
                assert(s@.skip(start as int).subrange(0, run as int) =~= srange);
            } else {
                assert(s@.skip(i as int).subrange(0, run as int) =~= srange);
            }
        }
    }
    if run == 0 {
        return None;
    }
    if over {
        return None;
    }
    if neg {
        let ts: i64 = if acc == 0x8000000000000000 {
            i64::MIN
        } else {
            -(acc as i64)
        };
        Some((ts, k))
    } else {
        if acc > 0x7fffffffffffffff {
            return None;
        }
        Some((acc as i64, k))
    }
}

/// Decodes a cache value to a session record; yields nothing for any value
/// that `spec_parse_session` rejects.
#[verifier::rlimit(50)]
pub fn decode_session(v: &str) -> (r: Option<Session>)
    ensures
        match r {
            Some(sess) => spec_parse_session(v@) == Some(sess@),
            None => spec_parse_session(v@) == None::<SessionModel>,
        },
{
    proof {
        reveal_strlit("{\"userId\":");
        reveal_strlit(",\"userEmail\":");
        reveal_strlit(",\"createdAt\":");
        assert(v@.skip(0) =~= v@);
    }
    let i0 = match expect_lit(v, 0, "{\"userId\":") {
        Some(j) => j,
        None => {
            return None;
        },
    };
    proof {
        assert(v@.skip(0).subrange(0, 10) =~= v@.subrange(0, 10));
        assert(v@.skip(i0 as int) =~= v@.skip(0).skip(10));
    }
    let (uid, i1) = match parse_uuid_field(v, i0) {
        Some(p) => p,
        None => {
            return None;
        },
    };
    proof {
        assert(v@.skip(i1 as int) =~= v@.skip(10).skip(i1 - 10));
    }
    let i2 = match expect_lit(v, i1, ",\"userEmail\":") {
        Some(j) => j,
        None => {
            return None;
        },
    };
    proof {
        assert(v@.skip(i2 as int) =~= v@.skip(i1 as int).skip(13));
    }
    let (em, i3) = match parse_email_field(v, i2) {
        Some(p) => p,
        None => {
            return None;
        },
    };
    proof {
        assert(v@.skip(i3 as int) =~= v@.skip(i2 as int).skip(i3 - i2));
    }
    let i4 = match expect_lit(v, i3, ",\"createdAt\":") {
        Some(j) => j,
        None => {
            return None;
        },
    };
    proof {
        assert(v@.skip(i4 as int) =~= v@.skip(i3 as int).skip(13));
    }
    let (ts, i5) = match parse_ts_field(v, i4) {
        Some(p) => p,
        None => {
            return None;
        },
    };
    proof {
        assert(v@.skip(i5 as int) =~= v@.skip(i4 as int).skip(i5 - i4));
    }
    let n = v.unicode_len();
    if n - i5 != 1 {
        return None;
    }
    let cl = v.get_char(i5);
    proof {
        assert(v@.skip(i5 as int)[0] == v@[i5 as int]);
    }
    if cl != '}' {
        return None;
    }
    Some(Session { user_id: uid, user_email: em, created_at: ts })
}

/// A concatenation begins with its first part, and skipping it leaves the rest.
pub proof fn lemma_prefix(p: Seq<char>, rest: Seq<char>)
    ensures
        begins_with(p + rest, p),
        (p + rest).skip(p.len() as int) == rest,
{
    assert((p + rest).subrange(0, p.len() as int) =~= p);
    assert((p + rest).skip(p.len() as int) =~= rest);
}

/// Scanning the escaped form of a string, followed by its closing quote,
/// recovers the string.
pub proof fn lemma_scan_escape(e: Seq<char>, rest: Seq<char>)
    ensures
        scan_str(escape_str(e) + seq!['"'] + rest) == Some(
            (e, escape_str(e).len() + 1 as int),
        ),
    decreases e.len(),
{
    let q = seq!['"'];
    let s = escape_str(e) + q + rest;
    if e.len() == 0 {
        assert(s =~= q + rest);
        assert(s[0] == '"');
        assert(scan_str(s) == Some((Seq::<char>::empty(), 1int)));
        assert(e =~= Seq::<char>::empty());
    } else {
        let c = e[0];
        let e2 = e.drop_first();
        lemma_scan_escape(e2, rest);
        let t = escape_str(e2) + q + rest;
        let ec = escape_char(c);
        assert(escape_str(e) == ec + escape_str(e2));
        assert(s =~= ec + t);
        assert(seq![c] + e2 =~= e);
        if c == '"' {
            assert(s[0] == '\\' && s[1] == '"');
            assert(s.subrange(2, s.len() as int) =~= t);
            assert(scan_str(s) == Some((seq![s[1]] + e2, 2 + (escape_str(e2).len() + 1 as int))));
        } else if c == '\\' {
            assert(s[0] == '\\' && s[1] == '\\');
            assert(s.subrange(2, s.len() as int) =~= t);
            assert(scan_str(s) == Some((seq![s[1]] + e2, 2 + (escape_str(e2).len() + 1 as int))));
        } else if (c as u32) < 32 {
            let cv = c as u32 as int;
            assert(s[0] == '\\' && s[1] == 'u' && s[2] == '0' && s[3] == '0');
            assert(s[4] == hex_char_of(cv / 16) && s[5] == hex_char_of(cv % 16));
            assert(0 <= cv / 16 < 16 && 0 <= cv % 16 < 16);
            assert(is_hex_digit(s[4]) && is_hex_digit(s[5]));
            assert(hex_val_of(s[4]) == cv / 16 && hex_val_of(s[5]) == cv % 16);
            assert(16 * (cv / 16) + cv % 16 == cv);
            assert(((16 * hex_val_of(s[4]) + hex_val_of(s[5])) as u32) == c as u32);
            vstd::utf8::char_u32_cast(c, c as u32);
            assert(s.subrange(6, s.len() as int) =~= t);
            assert(scan_str(s) == Some((seq![c] + e2, 6 + (escape_str(e2).len() + 1 as int))));
        } else {
            assert(s[0] == c);
            assert(s.subrange(1, s.len() as int) =~= t);
            assert(scan_str(s) == Some((seq![c] + e2, 1 + (escape_str(e2).len() + 1 as int))));
        }
    }
}

/// The digit run at the front of digits followed by a non-digit is exactly
/// the digits.
pub proof fn lemma_digit_run(d: Seq<char>, rest: Seq<char>)
    requires
        forall|i: int| 0 <= i < d.len() ==> is_dec_digit(#[trigger] d[i]),
        rest.len() >= 1,
        !is_dec_digit(rest[0]),
    ensures
        digit_run_len(d + rest) == d.len(),
    decreases d.len(),
{
    let s = d + rest;
    if d.len() == 0 {
        assert(s =~= rest);
    } else {
        lemma_digit_run(d.drop_first(), rest);
        assert(s[0] == d[0]);
        assert(s.subrange(1, s.len() as int) =~= d.drop_first() + rest);
    }
}

/// The user id field of a canonical value parses back to the id.
pub proof fn lemma_parse_user_id_of(u: Option<u128>, rest: Seq<char>)
    ensures
        parse_user_id(spec_opt_uuid_json(u) + rest) == Some(
            (u, spec_opt_uuid_json(u).len() as int),
        ),
        (spec_opt_uuid_json(u) + rest).skip(spec_opt_uuid_json(u).len() as int) == rest,
{
    reveal_strlit("null");
    let s = spec_opt_uuid_json(u) + rest;
    lemma_prefix(spec_opt_uuid_json(u), rest);
    match u {
        None => {
            assert(s =~= "null"@ + rest);
            lemma_prefix("null"@, rest);
            assert(parse_user_id(s) == Some((None::<u128>, 4int)));
        },
        Some(v) => {
            crate::ids::lemma_uuid_str_round_trip(v);
            crate::ids::lemma_uuid_str_index(v);
            assert(s =~= (seq!['"'] + spec_uuid_str(v) + seq!['"']) + rest);
            if begins_with(s, "null"@) {
                assert(s.subrange(0, 4)[0] == 'n');
                assert(s[0] == '"');
                assert(false);
            }
            assert(s.len() >= 38);
            assert(s[0] == '"');
            assert(s[37] == '"');
            assert(s.subrange(1, 37) =~= spec_uuid_str(v));
            assert(is_uuid_str(s.subrange(1, 37)));
            assert(hex_value(without_hyphens(s.subrange(1, 37))) as u128 == v);
            assert(parse_user_id(s) == Some((Some(v), 38int)));
        },
    }
}

/// The user email field of a canonical value parses back to the email.
pub proof fn lemma_parse_email_of(e: Option<Seq<char>>, rest: Seq<char>)
    ensures
        parse_email(spec_opt_str_json(e) + rest) == Some(
            (e, spec_opt_str_json(e).len() as int),
        ),
        (spec_opt_str_json(e) + rest).skip(spec_opt_str_json(e).len() as int) == rest,
{
    reveal_strlit("null");
    let s = spec_opt_str_json(e) + rest;
    lemma_prefix(spec_opt_str_json(e), rest);
    match e {
        None => {
            assert(s =~= "null"@ + rest);
            lemma_prefix("null"@, rest);
            assert(parse_email(s) == Some((None::<Seq<char>>, 4int)));
        },
        Some(em) => {
            assert(s =~= (seq!['"'] + escape_str(em) + seq!['"']) + rest);
            if begins_with(s, "null"@) {
                assert(s.subrange(0, 4)[0] == 'n');
                assert(s[0] == '"');
                assert(false);
            }
            assert(s[0] == '"');
            lemma_scan_escape(em, rest);
            assert(s.subrange(1, s.len() as int) =~= escape_str(em) + seq!['"'] + rest);
            assert(scan_str(s.subrange(1, s.len() as int)) == Some(
                (em, escape_str(em).len() + 1 as int),
            ));
            assert(parse_email(s) == Some((Some(em), escape_str(em).len() + 2 as int)));
        },
    }
}

/// The creation timestamp of a canonical value parses back to the timestamp.
pub proof fn lemma_parse_created_at_of(ts: int, rest: Seq<char>)
    requires
        -0x8000000000000000 <= ts <= 0x7fffffffffffffff,
        rest.len() >= 1,
        !is_dec_digit(rest[0]),
        rest[0] != '-',
    ensures
        parse_created_at(spec_i64_dec(ts) + rest) == Some(
            (ts, spec_i64_dec(ts).len() as int),
        ),
        (spec_i64_dec(ts) + rest).skip(spec_i64_dec(ts).len() as int) == rest,
{
    let s = spec_i64_dec(ts) + rest;
    lemma_prefix(spec_i64_dec(ts), rest);
    if ts >= 0 {
        crate::dec::lemma_dec_digits_wf(ts);
        crate::dec::lemma_dec_value_of_digits(ts);
        assert(s =~= dec_digits(ts) + rest);
        lemma_digit_run(dec_digits(ts), rest);
        let run = digit_run_len(s);
        assert(run == dec_digits(ts).len());
        assert(is_dec_digit(s[0]));
        assert(s[0] != '-');
        assert(s.subrange(0, run) =~= dec_digits(ts));
        assert(dec_value(s.subrange(0, run)) == ts);
        assert(parse_created_at(s) == Some((ts, run)));
    } else {
        crate::dec::lemma_dec_digits_wf(-ts);
        crate::dec::lemma_dec_value_of_digits(-ts);
        assert(spec_i64_dec(ts) == seq!['-'] + dec_digits(-ts));
        assert(s =~= seq!['-'] + (dec_digits(-ts) + rest));
        assert(s[0] == '-');
        let body = s.subrange(1, s.len() as int);
        assert(body =~= dec_digits(-ts) + rest);
        lemma_digit_run(dec_digits(-ts), rest);
        let run = digit_run_len(body);
        assert(run == dec_digits(-ts).len());
        assert(body.subrange(0, run) =~= dec_digits(-ts));
        assert(dec_value(body.subrange(0, run)) == -ts);
        assert(parse_created_at(s) == Some((ts, 1 + run)));
    }
}

/// Decoding the canonical cache value of a session record recovers the
/// record: the encode/decode pair round-trips.
pub proof fn lemma_session_json_round_trip(m: SessionModel)
    requires
        -0x8000000000000000 <= m.created_at <= 0x7fffffffffffffff,
    ensures
        spec_parse_session(spec_session_json(m)) == Some(m),
{
    reveal_strlit("{\"userId\":");
    reveal_strlit(",\"userEmail\":");
    reveal_strlit(",\"createdAt\":");
    reveal_strlit("}");
    let p0 = "{\"userId\":"@;
    let p1 = ",\"userEmail\":"@;
    let p2 = ",\"createdAt\":"@;
    let u = spec_opt_uuid_json(m.user_id);
    let e = spec_opt_str_json(m.user_email);
    let t = spec_i64_dec(m.created_at);
    let s = spec_session_json(m);
    let r1 = u + (p1 + (e + (p2 + (t + "}"@))));
    assert(s =~= p0 + r1);
    lemma_prefix(p0, r1);
    assert(s.skip(10) == r1);
    let r2 = p1 + (e + (p2 + (t + "}"@)));
    assert(r1 =~= u + r2);
    lemma_parse_user_id_of(m.user_id, r2);
    assert(parse_user_id(r1) == Some((m.user_id, u.len() as int)));
    assert(r1.skip(u.len() as int) == r2);
    let r3 = e + (p2 + (t + "}"@));
    lemma_prefix(p1, r3);
    assert(r2 =~= p1 + r3);
    assert(begins_with(r2, p1));
    assert(r2.skip(13) == r3);
    let r4 = p2 + (t + "}"@);
    assert(r3 =~= e + r4);
    lemma_parse_email_of(m.user_email, r4);
    assert(parse_email(r3) == Some((m.user_email, e.len() as int)));
    assert(r3.skip(e.len() as int) == r4);
    let r5 = t + "}"@;
    lemma_prefix(p2, r5);
    assert(r4 =~= p2 + r5);
    assert(r4.skip(13) == r5);
    assert("}"@ =~= seq!['}']);
    assert(!is_dec_digit('}') && '}' != '-');
    lemma_parse_created_at_of(m.created_at, "}"@);
    assert(parse_created_at(r5) == Some((m.created_at, t.len() as int)));
    let r6 = r5.skip(t.len() as int);
    assert(r6 == "}"@);
    assert(r6.len() == 1 && r6[0] == '}');
    assert(spec_parse_session(s) == Some(
        SessionModel {
            user_id: m.user_id,
            user_email: m.user_email,
            created_at: m.created_at,
        },
    ));
    assert(SessionModel {
        user_id: m.user_id,
        user_email: m.user_email,
        created_at: m.created_at,
    } == m);
}

} // verus!
