//! Opaque token generation: random bytes rendered in URL-safe base64 without
//! padding.

use vstd::prelude::*;
use base64::Engine;

verus! {

/// True of the characters of the URL-safe base64 alphabet:
/// `A`-`Z`, `a`-`z`, `0`-`9`, `-` and `_`.
pub open spec fn is_b64url_char(c: char) -> bool {
    ||| 65 <= c as u32 <= 90
    ||| 97 <= c as u32 <= 122
    ||| 48 <= c as u32 <= 57
    ||| c == '-'
    ||| c == '_'
}

/// What base64's URL-safe no-padding encoding returns on given bytes.
pub uninterp spec fn b64url_of(b: Seq<u8>) -> Seq<char>;

/// Relies on rand's `fill`, which draws from the thread-local generator:
/// fills a buffer of the asked length; nothing is promised of the values.
#[verifier::external_body]
fn fill_random(len: usize) -> (r: Vec<u8>)
    ensures
        r@.len() == len,
{
    let mut buf = vec![0u8; len];
    rand::fill(&mut buf[..]);
    buf
}

/// Relies on base64's `URL_SAFE_NO_PAD` engine: encodes with the URL-safe
/// alphabet, no padding, at four characters for every three bytes.
#[verifier::external_body]
fn b64url_encode(b: &Vec<u8>) -> (r: String)
    ensures
        r@ == b64url_of(b@),
        r@.len() == (b@.len() * 4 + 2) / 3,
        forall|i: int| 0 <= i < r@.len() ==> is_b64url_char(#[trigger] r@[i]),
{
    base64::engine::general_purpose::URL_SAFE_NO_PAD.encode(b)
}

/// Generates an opaque token of `bytes_len` random bytes in URL-safe base64
/// without padding. The token carries 8 bits of entropy per byte; at the 64
/// bytes the session store asks for, a collision is cryptographically
/// negligible and is neither detected nor retried.
pub fn generate_token(bytes_len: usize) -> (r: String)
    ensures
        r@.len() == (bytes_len * 4 + 2) / 3,
        forall|i: int| 0 <= i < r@.len() ==> is_b64url_char(#[trigger] r@[i]),
{
    let buf = fill_random(bytes_len);
    b64url_encode(&buf)
}

} // verus!
