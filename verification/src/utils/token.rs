//! Random tokens: session ids, CSRF tokens and stored file names.

use vstd::prelude::*;

verus! {

/// `n` random bytes from the thread's generator (`rand::fill`). Only their number is
/// stated: the values are chance.
#[verifier::external_body]
pub(crate) fn random_bytes(n: usize) -> (v: Vec<u8>)
    ensures
        v@.len() == n,
{
    let mut v = vec![0u8; n];
    rand::fill(&mut v[..]);
    v
}

/// A lower-case hexadecimal digit.
pub open spec fn is_lower_hex(c: char) -> bool {
    ('0' <= c <= '9') || ('a' <= c <= 'f')
}

/// The lower-case hexadecimal digit for `d < 16`.
pub open spec fn lower_hex_digit(d: u8) -> char {
    if d < 10 {
        ((48 + d) as u8) as char
    } else {
        ((87 + d) as u8) as char
    }
}

/// The bytes `b` as lower-case hexadecimal, two digits each, high digit first.
pub open spec fn hex_of(b: Seq<u8>) -> Seq<char>
    decreases b.len(),
{
    if b.len() == 0 {
        Seq::empty()
    } else {
        hex_of(b.drop_last()) + seq![lower_hex_digit(b.last() / 16), lower_hex_digit(b.last() % 16)]
    }
}

fn hex_digit(d: u8) -> (c: char)
    requires
        d < 16,
    ensures
        c == lower_hex_digit(d),
        is_lower_hex(c),
{
    if d < 10 {
        (48 + d) as char
    } else {
        (87 + d) as char
    }
}

/// The bytes `b` as lower-case hexadecimal.
pub fn hex_encode(b: &Vec<u8>) -> (r: String)
    requires
        2 * b@.len() <= usize::MAX,
    ensures
        r@ == hex_of(b@),
        r@.len() == 2 * b@.len(),
        forall|i: int| 0 <= i < r@.len() ==> is_lower_hex(#[trigger] r@[i]),
{
    let mut out = String::new();
    let mut i: usize = 0;
    while i < b.len()
        invariant
            i <= b.len(),
            out@ == hex_of(b@.take(i as int)),
            out@.len() == 2 * i,
            forall|k: int| 0 <= k < out@.len() ==> is_lower_hex(#[trigger] out@[k]),
        decreases b.len() - i,
    {
        let x = b[i];
        let ghost before = out@;
        out.push(hex_digit(x / 16));
        out.push(hex_digit(x % 16));
        assert(b@.take(i + 1).drop_last() =~= b@.take(i as int));
        assert(out@ =~= before + seq![lower_hex_digit(x / 16), lower_hex_digit(x % 16)]);
        i += 1;
    }
    assert(b@.take(b.len() as int) =~= b@);
    out
}

/// A random token of `bytes` random bytes, written as `2 * bytes` lower-case hexadecimal
/// digits.
pub fn random_token(bytes: usize) -> (r: String)
    requires
        2 * bytes <= usize::MAX,
    ensures
        r@.len() == 2 * bytes,
        forall|i: int| 0 <= i < r@.len() ==> is_lower_hex(#[trigger] r@[i]),
{
    let b = random_bytes(bytes);
    hex_encode(&b)
}

/// A new session id: 32 random bytes in hexadecimal.
pub fn session_id() -> (r: String)
    ensures
        r@.len() == 64,
        forall|i: int| 0 <= i < r@.len() ==> is_lower_hex(#[trigger] r@[i]),
{
    random_token(32)
}

/// A new CSRF token: 32 random bytes in hexadecimal.
pub fn csrf_token() -> (r: String)
    ensures
        r@.len() == 64,
        forall|i: int| 0 <= i < r@.len() ==> is_lower_hex(#[trigger] r@[i]),
{
    random_token(32)
}

} // verus!
