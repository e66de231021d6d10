//! Hashing values the way std's `Hash` feeds them to a `Hasher`: the bytes
//! of each value one after the other (a string as its UTF-8 bytes and a
//! closing `0xFF`, an integer as its little-endian bytes, a `bool` as one
//! byte), hashed as one stream by `DefaultHasher`.

use vstd::prelude::*;

use std::hash::{DefaultHasher, Hasher};

verus! {

/// What a fresh `DefaultHasher` returns from `finish` after `write` of the
/// byte stream `b`.
pub uninterp spec fn std_hash_bytes(b: Seq<u8>) -> u64;

/// `DefaultHasher::new`, one `Hasher::write` of `b`, `Hasher::finish`: the
/// hash named [`std_hash_bytes`] of the bytes.
#[verifier::external_body]
pub(crate) fn default_hash_bytes(b: &[u8]) -> (r: u64)
    ensures
        r == std_hash_bytes(b@),
{
    let mut h = DefaultHasher::new();
    h.write(b);
    h.finish()
}

/// The low `n` bytes of `x`, least significant first.
pub open spec fn le_bytes(x: nat, n: nat) -> Seq<u8>
    decreases n,
{
    if n == 0 {
        Seq::empty()
    } else {
        seq![(x % 256) as u8] + le_bytes(x / 256, (n - 1) as nat)
    }
}

/// The bytes std's `Hash` writes for a string: its UTF-8 bytes and `0xFF`.
pub open spec fn str_hash_bytes(s: Seq<char>) -> Seq<u8> {
    vstd::utf8::encode_utf8(s) + seq![0xFFu8]
}

/// The byte std's `Hash` writes for a `bool`.
pub open spec fn bool_byte(b: bool) -> Seq<u8> {
    seq![if b { 1u8 } else { 0u8 }]
}

/// Append the low `n` bytes of `x`, least significant first.
pub fn push_le(out: &mut Vec<u8>, x: u128, n: usize)
    ensures
        final(out)@ == old(out)@ + le_bytes(x as nat, n as nat),
    decreases n,
{
    if n == 0 {
        assert(old(out)@ + le_bytes(x as nat, 0) =~= old(out)@);
        return;
    }
    let ghost start = out@;
    out.push((x % 256) as u8);
    push_le(out, x / 256, n - 1);
    assert(final(out)@ =~= start + le_bytes(x as nat, n as nat));
}

/// Append the bytes std's `Hash` writes for the string `s`.
pub fn push_str_bytes(out: &mut Vec<u8>, s: &str)
    ensures
        final(out)@ == old(out)@ + str_hash_bytes(s@),
{
    let bytes = s.as_bytes();
    let ghost start = out@;
    let mut i: usize = 0;
    while i < bytes.len()
        invariant
            i <= bytes@.len(),
            bytes@ == vstd::utf8::encode_utf8(s@),
            out@ == start + bytes@.take(i as int),
        decreases bytes.len() - i,
    {
        out.push(bytes[i]);
        i += 1;
        assert(out@ =~= start + bytes@.take(i as int));
    }
    assert(bytes@.take(i as int) =~= bytes@);
    out.push(0xFF);
    assert(out@ =~= start + str_hash_bytes(s@));
}

/// Append the byte std's `Hash` writes for `b`.
pub fn push_bool(out: &mut Vec<u8>, b: bool)
    ensures
        final(out)@ == old(out)@ + bool_byte(b),
{
    out.push(if b { 1 } else { 0 });
    assert(out@ =~= old(out)@ + bool_byte(b));
}

} // verus!
