//! The hash sidecar: the eight bytes that stand beside the remote archive and
//! carry the digest of the tree the archive was made from.

use vstd::prelude::*;

verus! {

/// Length of a sidecar in bytes.
pub const SIDECAR_LEN: usize = 8;

/// The byte of `d` at position `i`, counted from the most significant one.
pub open spec fn be_byte(d: u64, i: int) -> u8 {
    ((d >> ((8 * (7 - i)) as u64)) & 0xff) as u8
}

/// The big-endian encoding of a digest: eight bytes, most significant first.
pub open spec fn sidecar_bytes(d: u64) -> Seq<u8> {
    Seq::new(8, |i: int| be_byte(d, i))
}

/// The number that eight bytes stand for, most significant first.
pub open spec fn be_value(s: Seq<u8>) -> u64
    recommends
        s.len() == 8,
{
    ((s[0] as u64) << 56) | ((s[1] as u64) << 48) | ((s[2] as u64) << 40) | ((s[3] as u64) << 32)
        | ((s[4] as u64) << 24) | ((s[5] as u64) << 16) | ((s[6] as u64) << 8) | (s[7] as u64)
}

/// Encodes a digest as the sidecar holds it.
pub fn encode_sidecar(d: u64) -> (out: Vec<u8>)
    ensures
        out@ == sidecar_bytes(d),
{
    let mut out: Vec<u8> = Vec::new();
    let mut i: usize = 0;
    while i < 8
        invariant
            i <= 8,
            out@.len() == i,
            forall|k: int| 0 <= k < i ==> out@[k] == be_byte(d, k),
        decreases 8 - i,
    {
        let shift: u64 = (8 * (7 - i)) as u64;
        let b: u8 = ((d >> shift) & 0xff) as u8;
        out.push(b);
        i = i + 1;
    }
    out
}

/// Decoding undoes encoding: no two digests share a sidecar.
pub proof fn lemma_sidecar_round_trip(d: u64)
    ensures
        sidecar_bytes(d).len() == 8,
        be_value(sidecar_bytes(d)) == d,
{
    let s = sidecar_bytes(d);
    assert(s[0] == be_byte(d, 0) && s[1] == be_byte(d, 1) && s[2] == be_byte(d, 2) && s[3]
        == be_byte(d, 3));
    assert(s[4] == be_byte(d, 4) && s[5] == be_byte(d, 5) && s[6] == be_byte(d, 6) && s[7]
        == be_byte(d, 7));
    assert(((((d >> 56u64) & 0xff) as u8 as u64) << 56) | ((((d >> 48u64) & 0xff) as u8 as u64)
        << 48) | ((((d >> 40u64) & 0xff) as u8 as u64) << 40) | ((((d >> 32u64) & 0xff) as u8
        as u64) << 32) | ((((d >> 24u64) & 0xff) as u8 as u64) << 24) | ((((d >> 16u64) & 0xff)
        as u8 as u64) << 16) | ((((d >> 8u64) & 0xff) as u8 as u64) << 8) | (((d >> 0u64) & 0xff)
        as u8 as u64) == d) by (bit_vector);
}

/// The digest that a sidecar's bytes carry: none unless they are eight.
pub open spec fn sidecar_value(s: Seq<u8>) -> Option<u64> {
    if s.len() == SIDECAR_LEN {
        Some(be_value(s))
    } else {
        None
    }
}

/// Reads the digest out of a sidecar's bytes. Bytes of any other length
/// than eight carry none.
pub fn decode_sidecar(bytes: &Vec<u8>) -> (r: Option<u64>)
    ensures
        r == sidecar_value(bytes@),
{
    if bytes.len() != SIDECAR_LEN {
        return None;
    }
    let d: u64 = ((bytes[0] as u64) << 56) | ((bytes[1] as u64) << 48) | ((bytes[2] as u64) << 40)
        | ((bytes[3] as u64) << 32) | ((bytes[4] as u64) << 24) | ((bytes[5] as u64) << 16) | ((
    bytes[6] as u64) << 8) | (bytes[7] as u64);
    Some(d)
}

/// Eight bytes are the encoding of the number they stand for.
pub proof fn lemma_sidecar_of_value(s: Seq<u8>)
    requires
        s.len() == 8,
    ensures
        sidecar_bytes(be_value(s)) == s,
{
    let d = be_value(s);
    let (a, b, c, e, f, g, h, i) = (s[0], s[1], s[2], s[3], s[4], s[5], s[6], s[7]);
    assert(d == ((a as u64) << 56) | ((b as u64) << 48) | ((c as u64) << 40) | ((e as u64) << 32)
        | ((f as u64) << 24) | ((g as u64) << 16) | ((h as u64) << 8) | (i as u64));
    assert(((d >> 56u64) & 0xff) as u8 == a && ((d >> 48u64) & 0xff) as u8 == b && ((d >> 40u64)
        & 0xff) as u8 == c && ((d >> 32u64) & 0xff) as u8 == e && ((d >> 24u64) & 0xff) as u8 == f
        && ((d >> 16u64) & 0xff) as u8 == g && ((d >> 8u64) & 0xff) as u8 == h && ((d >> 0u64)
        & 0xff) as u8 == i) by (bit_vector)
        requires
            d == ((a as u64) << 56) | ((b as u64) << 48) | ((c as u64) << 40) | ((e as u64) << 32)
                | ((f as u64) << 24) | ((g as u64) << 16) | ((h as u64) << 8) | (i as u64),
    ;
    assert(sidecar_bytes(d) =~= s);
}

/// A remote sidecar matches a local digest exactly when it is that digest's
/// encoding, byte for byte.
pub proof fn lemma_sidecar_matches(s: Seq<u8>, d: u64)
    ensures
        (sidecar_value(s) == Some(d)) <==> (s == sidecar_bytes(d)),
{
    lemma_sidecar_round_trip(d);
    if s.len() == 8 {
        lemma_sidecar_of_value(s);
    }
}

} // verus!
