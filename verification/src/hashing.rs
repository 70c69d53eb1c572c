//! Content hashing for the asset store and for SVG id prefixes, together with
//! hexadecimal formatting of the resulting hashes.
//!
//! The content hash is 64-bit FNV-1a over the raw bytes; asset paths carry it
//! as 16 hex digits, SVG id prefixes carry its low 16 bits as 4 hex digits.

use vstd::prelude::*;
use crate::strutil::push_char;

verus! {

pub const FNV_OFFSET: u64 = 0xcbf29ce484222325;

pub const FNV_PRIME: u64 = 0x100000001b3;

/// One FNV-1a round: fold one byte into the running hash.
pub open spec fn fnv1a_step(h: u64, b: u8) -> u64 {
    (h ^ (b as u64)).wrapping_mul(FNV_PRIME)
}

/// FNV-1a hash of the first `n` bytes of `bytes`.
pub open spec fn fnv1a_prefix(bytes: Seq<u8>, n: int) -> u64
    decreases n,
{
    if n <= 0 {
        FNV_OFFSET
    } else {
        fnv1a_step(fnv1a_prefix(bytes, n - 1), bytes[n - 1])
    }
}

/// The content hash of a byte sequence.
pub open spec fn content_hash(bytes: Seq<u8>) -> u64 {
    fnv1a_prefix(bytes, bytes.len() as int)
}

/// Computes the content hash of `bytes`.
pub fn hash_bytes(bytes: &[u8]) -> (h: u64)
    ensures
        h == content_hash(bytes@),
{
    let mut h: u64 = FNV_OFFSET;
    let mut i: usize = 0;
    while i < bytes.len()
        invariant
            i <= bytes@.len(),
            h == fnv1a_prefix(bytes@, i as int),
        decreases bytes@.len() - i,
    {
        h = (h ^ (bytes[i] as u64)).wrapping_mul(FNV_PRIME);
        i = i + 1;
    }
    h
}

/// The character for one hex digit (lower case).
pub open spec fn hex_digit(d: u64) -> char {
    if d == 0 {
        '0'
    } else if d == 1 {
        '1'
    } else if d == 2 {
        '2'
    } else if d == 3 {
        '3'
    } else if d == 4 {
        '4'
    } else if d == 5 {
        '5'
    } else if d == 6 {
        '6'
    } else if d == 7 {
        '7'
    } else if d == 8 {
        '8'
    } else if d == 9 {
        '9'
    } else if d == 10 {
        'a'
    } else if d == 11 {
        'b'
    } else if d == 12 {
        'c'
    } else if d == 13 {
        'd'
    } else if d == 14 {
        'e'
    } else {
        'f'
    }
}

/// `h` written as `width` hex digits, most significant first (zero padded).
pub open spec fn hex_seq(h: u64, width: int) -> Seq<char> {
    Seq::new(width as nat, |i: int| hex_digit((h >> ((width - 1 - i) * 4) as u64) & 0xf))
}

fn hex_digit_char(d: u64) -> (c: char)
    requires
        d < 16,
    ensures
        c == hex_digit(d),
{
    if d == 0 {
        '0'
    } else if d == 1 {
        '1'
    } else if d == 2 {
        '2'
    } else if d == 3 {
        '3'
    } else if d == 4 {
        '4'
    } else if d == 5 {
        '5'
    } else if d == 6 {
        '6'
    } else if d == 7 {
        '7'
    } else if d == 8 {
        '8'
    } else if d == 9 {
        '9'
    } else if d == 10 {
        'a'
    } else if d == 11 {
        'b'
    } else if d == 12 {
        'c'
    } else if d == 13 {
        'd'
    } else if d == 14 {
        'e'
    } else {
        'f'
    }
}

/// Appends `h` as `width` lower-case hex digits to `out`.
pub fn push_hex(out: &mut String, h: u64, width: usize)
    requires
        width <= 16,
    ensures
        final(out)@ == old(out)@ + hex_seq(h, width as int),
{
    let mut i: usize = 0;
    while i < width
        invariant
            i <= width <= 16,
            out@ == old(out)@ + hex_seq(h, width as int).take(i as int),
        decreases width - i,
    {
        let shift: u64 = ((width - 1 - i) * 4) as u64;
        let d: u64 = (h >> shift) & 0xf;
        proof {
            assert((h >> shift) & 0xf < 16) by (bit_vector);
        }
        push_char(out, hex_digit_char(d));
        proof {
            assert(hex_seq(h, width as int).take(i + 1) == hex_seq(h, width as int).take(
                i as int,
            ).push(hex_seq(h, width as int)[i as int]));
        }
        i = i + 1;
    }
    proof {
        assert(hex_seq(h, width as int).take(width as int) == hex_seq(h, width as int));
    }
}

/// Distinct hex digits stand for distinct values.
proof fn lemma_hex_digit_injective(a: u64, b: u64)
    requires
        a < 16,
        b < 16,
        a != b,
    ensures
        hex_digit(a) != hex_digit(b),
{
}

/// Distinct 16-bit values have distinct 4-digit hex spellings.
pub proof fn lemma_hex4_injective(a: u64, b: u64)
    requires
        a < 0x10000,
        b < 0x10000,
        a != b,
    ensures
        hex_seq(a, 4) != hex_seq(b, 4),
{
    assert((a >> 12u64) & 0xf != (b >> 12u64) & 0xf || (a >> 8u64) & 0xf != (b >> 8u64) & 0xf || (a
        >> 4u64) & 0xf != (b >> 4u64) & 0xf || (a >> 0u64) & 0xf != (b >> 0u64) & 0xf) by (bit_vector)
        requires
            a < 0x10000,
            b < 0x10000,
            a != b,
    ;
    assert forall|k: u64| k < 0x10000 implies ((k >> 12u64) & 0xf < 16 && (k >> 8u64) & 0xf < 16 && (
    k >> 4u64) & 0xf < 16 && (k >> 0u64) & 0xf < 16) by {
        assert((k >> 12u64) & 0xf < 16 && (k >> 8u64) & 0xf < 16 && (k >> 4u64) & 0xf < 16 && (k
            >> 0u64) & 0xf < 16) by (bit_vector);
    }
    if (a >> 12u64) & 0xf != (b >> 12u64) & 0xf {
        lemma_hex_digit_injective((a >> 12u64) & 0xf, (b >> 12u64) & 0xf);
        assert(hex_seq(a, 4)[0] != hex_seq(b, 4)[0]);
    } else if (a >> 8u64) & 0xf != (b >> 8u64) & 0xf {
        lemma_hex_digit_injective((a >> 8u64) & 0xf, (b >> 8u64) & 0xf);
        assert(hex_seq(a, 4)[1] != hex_seq(b, 4)[1]);
    } else if (a >> 4u64) & 0xf != (b >> 4u64) & 0xf {
        lemma_hex_digit_injective((a >> 4u64) & 0xf, (b >> 4u64) & 0xf);
        assert(hex_seq(a, 4)[2] != hex_seq(b, 4)[2]);
    } else {
        lemma_hex_digit_injective((a >> 0u64) & 0xf, (b >> 0u64) & 0xf);
        assert(hex_seq(a, 4)[3] != hex_seq(b, 4)[3]);
    }
}

} // verus!
