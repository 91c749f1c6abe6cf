//! Framing of what camera nodes send: a registration frame with the
//! camera's pose, then one frame per bearing observation. Every number on
//! the wire is an IEEE-754 double in big-endian byte order; frames are
//! decoded here into the doubles' bit patterns.
use vstd::prelude::*;

verus! {

/// Length of one number on the wire.
pub const NUMBER_LEN: usize = 8;

/// Length of a registration frame: x, y, rotation, field of view.
pub const REGISTRATION_LEN: usize = 32;

/// The unsigned integer that `b` spells in big-endian order.
pub open spec fn be_value(b: Seq<u8>) -> nat
    decreases b.len(),
{
    if b.len() == 0 {
        0
    } else {
        be_value(b.drop_last()) * 256 + b.last() as nat
    }
}

/// Powers of 256.
pub open spec fn pow256(n: nat) -> nat
    decreases n,
{
    if n == 0 {
        1
    } else {
        256 * pow256((n - 1) as nat)
    }
}

/// `n` bytes spell less than `256^n`.
pub proof fn lemma_be_value_bound(b: Seq<u8>)
    ensures
        be_value(b) < pow256(b.len()),
    decreases b.len(),
{
    if b.len() > 0 {
        lemma_be_value_bound(b.drop_last());
        let p = pow256((b.len() - 1) as nat);
        let v = be_value(b.drop_last());
        assert(v * 256 + (b.last() as nat) < p * 256) by (nonlinear_arith)
            requires
                v < p,
                b.last() < 256,
        ;
    }
}

proof fn lemma_pow256_mono(a: nat, b: nat)
    requires
        a <= b,
    ensures
        pow256(a) <= pow256(b),
    decreases b,
{
    if a < b {
        lemma_pow256_mono(a, (b - 1) as nat);
    }
}

/// The eight bytes of `b` from `start` on.
pub open spec fn number_at(b: Seq<u8>, start: int) -> u64 {
    be_value(b.subrange(start, start + 8)) as u64
}

/// Reads the big-endian number in the eight bytes from `start` on.
pub fn read_be_u64(bytes: &[u8], start: usize) -> (r: u64)
    requires
        start + 8 <= bytes@.len(),
    ensures
        r as nat == be_value(bytes@.subrange(start as int, start + 8)),
        r == number_at(bytes@, start as int),
{
    let n: usize = bytes.len();
    let mut v: u64 = 0;
    let mut i: usize = 0;
    while i < NUMBER_LEN
        invariant
            n == bytes@.len(),
            start + 8 <= bytes@.len(),
            0 <= i <= NUMBER_LEN,
            v as nat == be_value(bytes@.subrange(start as int, start + i)),
        decreases NUMBER_LEN - i,
    {
        proof {
            let s = bytes@.subrange(start as int, start + i + 1);
            assert(s.drop_last() =~= bytes@.subrange(start as int, start + i));
            lemma_be_value_bound(bytes@.subrange(start as int, start + i));
            lemma_pow256_mono(i as nat, 7);
            reveal_with_fuel(pow256, 8);
            assert(pow256(7) == 0x100_0000_0000_0000nat);
            assert((v as nat) * 256 + (bytes[start + i] as nat) < 0x1_0000_0000_0000_0000nat);
        }
        v = v * 256 + bytes[start + i] as u64;
        i = i + 1;
    }
    v
}

/// A camera's pose as sent at registration: bit patterns of its position,
/// its rotation and its horizontal field of view (radians).
#[derive(Clone, Copy, Debug, PartialEq, Eq, Structural)]
pub struct PoseBits {
    pub x: u64,
    pub y: u64,
    pub rotation: u64,
    pub fov: u64,
}

/// The pose a complete registration frame carries.
pub open spec fn spec_registration(b: Seq<u8>) -> Option<PoseBits> {
    if b.len() == REGISTRATION_LEN {
        Some(PoseBits {
            x: number_at(b, 0),
            y: number_at(b, 8),
            rotation: number_at(b, 16),
            fov: number_at(b, 24),
        })
    } else {
        None
    }
}

/// Decodes a registration frame; a frame of the wrong length is malformed
/// and gives `None`.
pub fn decode_registration(bytes: &[u8]) -> (r: Option<PoseBits>)
    ensures
        r == spec_registration(bytes@),
{
    if bytes.len() != REGISTRATION_LEN {
        return None;
    }
    let x = read_be_u64(bytes, 0);
    let y = read_be_u64(bytes, 8);
    let rotation = read_be_u64(bytes, 16);
    let fov = read_be_u64(bytes, 24);
    Some(PoseBits { x, y, rotation, fov })
}

/// Decodes an observation frame, one bearing; a frame of the wrong length
/// gives `None`.
pub fn decode_observation(bytes: &[u8]) -> (r: Option<u64>)
    ensures
        r == (if bytes@.len() == NUMBER_LEN {
            Some(number_at(bytes@, 0))
        } else {
            None::<u64>
        }),
{
    if bytes.len() != NUMBER_LEN {
        return None;
    }
    Some(read_be_u64(bytes, 0))
}

} // verus!
