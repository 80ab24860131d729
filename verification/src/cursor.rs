//! The bit cursor: a positional view over a byte buffer with sub-byte
//! granularity. Reading a field never mutates shared state; each read
//! consumes a cursor value and returns the next one, so decoding composes as
//! pure functions.

use vstd::prelude::*;
use vstd::arithmetic::power2::pow2;
use vstd::arithmetic::power2::lemma2_to64;
use vstd::arithmetic::power2::lemma_pow2_strictly_increases;
use vstd::arithmetic::power2::lemma_pow2_unfold;
use vstd::arithmetic::div_mod::lemma_fundamental_div_mod_converse;
use crate::insn::DecodeError;

verus! {

/// A position in a byte buffer with sub-byte granularity: `byte` indexes the
/// buffer and `bit` counts the bits already consumed of that byte, most
/// significant bit first.
#[derive(Clone, Copy, PartialEq, Eq, Structural, Debug)]
pub struct BitCursor {
    pub byte: usize,
    pub bit: u8,
}

/// The value of bit `i` of `b`, counting from the most significant bit.
pub open spec fn bit_at(b: u8, i: u8) -> u8
    recommends
        i < 8,
{
    (b >> ((7 - i) as u8)) & 1
}

/// The value of bit `p` of the buffer, in stream order: bit 0 is the most
/// significant bit of the first byte.
pub open spec fn stream_bit(bytes: Seq<u8>, p: nat) -> u8
    recommends
        p < bytes.len() * 8,
{
    bit_at(bytes[(p / 8) as int], (p % 8) as u8)
}

/// The unsigned value of the `n` bits starting at stream position `pos`,
/// most significant bit first.
pub open spec fn bits_of(bytes: Seq<u8>, pos: nat, n: nat) -> nat
    decreases n,
{
    if n == 0 {
        0
    } else {
        bits_of(bytes, pos, (n - 1) as nat) * 2 + stream_bit(bytes, (pos + n - 1) as nat) as nat
    }
}

impl BitCursor {
    /// The sub-byte offset names one of the 8 bits of a byte.
    pub open spec fn wf(self) -> bool {
        self.bit < 8
    }

    /// Absolute position in bits from the start of the buffer.
    pub open spec fn pos(self) -> nat {
        self.byte as nat * 8 + self.bit as nat
    }

    /// The cursor `n` bits further into the buffer.
    pub open spec fn advanced(self, n: nat) -> BitCursor {
        BitCursor { byte: ((self.pos() + n) / 8) as usize, bit: ((self.pos() + n) % 8) as u8 }
    }
}

/// What a read of `n` bits at `c` returns: the field value with the advanced
/// cursor, or `InsufficientInput` naming the byte at which the field begins,
/// when fewer than `n` bits remain.
pub open spec fn spec_take(bytes: Seq<u8>, c: BitCursor, n: nat) -> Result<
    (u16, BitCursor),
    DecodeError,
>
    recommends
        c.wf(),
        1 <= n <= 16,
{
    if c.pos() + n > bytes.len() * 8 {
        Err(DecodeError::InsufficientInput { offset: c.byte })
    } else {
        Ok((bits_of(bytes, c.pos(), n) as u16, c.advanced(n)))
    }
}

/// A single bit of the stream is 0 or 1.
pub proof fn lemma_bit_at_le_one(b: u8, i: u8)
    ensures
        bit_at(b, i) <= 1,
{
    let s: u8 = (7 - i) as u8;
    assert((b >> s) & 1 <= 1) by (bit_vector);
}

/// An `n`-bit field is below 2^n.
pub proof fn lemma_bits_of_bound(bytes: Seq<u8>, pos: nat, n: nat)
    ensures
        bits_of(bytes, pos, n) < pow2(n),
    decreases n,
{
    if n == 0 {
        lemma2_to64();
    } else {
        let p = (pos + n - 1) as nat;
        lemma_bits_of_bound(bytes, pos, (n - 1) as nat);
        lemma_bit_at_le_one(bytes[(p / 8) as int], (p % 8) as u8);
        lemma_pow2_unfold(n);
    }
}

/// A successful read lands on a well-formed cursor exactly `n` bits further
/// on, and never moves backwards through the bytes.
pub proof fn lemma_advanced(c: BitCursor, n: nat)
    requires
        c.wf(),
        c.pos() + n <= usize::MAX as nat * 8 + 7,
    ensures
        c.advanced(n).wf(),
        c.advanced(n).pos() == c.pos() + n,
        c.byte <= c.advanced(n).byte,
{
    let p = (c.pos() + n) as int;
    vstd::arithmetic::div_mod::lemma_fundamental_div_mod(p, 8);
    assert(c.byte as int * 8 <= p);
    assert(p / 8 <= usize::MAX as int);
}

/// Advancing twice is advancing by the sum.
pub proof fn lemma_advanced_twice(c: BitCursor, a: nat, b: nat)
    requires
        c.wf(),
        c.pos() + a + b <= usize::MAX as nat * 8,
    ensures
        c.advanced(a).advanced(b) == c.advanced(a + b),
{
    lemma_advanced(c, a);
    lemma_advanced(c.advanced(a), b);
    assert(c.advanced(a).advanced(b).byte == c.advanced(a + b).byte);
    assert(c.advanced(a).advanced(b).bit == c.advanced(a + b).bit);
}

/// Advancing a whole number of bytes moves the byte index by that count and
/// keeps the sub-byte offset.
pub proof fn lemma_advanced_whole_bytes(c: BitCursor, m: nat)
    requires
        c.wf(),
        c.pos() + 8 * m <= usize::MAX as nat * 8,
    ensures
        c.advanced(8 * m).bit == c.bit,
        c.advanced(8 * m).byte == c.byte + m,
        c.advanced(8 * m).pos() == c.pos() + 8 * m,
{
    lemma_fundamental_div_mod_converse(
        (c.pos() + 8 * m) as int,
        8,
        c.byte + m as int,
        c.bit as int,
    );
}

/// Two buffers that agree bit-for-bit on a range give the same field value
/// over that range.
pub proof fn lemma_bits_of_agree(b1: Seq<u8>, b2: Seq<u8>, pos: nat, n: nat)
    requires
        forall|q: nat| pos <= q < pos + n ==> stream_bit(b1, q) == stream_bit(b2, q),
    ensures
        bits_of(b1, pos, n) == bits_of(b2, pos, n),
    decreases n,
{
    if n > 0 {
        lemma_bits_of_agree(b1, b2, pos, (n - 1) as nat);
    }
}

impl BitCursor {
    /// Read the next `n` bits (1 ≤ n ≤ 16) as an unsigned integer, most
    /// significant bit first, and return it together with the advanced
    /// cursor. Fails with `InsufficientInput` when fewer than `n` bits
    /// remain in the buffer.
    pub fn take(self, bytes: &[u8], n: u16) -> (r: Result<(u16, BitCursor), DecodeError>)
        requires
            self.wf(),
            1 <= n <= 16,
        ensures
            r == spec_take(bytes@, self, n as nat),
            r matches Ok(p) ==> p.1.wf() && p.1.pos() == self.pos() + n as nat && self.byte
                <= p.1.byte && p.1.byte <= bytes@.len(),
    {
        let ghost pos0 = self.pos();
        proof {
            lemma2_to64();
        }
        let mut value: u16 = 0;
        let mut byte: usize = self.byte;
        let mut bit: u8 = self.bit;
        let mut i: u16 = 0;
        while i < n
            invariant
                1 <= n <= 16,
                i <= n,
                bit < 8,
                self.byte <= byte,
                byte as nat * 8 + bit as nat == pos0 + i as nat,
                i > 0 ==> pos0 + i as nat <= bytes@.len() * 8,
                value as nat == bits_of(bytes@, pos0, i as nat),
                (value as nat) < pow2(i as nat),
                pos0 == self.pos(),
            decreases n - i,
        {
            if byte >= bytes.len() {
                // The whole field is missing its tail: fewer than n bits remain.
                return Err(DecodeError::InsufficientInput { offset: self.byte });
            }
            let b: u8 = bytes[byte];
            let shift: u8 = 7 - bit;
            let v: u8 = (b >> shift) & 1;
            proof {
                assert((b >> shift) & 1 <= 1) by (bit_vector);
                lemma_fundamental_div_mod_converse(
                    pos0 + i as int,
                    8,
                    byte as int,
                    bit as int,
                );
                assert(stream_bit(bytes@, pos0 + i as nat) == v);
                lemma2_to64();
                if (i as nat) < 15 {
                    lemma_pow2_strictly_increases(i as nat, 15);
                }
                lemma_pow2_unfold((i + 1) as nat);
            }
            value = value * 2 + v as u16;
            bit = bit + 1;
            if bit == 8 {
                bit = 0;
                byte = byte + 1;
            }
            i = i + 1;
        }
        proof {
            lemma_fundamental_div_mod_converse(pos0 + n as int, 8, byte as int, bit as int);
        }
        Ok((value, BitCursor { byte, bit }))
    }
}

} // verus!
