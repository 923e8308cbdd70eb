//! 256-bit addresses and the prefixes that partition them into sections.

use crate::order::{compare_u64, key_order, list2, list4, Key, Order};
use vstd::prelude::*;

verus! {

/// Number of bits in an address.
pub const XOR_NAME_BITS: u16 = 256;

/// Byte `k` of a word, byte 0 being the most significant.
pub open spec fn byte_of(w: u64, k: int) -> u8 {
    ((w >> ((8 * (7 - k)) as u64)) & 0xff) as u8
}

/// Appends the eight bytes of `w` to `out`, most significant first.
pub fn push_word_bytes(w: u64, out: &mut Vec<u8>)
    ensures
        final(out)@ == old(out)@ + Seq::new(8, |k: int| byte_of(w, k)),
{
    let mut k: u64 = 0;
    while k < 8
        invariant
            k <= 8,
            out@ == old(out)@ + Seq::new(k as nat, |j: int| byte_of(w, j)),
        decreases 8 - k,
    {
        let shift: u64 = 8 * (7 - k);
        let byte: u8 = ((w >> shift) & 0xff) as u8;
        out.push(byte);
        proof {
            assert(byte == byte_of(w, k as int));
            assert(out@ =~= old(out)@ + Seq::new((k + 1) as nat, |j: int| byte_of(w, j)));
        }
        k += 1;
    }
}

/// The word whose eight bytes, most significant first, are the given ones.
pub fn word_of_bytes(b0: u8, b1: u8, b2: u8, b3: u8, b4: u8, b5: u8, b6: u8, b7: u8) -> (w: u64)
    ensures
        byte_of(w, 0) == b0,
        byte_of(w, 1) == b1,
        byte_of(w, 2) == b2,
        byte_of(w, 3) == b3,
        byte_of(w, 4) == b4,
        byte_of(w, 5) == b5,
        byte_of(w, 6) == b6,
        byte_of(w, 7) == b7,
{
    let w: u64 = ((b0 as u64) << 56) | ((b1 as u64) << 48) | ((b2 as u64) << 40) | ((b3 as u64)
        << 32) | ((b4 as u64) << 24) | ((b5 as u64) << 16) | ((b6 as u64) << 8) | (b7 as u64);
    assert(((w >> 56u64) & 0xff) as u8 == b0 && ((w >> 48u64) & 0xff) as u8 == b1 && ((w >> 40u64)
        & 0xff) as u8 == b2 && ((w >> 32u64) & 0xff) as u8 == b3 && ((w >> 24u64) & 0xff) as u8
        == b4 && ((w >> 16u64) & 0xff) as u8 == b5 && ((w >> 8u64) & 0xff) as u8 == b6 && ((w
        >> 0u64) & 0xff) as u8 == b7) by (bit_vector)
        requires
            w == ((b0 as u64) << 56) | ((b1 as u64) << 48) | ((b2 as u64) << 40) | ((b3 as u64)
                << 32) | ((b4 as u64) << 24) | ((b5 as u64) << 16) | ((b6 as u64) << 8) | (
            b7 as u64),
    ;
    w
}

/// A 256-bit value, most significant word first.
#[derive(Clone, Copy, Debug, PartialEq, Eq, PartialOrd, Ord, Hash, Structural)]
pub struct XorName {
    pub w0: u64,
    pub w1: u64,
    pub w2: u64,
    pub w3: u64,
}

/// A 256-bit digest.
pub type Digest256 = XorName;

impl XorName {
    /// Structural content: the four words, most significant first.
    pub open spec fn key(self) -> Key {
        list4(
            Key::Num(self.w0 as int),
            Key::Num(self.w1 as int),
            Key::Num(self.w2 as int),
            Key::Num(self.w3 as int),
        )
    }

    /// The word that holds bits `64 * k` to `64 * k + 63`.
    pub open spec fn word(self, k: int) -> u64 {
        if k == 0 {
            self.w0
        } else if k == 1 {
            self.w1
        } else if k == 2 {
            self.w2
        } else {
            self.w3
        }
    }

    /// Bit `i` of the address, bit 0 being the most significant.
    pub open spec fn bit(self, i: int) -> bool {
        (self.word(i / 64) >> ((63 - i % 64) as u64)) & 1 == 1
    }

    /// The four words as a sequence.
    pub open spec fn words(self) -> Seq<u64> {
        seq![self.w0, self.w1, self.w2, self.w3]
    }

    /// Reads bit `i`, bit 0 being the most significant.
    pub fn get_bit(&self, i: u16) -> (r: bool)
        requires
            i < XOR_NAME_BITS,
        ensures
            r == self.bit(i as int),
    {
        let k: u16 = i / 64;
        let w: u64 = if k == 0 {
            self.w0
        } else if k == 1 {
            self.w1
        } else if k == 2 {
            self.w2
        } else {
            self.w3
        };
        let shift: u64 = 63 - ((i % 64) as u64);
        (w >> shift) & 1 == 1
    }

    /// The value as 32 bytes, most significant first.
    pub open spec fn bytes(self) -> Seq<u8> {
        Seq::new(32, |i: int| byte_of(self.word(i / 8), i % 8))
    }

    /// The value whose 32 bytes, most significant first, are `bytes`.
    pub fn from_bytes(bytes: &[u8; 32]) -> (r: XorName)
        ensures
            r.bytes() == bytes@,
    {
        let b = bytes;
        let r = XorName {
            w0: word_of_bytes(b[0], b[1], b[2], b[3], b[4], b[5], b[6], b[7]),
            w1: word_of_bytes(b[8], b[9], b[10], b[11], b[12], b[13], b[14], b[15]),
            w2: word_of_bytes(b[16], b[17], b[18], b[19], b[20], b[21], b[22], b[23]),
            w3: word_of_bytes(b[24], b[25], b[26], b[27], b[28], b[29], b[30], b[31]),
        };
        proof {
            assert forall|i: int| 0 <= i < 32 implies r.bytes()[i] == bytes@[i] by {
                let k = i % 8;
                let q = i / 8;
                assert(0 <= k < 8 && 0 <= q < 4 && i == 8 * q + k);
            }
            assert(r.bytes() =~= bytes@);
        }
        r
    }

    /// Appends the 32 bytes of the value to `out`, most significant first.
    pub fn push_bytes(&self, out: &mut Vec<u8>)
        ensures
            final(out)@ == old(out)@ + self.bytes(),
    {
        push_word_bytes(self.w0, out);
        push_word_bytes(self.w1, out);
        push_word_bytes(self.w2, out);
        push_word_bytes(self.w3, out);
        proof {
            assert(out@ =~= old(out)@ + self.bytes());
        }
    }

    /// Appends the four words to `out`.
    pub fn push_words(&self, out: &mut Vec<u64>)
        ensures
            final(out)@ == old(out)@ + self.words(),
    {
        out.push(self.w0);
        out.push(self.w1);
        out.push(self.w2);
        out.push(self.w3);
        proof {
            assert(out@ =~= old(out)@ + self.words());
        }
    }

    /// Orders two addresses as 256-bit numbers.
    pub fn compare(&self, other: &XorName) -> (r: Order)
        ensures
            r == key_order(self.key(), other.key()),
    {
        proof {
            reveal_with_fuel(key_order, 6);
        }
        let c0 = compare_u64(self.w0, other.w0);
        if c0 != Order::Equal {
            return c0;
        }
        let c1 = compare_u64(self.w1, other.w1);
        if c1 != Order::Equal {
            return c1;
        }
        let c2 = compare_u64(self.w2, other.w2);
        if c2 != Order::Equal {
            return c2;
        }
        compare_u64(self.w3, other.w3)
    }

    /// Two addresses with the same key are the same address.
    pub proof fn lemma_key_injective(a: XorName, b: XorName)
        requires
            a.key() == b.key(),
        ensures
            a == b,
    {
    }
}

/// A section of the address space: every address whose first `bit_count`
/// bits are those of `name`.
#[derive(Clone, Copy, Debug, PartialEq, Eq, PartialOrd, Ord, Hash, Structural)]
pub struct Prefix {
    pub bit_count: u16,
    pub name: XorName,
}

impl Prefix {
    /// Structural content: the length, then the name.
    pub open spec fn key(self) -> Key {
        list2(Key::Num(self.bit_count as int), self.name.key())
    }

    /// Whether `name` lies in the section: it agrees with the prefix on each
    /// of the first `bit_count` bits.
    pub open spec fn matches_spec(self, name: XorName) -> bool {
        forall|i: int|
            0 <= i < self.bit_count && i < XOR_NAME_BITS ==> self.name.bit(i)
                == #[trigger] name.bit(i)
    }

    /// The prefix of `bit_count` bits of `name`; a count above the address
    /// length is cut down to it.
    pub fn new(bit_count: u16, name: XorName) -> (r: Prefix)
        ensures
            r.name == name,
            r.bit_count == if bit_count <= XOR_NAME_BITS {
                bit_count
            } else {
                XOR_NAME_BITS
            },
    {
        let bit_count: u16 = if bit_count <= XOR_NAME_BITS {
            bit_count
        } else {
            XOR_NAME_BITS
        };
        Prefix { bit_count, name }
    }

    /// Whether `name` lies in the section.
    pub fn matches(&self, name: &XorName) -> (r: bool)
        ensures
            r == self.matches_spec(*name),
    {
        let limit: u16 = if self.bit_count < XOR_NAME_BITS {
            self.bit_count
        } else {
            XOR_NAME_BITS
        };
        let mut i: u16 = 0;
        while i < limit
            invariant
                i <= limit,
                limit <= XOR_NAME_BITS,
                limit <= self.bit_count,
                limit == XOR_NAME_BITS || limit == self.bit_count,
                forall|j: int| 0 <= j < i ==> self.name.bit(j) == #[trigger] name.bit(j),
            decreases limit - i,
        {
            if self.name.get_bit(i) != name.get_bit(i) {
                return false;
            }
            i += 1;
        }
        true
    }

    /// Orders two prefixes by length, then by name.
    pub fn compare(&self, other: &Prefix) -> (r: Order)
        ensures
            r == key_order(self.key(), other.key()),
    {
        proof {
            reveal_with_fuel(key_order, 3);
        }
        let c = compare_u64(self.bit_count as u64, other.bit_count as u64);
        if c != Order::Equal {
            return c;
        }
        self.name.compare(&other.name)
    }

    /// Two prefixes with the same key are the same prefix.
    pub proof fn lemma_key_injective(a: Prefix, b: Prefix)
        requires
            a.key() == b.key(),
        ensures
            a == b,
    {
    }
}

} // verus!
