//! The presence bitmask: one bit per optional slot, little-endian bytes,
//! backed by the smallest unsigned width that covers the slot count.

use vstd::prelude::*;

verus! {

/// Whether bit `k` of one byte is set.
pub open spec fn nth_bit(b: u8, k: u8) -> bool {
    b & (1u8 << k) != 0
}

/// Whether bit `i` of a little-endian mask is set: bit `i` lives in byte
/// `i / 8`, at position `i % 8`.
pub open spec fn mask_bit(bytes: Seq<u8>, i: int) -> bool {
    &&& 0 <= i
    &&& i / 8 < bytes.len()
    &&& nth_bit(bytes[i / 8], (i % 8) as u8)
}

/// The byte width of the backing unsigned integer: the smallest of 8, 16,
/// 32, 64 or 128 bits that holds one bit per optional slot. A partial with
/// no optional slots still carries one (all-zero) mask byte.
pub open spec fn spec_mask_width(n: nat) -> nat {
    if n <= 8 {
        1
    } else if n <= 16 {
        2
    } else if n <= 32 {
        4
    } else if n <= 64 {
        8
    } else {
        16
    }
}

/// The byte width of the presence mask for `n` optional slots.
pub fn mask_width(n: usize) -> (r: usize)
    ensures
        r == spec_mask_width(n as nat),
{
    if n <= 8 {
        1
    } else if n <= 16 {
        2
    } else if n <= 32 {
        4
    } else if n <= 64 {
        8
    } else {
        16
    }
}

/// The contribution of flag `i` to its mask byte.
pub open spec fn bit_term(flags: Seq<bool>, i: int, v: u8) -> u8 {
    if 0 <= i < flags.len() && flags[i] {
        v
    } else {
        0
    }
}

/// Byte `j` of the mask encoding `flags`.
pub open spec fn mask_byte(flags: Seq<bool>, j: int) -> u8 {
    bit_term(flags, 8 * j, 1) | bit_term(flags, 8 * j + 1, 2) | bit_term(flags, 8 * j + 2, 4)
        | bit_term(flags, 8 * j + 3, 8) | bit_term(flags, 8 * j + 4, 16) | bit_term(
        flags,
        8 * j + 5,
        32,
    ) | bit_term(flags, 8 * j + 6, 64) | bit_term(flags, 8 * j + 7, 128)
}

/// The little-endian mask bytes encoding `flags` in `width` bytes.
pub open spec fn spec_mask(flags: Seq<bool>, width: nat) -> Seq<u8> {
    Seq::new(width, |j: int| mask_byte(flags, j))
}

/// Bit `i` of the encoded mask is set iff flag `i` is set; bits past the
/// flags are clear.
pub proof fn lemma_mask_bit(flags: Seq<bool>, width: nat, i: int)
    requires
        flags.len() <= 8 * width,
        0 <= i < 8 * width,
    ensures
        mask_bit(spec_mask(flags, width), i) == (i < flags.len() && flags[i]),
{
    let j = i / 8;
    let k = (i % 8) as u8;
    let t0 = bit_term(flags, 8 * j, 1);
    let t1 = bit_term(flags, 8 * j + 1, 2);
    let t2 = bit_term(flags, 8 * j + 2, 4);
    let t3 = bit_term(flags, 8 * j + 3, 8);
    let t4 = bit_term(flags, 8 * j + 4, 16);
    let t5 = bit_term(flags, 8 * j + 5, 32);
    let t6 = bit_term(flags, 8 * j + 6, 64);
    let t7 = bit_term(flags, 8 * j + 7, 128);
    let b = t0 | t1 | t2 | t3 | t4 | t5 | t6 | t7;
    assert(spec_mask(flags, width)[j] == b);
    assert(((t0 | t1 | t2 | t3 | t4 | t5 | t6 | t7) & (1u8 << k) != 0) == (if k == 0 {
        t0 != 0
    } else if k == 1 {
        t1 != 0
    } else if k == 2 {
        t2 != 0
    } else if k == 3 {
        t3 != 0
    } else if k == 4 {
        t4 != 0
    } else if k == 5 {
        t5 != 0
    } else if k == 6 {
        t6 != 0
    } else {
        t7 != 0
    })) by (bit_vector)
        requires
            0 <= k < 8,
            t0 == 0 || t0 == 1,
            t1 == 0 || t1 == 2,
            t2 == 0 || t2 == 4,
            t3 == 0 || t3 == 8,
            t4 == 0 || t4 == 16,
            t5 == 0 || t5 == 32,
            t6 == 0 || t6 == 64,
            t7 == 0 || t7 == 128,
    ;
    assert(8 * j + (k as int) == i);
}

/// Sets bit `k` of a byte, leaving the other bits as they are.
fn set_bit(b: u8, k: u8) -> (r: u8)
    requires
        k < 8,
    ensures
        forall|j: u8| j < 8 && j != k ==> nth_bit(r, j) == nth_bit(b, j),
        nth_bit(r, k),
{
    let r = b | (1u8 << k);
    proof {
        assert forall|j: u8| j < 8 && j != k implies nth_bit(r, j) == nth_bit(b, j) by {
            assert((b | (1u8 << k)) & (1u8 << j) == b & (1u8 << j)) by (bit_vector)
                requires
                    j < 8 && k < 8 && j != k,
            ;
        }
        assert((b | (1u8 << k)) & (1u8 << k) != 0) by (bit_vector)
            requires
                k < 8,
        ;
    }
    r
}

/// Whether bit `k` of a byte is set.
pub fn get_bit(b: u8, k: u8) -> (r: bool)
    requires
        k < 8,
    ensures
        r == nth_bit(b, k),
{
    b & (1u8 << k) != 0
}

/// Two bytes that agree on all eight bits are equal.
proof fn lemma_byte_from_bits(a: u8, b: u8)
    requires
        forall|k: u8| k < 8 ==> nth_bit(a, k) == nth_bit(b, k),
    ensures
        a == b,
{
    assert(nth_bit(a, 0) == nth_bit(b, 0));
    assert(nth_bit(a, 1) == nth_bit(b, 1));
    assert(nth_bit(a, 2) == nth_bit(b, 2));
    assert(nth_bit(a, 3) == nth_bit(b, 3));
    assert(nth_bit(a, 4) == nth_bit(b, 4));
    assert(nth_bit(a, 5) == nth_bit(b, 5));
    assert(nth_bit(a, 6) == nth_bit(b, 6));
    assert(nth_bit(a, 7) == nth_bit(b, 7));
    assert(a == b) by (bit_vector)
        requires
            (a & (1u8 << 0u8) != 0) == (b & (1u8 << 0u8) != 0),
            (a & (1u8 << 1u8) != 0) == (b & (1u8 << 1u8) != 0),
            (a & (1u8 << 2u8) != 0) == (b & (1u8 << 2u8) != 0),
            (a & (1u8 << 3u8) != 0) == (b & (1u8 << 3u8) != 0),
            (a & (1u8 << 4u8) != 0) == (b & (1u8 << 4u8) != 0),
            (a & (1u8 << 5u8) != 0) == (b & (1u8 << 5u8) != 0),
            (a & (1u8 << 6u8) != 0) == (b & (1u8 << 6u8) != 0),
            (a & (1u8 << 7u8) != 0) == (b & (1u8 << 7u8) != 0),
    ;
}

/// Builds the little-endian mask bytes for the given flags.
pub fn build_mask(flags: &Vec<bool>, width: usize) -> (m: Vec<u8>)
    requires
        width <= 16,
        flags@.len() <= 8 * width,
    ensures
        m@ == spec_mask(flags@, width as nat),
{
    let mut m: Vec<u8> = Vec::with_capacity(width);
    for j in 0..width
        invariant
            width <= 16,
            flags@.len() <= 8 * width,
            m@.len() == j,
            forall|q: int| 0 <= q < j ==> m@[q] == mask_byte(flags@, q),
    {
        let mut b: u8 = 0;
        let ghost target = mask_byte(flags@, j as int);
        proof {
            assert(forall|k: u8| k < 8 ==> !nth_bit(0u8, k)) by (bit_vector);
        }
        for k in 0..8usize
            invariant
                width <= 16,
                flags@.len() <= 8 * width,
                j < width,
                forall|q: u8|
                    q < k ==> nth_bit(b, q) == (8 * j + q < flags@.len() && flags@[8 * (
                    j as int) + q]),
                forall|q: u8| k <= q < 8 ==> !nth_bit(b, q),
        {
            let i = 8 * j + k;
            if i < flags.len() && flags[i] {
                b = set_bit(b, k as u8);
            }
        }
        proof {
            lemma_mask_bit_byte(flags@, j as int, b);
        }
        m.push(b);
    }
    proof {
        assert(m@ =~= spec_mask(flags@, width as nat));
    }
    m
}

/// A byte whose bits agree with the flags equals the mask byte.
proof fn lemma_mask_bit_byte(flags: Seq<bool>, j: int, b: u8)
    requires
        0 <= j,
        forall|q: u8| q < 8 ==> nth_bit(b, q) == (8 * j + q < flags.len() && flags[8 * j + q]),
    ensures
        b == mask_byte(flags, j),
{
    let t0 = bit_term(flags, 8 * j, 1);
    let t1 = bit_term(flags, 8 * j + 1, 2);
    let t2 = bit_term(flags, 8 * j + 2, 4);
    let t3 = bit_term(flags, 8 * j + 3, 8);
    let t4 = bit_term(flags, 8 * j + 4, 16);
    let t5 = bit_term(flags, 8 * j + 5, 32);
    let t6 = bit_term(flags, 8 * j + 6, 64);
    let t7 = bit_term(flags, 8 * j + 7, 128);
    let c = mask_byte(flags, j);
    assert forall|k: u8| k < 8 implies nth_bit(c, k) == nth_bit(b, k) by {
        assert(((t0 | t1 | t2 | t3 | t4 | t5 | t6 | t7) & (1u8 << k) != 0) == (if k == 0 {
            t0 != 0
        } else if k == 1 {
            t1 != 0
        } else if k == 2 {
            t2 != 0
        } else if k == 3 {
            t3 != 0
        } else if k == 4 {
            t4 != 0
        } else if k == 5 {
            t5 != 0
        } else if k == 6 {
            t6 != 0
        } else {
            t7 != 0
        })) by (bit_vector)
            requires
                k < 8,
                t0 == 0 || t0 == 1,
                t1 == 0 || t1 == 2,
                t2 == 0 || t2 == 4,
                t3 == 0 || t3 == 8,
                t4 == 0 || t4 == 16,
                t5 == 0 || t5 == 32,
                t6 == 0 || t6 == 64,
                t7 == 0 || t7 == 128,
        ;
    }
    lemma_byte_from_bits(c, b);
}

} // verus!
