//! The entropy cursor: turns an externally supplied byte buffer into a stream
//! of bounded values.
//!
//! Policy at the end of the buffer: the cursor wraps around to its first byte.
//! A value of `w` bytes is read little-endian from `w` consecutive positions
//! (each taken after the previous one, wrapping), and the cursor is left on
//! the position after the last byte read.
use vstd::prelude::*;

verus! {

/// The position that follows `p` in a buffer of `len` bytes.
pub open spec fn next_position(len: nat, p: int) -> int {
    if p + 1 >= len {
        0
    } else {
        p + 1
    }
}

/// The position reached from `p` after `k` bytes were read.
pub open spec fn position_after(len: nat, p: int, k: nat) -> int
    decreases k,
{
    if k == 0 {
        p
    } else {
        position_after(len, next_position(len, p), (k - 1) as nat)
    }
}

/// The little-endian value of the `width` bytes read from position `p`.
pub open spec fn entropy_value(slots: Seq<u8>, p: int, width: nat) -> nat
    decreases width,
{
    if width == 0 {
        0
    } else {
        slots[p] as nat + 256 * entropy_value(slots, next_position(slots.len(), p), (width - 1) as nat)
    }
}

/// A value drawn in `[min, max]` from the `width` bytes at position `p`.
pub open spec fn entropy_in_range(slots: Seq<u8>, p: int, width: nat, min: int, max: int) -> int {
    min + entropy_value(slots, p, width) as int % (max - min + 1)
}

/// A cursor position is valid when it lies inside a non-empty buffer.
pub open spec fn valid_cursor(slots: Seq<u8>, offset: int) -> bool {
    0 < slots.len() && 0 <= offset < slots.len()
}

/// Reads the byte under the cursor and moves the cursor on by one (wrapping).
fn read_byte(slots: &[u8], offset: &mut usize) -> (b: u8)
    requires
        valid_cursor(slots@, *old(offset) as int),
    ensures
        b == slots@[*old(offset) as int],
        *final(offset) == next_position(slots@.len(), *old(offset) as int),
{
    let b = slots[*offset];
    if *offset + 1 >= slots.len() {
        *offset = 0;
    } else {
        *offset = *offset + 1;
    }
    b
}

/// A value that can be drawn from an entropy buffer.
pub trait RandomValue: Sized {
    /// The number of bytes that one value consumes.
    spec fn byte_width() -> nat;

    /// The value as a natural number.
    spec fn as_nat(&self) -> nat;

    /// Draws the next value from the buffer.
    fn random(slots: &[u8], offset: &mut usize) -> (r: Self)
        requires
            valid_cursor(slots@, *old(offset) as int),
        ensures
            r.as_nat() == entropy_value(slots@, *old(offset) as int, Self::byte_width()),
            *final(offset) == position_after(slots@.len(), *old(offset) as int, Self::byte_width()),
            valid_cursor(slots@, *final(offset) as int),
    ;

    /// Draws the next value and reduces it into `[min, max]`.
    fn random_within_range(slots: &[u8], offset: &mut usize, min: Self, max: Self) -> (r: Self)
        requires
            valid_cursor(slots@, *old(offset) as int),
            min.as_nat() <= max.as_nat(),
            max.as_nat() - min.as_nat() + 1 < pow256(Self::byte_width()),
        ensures
            r.as_nat() == entropy_in_range(
                slots@,
                *old(offset) as int,
                Self::byte_width(),
                min.as_nat() as int,
                max.as_nat() as int,
            ),
            *final(offset) == position_after(slots@.len(), *old(offset) as int, Self::byte_width()),
            valid_cursor(slots@, *final(offset) as int),
    ;
}

/// `256` raised to `n`.
pub open spec fn pow256(n: nat) -> nat
    decreases n,
{
    if n == 0 {
        1
    } else {
        256 * pow256((n - 1) as nat)
    }
}

impl RandomValue for u8 {
    open spec fn byte_width() -> nat {
        1
    }

    open spec fn as_nat(&self) -> nat {
        *self as nat
    }

    fn random(slots: &[u8], offset: &mut usize) -> (r: u8) {
        let ghost p = *offset as int;
        let b = read_byte(slots, offset);
        proof {
            assert(Self::byte_width() == 1);
            assert(b.as_nat() == b as nat);
            assert(entropy_value(slots@, p, 1) == b as nat + 256 * entropy_value(
                slots@,
                next_position(slots@.len(), p),
                0,
            ));
            assert(position_after(slots@.len(), p, 1) == position_after(
                slots@.len(),
                next_position(slots@.len(), p),
                0,
            ));
        }
        b
    }

    fn random_within_range(slots: &[u8], offset: &mut usize, min: u8, max: u8) -> (r: u8) {
        proof {
            assert(pow256(1) == 256 * pow256(0));
        }
        let v = u8::random(slots, offset);
        let span: u8 = max - min + 1;
        min + v % span
    }
}

impl RandomValue for u16 {
    open spec fn byte_width() -> nat {
        2
    }

    open spec fn as_nat(&self) -> nat {
        *self as nat
    }

    fn random(slots: &[u8], offset: &mut usize) -> (r: u16) {
        let b0 = read_byte(slots, offset);
        let b1 = read_byte(slots, offset);
        proof {
            reveal_with_fuel(entropy_value, 3);
            reveal_with_fuel(position_after, 3);
        }
        (b1 as u16) * 256 + b0 as u16
    }

    fn random_within_range(slots: &[u8], offset: &mut usize, min: u16, max: u16) -> (r: u16) {
        proof {
            reveal_with_fuel(pow256, 3);
        }
        let v = u16::random(slots, offset);
        let span: u16 = max - min + 1;
        min + v % span
    }
}

impl RandomValue for u64 {
    open spec fn byte_width() -> nat {
        8
    }

    open spec fn as_nat(&self) -> nat {
        *self as nat
    }

    fn random(slots: &[u8], offset: &mut usize) -> (r: u64) {
        let b0 = read_byte(slots, offset) as u64;
        let b1 = read_byte(slots, offset) as u64;
        let b2 = read_byte(slots, offset) as u64;
        let b3 = read_byte(slots, offset) as u64;
        let b4 = read_byte(slots, offset) as u64;
        let b5 = read_byte(slots, offset) as u64;
        let b6 = read_byte(slots, offset) as u64;
        let b7 = read_byte(slots, offset) as u64;
        proof {
            reveal_with_fuel(entropy_value, 9);
            reveal_with_fuel(position_after, 9);
        }
        let mut v: u64 = b7;
        v = v * 256 + b6;
        v = v * 256 + b5;
        v = v * 256 + b4;
        v = v * 256 + b3;
        v = v * 256 + b2;
        v = v * 256 + b1;
        v = v * 256 + b0;
        v
    }

    fn random_within_range(slots: &[u8], offset: &mut usize, min: u64, max: u64) -> (r: u64) {
        proof {
            reveal_with_fuel(pow256, 9);
        }
        let v = u64::random(slots, offset);
        let span: u64 = max - min + 1;
        min + v % span
    }
}

/// A one-byte draw moves the cursor to the next position.
pub proof fn lemma_one_byte(slots: Seq<u8>, p: int)
    ensures
        position_after(slots.len(), p, 1) == next_position(slots.len(), p),
        pow256(1) == 256,
{
    assert(position_after(slots.len(), p, 1) == position_after(slots.len(), next_position(slots.len(), p), 0));
    assert(pow256(1) == 256 * pow256(0));
}

/// An enumeration whose variants can be drawn from an entropy buffer by index.
pub trait RandomEnumValue: Sized {
    /// The number of variants.
    spec fn variant_count() -> nat;

    /// The variant at index `i`, in declaration order.
    spec fn spec_from_index(i: nat) -> Self;

    /// The variant at index `i`.
    fn from_index(i: u8) -> (r: Self)
        requires
            (i as nat) < Self::variant_count(),
        ensures
            r == Self::spec_from_index(i as nat),
    ;

    /// Draws one byte, reduces it into `[min, max]` and returns the variant at
    /// that index.
    fn get_random_within_range(slots: &[u8], offset: &mut usize, min: u8, max: u8) -> (r: Self)
        requires
            valid_cursor(slots@, *old(offset) as int),
            min <= max < u8::MAX,
            (max as nat) < Self::variant_count(),
        ensures
            r == Self::spec_from_index(
                entropy_in_range(slots@, *old(offset) as int, 1, min as int, max as int) as nat,
            ),
            *final(offset) == next_position(slots@.len(), *old(offset) as int),
            valid_cursor(slots@, *final(offset) as int),
    {
        proof {
            assert(pow256(1) == 256 * pow256(0));
            assert(position_after(slots@.len(), *offset as int, 1) == position_after(
                slots@.len(),
                next_position(slots@.len(), *offset as int),
                0,
            ));
        }
        let i = u8::random_within_range(slots, offset, min, max);
        Self::from_index(i)
    }
}

} // verus!
