//! Decoding a single byte into eight named boolean flags, with a selectable
//! bit order.

use vstd::prelude::*;

verus! {

/// True when bit `i` (counting from the least significant end) of `byte` is set.
pub open spec fn bit_at(byte: u8, i: int) -> bool
    recommends
        0 <= i < 8,
{
    (byte >> (i as u8)) & 1 == 1
}

/// The eight bits of `byte` as booleans.
///
/// With `big_endian` the most significant bit comes first (index 0); without
/// it the least significant bit comes first.
pub open spec fn bits_of(byte: u8, big_endian: bool) -> Seq<bool> {
    Seq::new(8, |i: int| if big_endian { bit_at(byte, 7 - i) } else { bit_at(byte, i) })
}

/// A byte decoded into its eight flag bits, remembering the order used.
#[derive(Debug)]
pub struct BitArray {
    pub bits: [bool; 8],
    pub big_endian: bool,
}

impl BitArray {
    /// Decodes every bit of `byte`, most significant first when `big_endian`
    /// holds and least significant first otherwise. Total: every byte value
    /// is valid input.
    pub fn create_from_byte(byte: u8, big_endian: bool) -> (r: BitArray)
        ensures
            r.bits@ == bits_of(byte, big_endian),
            r.big_endian == big_endian,
    {
        let b0 = byte & 1 == 1;
        let b1 = (byte >> 1u8) & 1 == 1;
        let b2 = (byte >> 2u8) & 1 == 1;
        let b3 = (byte >> 3u8) & 1 == 1;
        let b4 = (byte >> 4u8) & 1 == 1;
        let b5 = (byte >> 5u8) & 1 == 1;
        let b6 = (byte >> 6u8) & 1 == 1;
        let b7 = (byte >> 7u8) & 1 == 1;
        let arr: [bool; 8] = if big_endian {
            [b7, b6, b5, b4, b3, b2, b1, b0]
        } else {
            [b0, b1, b2, b3, b4, b5, b6, b7]
        };
        proof {
            assert(byte & 1 == byte >> 0u8 & 1) by (bit_vector);
            assert(arr@ =~= bits_of(byte, big_endian));
        }
        BitArray { bits: arr, big_endian }
    }
}

/// Law: decoding a byte most-significant-first gives the same flags, in
/// reverse order, as decoding it least-significant-first.
pub proof fn lemma_bit_orders_are_reverses(byte: u8)
    ensures
        forall|i: int|
            0 <= i < 8 ==> bits_of(byte, true)[i] == bits_of(byte, false)[7 - i],
{
}

} // verus!
