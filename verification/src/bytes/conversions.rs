//! Conversions between the unsigned and the signed reading of an 8-bit sample.
//!
//! Eight-bit samples are stored with a bias of 128: the stored byte `0` stands
//! for the sample `-128`, the stored byte `255` for the sample `127`.

use vstd::prelude::*;

verus! {

/// The signed sample that the stored byte `value` stands for.
pub open spec fn spec_u8_to_i8(value: u8) -> i8 {
    (value as int - 128) as i8
}

/// The byte under which the signed sample `value` is stored.
pub open spec fn spec_i8_to_u8(value: i8) -> u8 {
    (value as int + 128) as u8
}

/// Removes the bias from a stored byte.
pub fn u8_to_i8(value: u8) -> (out: i8)
    ensures
        out as int == value as int - 128,
        out == spec_u8_to_i8(value),
{
    (value as i16 - 128) as i8
}

/// Adds the bias to a signed sample.
pub fn i8_to_u8(value: i8) -> (out: u8)
    ensures
        out as int == value as int + 128,
        out == spec_i8_to_u8(value),
{
    (value as i16 + 128) as u8
}

/// Removing the bias and adding it again gives back every byte.
pub proof fn lemma_u8_round_trip(x: u8)
    ensures
        spec_i8_to_u8(spec_u8_to_i8(x)) == x,
{
}

/// Adding the bias and removing it again gives back every signed sample.
pub proof fn lemma_i8_round_trip(y: i8)
    ensures
        spec_u8_to_i8(spec_i8_to_u8(y)) == y,
{
}

} // verus!
