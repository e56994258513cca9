//! Bit fields of 32-bit registers.
//!
//! A field is named by its lowest bit (`shift`) and its number of bits (`width`). The two
//! functions `field` and `with_field` say what a field holds and what a register becomes when a
//! field is overwritten; every register value in this crate is described with them.

use vstd::prelude::*;

verus! {

/// A mask of `width` ones, at the bottom of the word.
pub open spec fn ones(width: u32) -> u32 {
    ((1u32 << width) - 1) as u32
}

/// The content of the field of `width` bits that starts at bit `shift`.
#[verifier::opaque]
pub open spec fn field(value: u32, shift: u32, width: u32) -> u32 {
    (value >> shift) & ones(width)
}

/// `value` with the field of `width` bits at bit `shift` replaced by the low bits of `bits`.
#[verifier::opaque]
pub open spec fn with_field(value: u32, shift: u32, width: u32, bits: u32) -> u32 {
    (value & !(ones(width) << shift)) | ((bits & ones(width)) << shift)
}

/// Whether bit `shift` is set.
pub open spec fn flag(value: u32, shift: u32) -> bool {
    field(value, shift, 1) != 0
}

/// `value` with bit `shift` set or cleared.
pub open spec fn with_flag(value: u32, shift: u32, on: bool) -> u32 {
    with_field(value, shift, 1, if on { 1 } else { 0 })
}

/// A field that lies inside a 32-bit word and leaves some of it to others.
pub open spec fn is_field(shift: u32, width: u32) -> bool {
    0 < width < 32 && shift + width <= 32
}

/// Reading back the field that was just written gives the bits that were written.
pub broadcast proof fn lemma_field_written(value: u32, shift: u32, width: u32, bits: u32)
    requires
        is_field(shift, width),
    ensures
        #[trigger] field(with_field(value, shift, width, bits), shift, width) == bits & ones(width),
{
    reveal(field);
    reveal(with_field);
    assert((((value & !((((1u32 << width) - 1) as u32) << shift)) | ((bits & (((1u32 << width)
        - 1) as u32)) << shift)) >> shift) & (((1u32 << width) - 1) as u32) == bits & (((1u32
        << width) - 1) as u32)) by (bit_vector)
        requires
            0 < width < 32,
            shift + width <= 32,
    ;
}

/// Writing one field leaves every field that does not overlap it as it was.
pub broadcast proof fn lemma_field_kept(
    value: u32,
    shift: u32,
    width: u32,
    bits: u32,
    other_shift: u32,
    other_width: u32,
)
    requires
        is_field(shift, width),
        is_field(other_shift, other_width),
        shift + width <= other_shift || other_shift + other_width <= shift,
    ensures
        #[trigger] field(with_field(value, shift, width, bits), other_shift, other_width) == field(
            value,
            other_shift,
            other_width,
        ),
{
    reveal(field);
    reveal(with_field);
    assert((((value & !((((1u32 << width) - 1) as u32) << shift)) | ((bits & (((1u32 << width)
        - 1) as u32)) << shift)) >> other_shift) & (((1u32 << other_width) - 1) as u32) == (value
        >> other_shift) & (((1u32 << other_width) - 1) as u32)) by (bit_vector)
        requires
            0 < width < 32,
            shift + width <= 32,
            0 < other_width < 32,
            other_shift + other_width <= 32,
            shift + width <= other_shift || other_shift + other_width <= shift,
    ;
}

/// Bits that fit a field pass through its mask unchanged.
pub broadcast proof fn lemma_fits(bits: u32, width: u32)
    requires
        0 < width < 32,
        bits <= ones(width),
    ensures
        #[trigger] (bits & ones(width)) == bits,
{
    assert(bits & (((1u32 << width) - 1) as u32) == bits) by (bit_vector)
        requires
            0 < width < 32,
            bits <= (((1u32 << width) - 1) as u32),
    ;
}

/// The masks of the field widths that occur in the peripheral.
pub proof fn lemma_ones()
    ensures
        ones(1) == 0x1,
        ones(2) == 0x3,
        ones(3) == 0x7,
        ones(5) == 0x1f,
        ones(6) == 0x3f,
        ones(8) == 0xff,
{
    assert(((1u32 << 1u32) - 1) as u32 == 0x1) by (bit_vector);
    assert(((1u32 << 2u32) - 1) as u32 == 0x3) by (bit_vector);
    assert(((1u32 << 3u32) - 1) as u32 == 0x7) by (bit_vector);
    assert(((1u32 << 5u32) - 1) as u32 == 0x1f) by (bit_vector);
    assert(((1u32 << 6u32) - 1) as u32 == 0x3f) by (bit_vector);
    assert(((1u32 << 8u32) - 1) as u32 == 0xff) by (bit_vector);
}

/// Everything that is known of reading fields out of written registers.
pub broadcast group group_fields {
    lemma_field_written,
    lemma_field_kept,
    lemma_fits,
}

} // verus!
