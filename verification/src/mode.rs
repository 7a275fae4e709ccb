//! Unix permission bits, three at a time.

use vstd::prelude::*;

verus! {

/// Shift of the owner's three permission bits.
pub const MODE_SHIFT_USER: u32 = 6;

/// Shift of the group's three permission bits.
pub const MODE_SHIFT_GROUP: u32 = 3;

/// Shift of everyone else's three permission bits.
pub const MODE_SHIFT_OTHER: u32 = 0;

/// The three permission bits of `mode` that start at bit `shift`.
pub open spec fn mode_part(mode: u32, shift: u32) -> u32 {
    (mode >> shift) & 7u32
}

/// `mode` with the three bits at `shift` replaced by `bits`.
pub open spec fn with_mode_part(mode: u32, shift: u32, bits: u32) -> u32 {
    (mode & !(7u32 << shift)) | (bits << shift)
}

/// Read the three permission bits at `shift`.
pub fn get_mode_part(mode: u32, shift: u32) -> (r: u32)
    requires
        shift < 32,
    ensures
        r == mode_part(mode, shift),
        r <= 7,
{
    let r = (mode >> shift) & 7;
    assert(((mode >> shift) & 7u32) <= 7u32) by (bit_vector);
    r
}

/// Replace the three permission bits at `shift` with `bits`.
pub fn set_mode_part(mode: u32, shift: u32, bits: u32) -> (r: u32)
    requires
        bits <= 7,
        shift < 32,
    ensures
        r == with_mode_part(mode, shift, bits),
{
    (mode & !(7u32 << shift)) | (bits << shift)
}

/// Reading back the part just written gives the bits written, when the whole
/// part fits in the mode word.
pub proof fn lemma_get_after_set(mode: u32, shift: u32, bits: u32)
    requires
        bits <= 7,
        shift <= 29,
    ensures
        mode_part(with_mode_part(mode, shift, bits), shift) == bits,
{
    assert(bits <= 7u32 && shift <= 29u32 ==> (((mode & !(7u32 << shift)) | (bits << shift))
        >> shift) & 7u32 == bits) by (bit_vector);
}

/// Writing back the part that is already there changes nothing.
pub proof fn lemma_set_own_part(mode: u32, shift: u32)
    requires
        shift < 32,
    ensures
        with_mode_part(mode, shift, mode_part(mode, shift)) == mode,
{
    assert(shift < 32u32 ==> (mode & !(7u32 << shift)) | (((mode >> shift) & 7u32) << shift)
        == mode) by (bit_vector);
}

/// Writing one of the user, group or other parts leaves the other two as
/// they were.
pub proof fn lemma_set_keeps_other_parts(mode: u32, shift: u32, other: u32, bits: u32)
    requires
        bits <= 7,
        shift == MODE_SHIFT_USER || shift == MODE_SHIFT_GROUP || shift == MODE_SHIFT_OTHER,
        other == MODE_SHIFT_USER || other == MODE_SHIFT_GROUP || other == MODE_SHIFT_OTHER,
        shift != other,
    ensures
        mode_part(with_mode_part(mode, shift, bits), other) == mode_part(mode, other),
{
    assert(bits <= 7u32 && (shift == 6u32 || shift == 3u32 || shift == 0u32) && (other == 6u32
        || other == 3u32 || other == 0u32) && shift != other ==> ((((mode & !(7u32 << shift)) | (
    bits << shift)) >> other) & 7u32) == ((mode >> other) & 7u32)) by (bit_vector);
}

} // verus!
