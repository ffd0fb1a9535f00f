use vstd::prelude::*;

verus! {

/// Masking never exceeds the mask, and a right shift of a 32-bit word by
/// 16 or 24 leaves at most 16 or 8 bits.
pub proof fn lemma_mask_bounds()
    by (bit_vector)
    ensures
        forall|x: u32, m: u32| #[trigger] (x & m) <= m,
        forall|x: usize, m: usize| #[trigger] (x & m) <= m,
        forall|x: u32| #[trigger] (x >> 16u32) <= 0xffff,
        forall|x: u32| #[trigger] (x >> 24u32) <= 0xff,
{
}

/// An arithmetic right shift of a 64-bit value by 16 is its floor division
/// by 2^16.
pub proof fn lemma_shr16_floor()
    by (bit_vector)
    ensures
        forall|x: i64| #[trigger] (x >> 16i64) as int == x as int / 65536,
{
}

/// Arithmetic right shifts of a 32-bit value by 3, 5 and 7 are floor
/// divisions by 8, 32 and 128.
pub proof fn lemma_shr_floor_i32()
    by (bit_vector)
    ensures
        forall|x: i32| #[trigger] (x >> 3i32) as int == x as int / 8,
        forall|x: i32| #[trigger] (x >> 5i32) as int == x as int / 32,
        forall|x: i32| #[trigger] (x >> 7i32) as int == x as int / 128,
{
}

/// A right shift of a 32-bit word by 9 or 10 leaves at most 23 or 22 bits.
pub proof fn lemma_key_bounds()
    by (bit_vector)
    ensures
        forall|x: u32| #[trigger] (x >> 9u32) <= 0x7f_ffff,
        forall|x: u32| #[trigger] (x >> 10u32) <= 0x3f_ffff,
{
}

/// Masking a 64-bit word never exceeds the mask.
pub proof fn lemma_u64_mask()
    by (bit_vector)
    ensures
        forall|x: u64, m: u64| #[trigger] (x & m) <= m,
{
}

} // verus!
