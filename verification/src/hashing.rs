use vstd::prelude::*;

verus! {

/// Multiplier of the multiplicative hash (Knuth's golden-ratio constant).
pub const HASH_MUL: u32 = 2654435761;

/// `((h + x + 1) * 2654435761) mod 2^32`.
pub open spec fn spec_hashk(h: u32, x: u32) -> u32 {
    (((h as int + x as int + 1) * HASH_MUL as int) % 0x1_0000_0000) as u32
}

proof fn lemma_mod_mul_absorb(a: int, c: int, m: int)
    requires
        m > 0,
    ensures
        ((a % m) * c) % m == (a * c) % m,
{
    vstd::arithmetic::div_mod::lemma_mul_mod_noop_left(a, c, m);
}

/// Mixes `x` into the running hash `h`.
pub fn hashk(h: u32, x: u32) -> (r: u32)
    ensures
        r == spec_hashk(h, x),
{
    let s = h.wrapping_add(x).wrapping_add(1);
    proof {
        assert(s as int == (h as int + x as int + 1) % 0x1_0000_0000);
        lemma_mod_mul_absorb(h as int + x as int + 1, HASH_MUL as int, 0x1_0000_0000);
    }
    s.wrapping_mul(HASH_MUL)
}


/// Character class of a byte: 1 letter, 2 digit, 3 whitespace (space, tab,
/// line feed, carriage return), 0 anything else.
pub open spec fn byte_class(b: int) -> int {
    if (97 <= b <= 122) || (65 <= b <= 90) {
        1
    } else if 48 <= b <= 57 {
        2
    } else if b == 32 || b == 9 || b == 10 || b == 13 {
        3
    } else {
        0
    }
}

/// Class signature of the four bytes of `c4`: two bits per byte, the least
/// significant byte in the lowest two bits.
pub open spec fn spec_cls4(c4: u32) -> int {
    byte_class(c4 as int % 256) + 4 * byte_class((c4 as int / 0x100) % 256) + 16 * byte_class(
        (c4 as int / 0x1_0000) % 256,
    ) + 64 * byte_class((c4 as int / 0x100_0000) % 256)
}

/// Class of the low byte of `b`.
pub fn class_of_low_byte(b: u32) -> (r: u32)
    ensures
        r as int == byte_class(b as int % 256),
        r < 4,
{
    let lo = b & 0xff;
    assert(lo == b % 256) by (bit_vector)
        requires
            lo == b & 0xff,
    ;
    if (lo >= 97 && lo <= 122) || (lo >= 65 && lo <= 90) {
        1
    } else if lo >= 48 && lo <= 57 {
        2
    } else if lo == 32 || lo == 9 || lo == 10 || lo == 13 {
        3
    } else {
        0
    }
}

/// Packs the letter/digit/space/other class of the four bytes of `c4` into an
/// 8-bit signature.
pub fn cls4(c4: u32) -> (r: u32)
    ensures
        r as int == spec_cls4(c4),
        r < 256,
{
    let a = class_of_low_byte(c4);
    let b = class_of_low_byte(c4 >> 8);
    let c = class_of_low_byte(c4 >> 16);
    let d = class_of_low_byte(c4 >> 24);
    assert((c4 >> 8) as int == c4 as int / 0x100 && (c4 >> 16) as int == c4 as int / 0x1_0000
        && (c4 >> 24) as int == c4 as int / 0x100_0000) by (bit_vector);
    assert(a | (b << 2) | (c << 4) | (d << 6) == a + 4 * b + 16 * c + 64 * d) by (bit_vector)
        requires
            a < 4,
            b < 4,
            c < 4,
            d < 4,
    ;
    a | (b << 2) | (c << 4) | (d << 6)
}

} // verus!
