use vstd::prelude::*;

verus! {

// A bit-history state byte holds two bounded counts: the count of zeros in
// the high nibble and the count of ones in the low nibble, each 0..15.

/// Count of zeros recorded in state `s`.
pub open spec fn state_n0(s: u8) -> int {
    s as int / 16
}

/// Count of ones recorded in state `s`.
pub open spec fn state_n1(s: u8) -> int {
    s as int % 16
}

/// The state byte that records the counts `(n0, n1)`, each 0..15.
pub open spec fn encode_state(n0: int, n1: int) -> int {
    16 * n0 + n1
}

pub open spec fn min(a: int, b: int) -> int {
    if a < b {
        a
    } else {
        b
    }
}

/// Counts after observing `bit`: the matching count grows by one (up to 15)
/// and the opposite count is cut back to at most 3.
pub open spec fn next_counts(n0: int, n1: int, bit: bool) -> (int, int) {
    if bit {
        (min(n0, 3), min(n1 + 1, 15))
    } else {
        (min(n0 + 1, 15), min(n1, 3))
    }
}

/// The state that follows `s` when `bit` (nonzero means one) is observed.
pub open spec fn spec_next_state(s: u8, bit: i32) -> int {
    let (a, b) = next_counts(state_n0(s), state_n1(s), bit != 0);
    encode_state(a, b)
}

/// Nonstationary bit-history state transition. The state byte packs two
/// bounded counts (n0 in the high nibble, n1 in the low nibble, each
/// 0..15). On each observed bit the matching count is incremented and the
/// opposite count is reset to a small floor (3), which strongly emphasises
/// recent statistics.
pub fn next_state(s: u8, bit: i32) -> (r: u8)
    ensures
        r as int == spec_next_state(s, bit),
        state_n0(r) == next_counts(state_n0(s), state_n1(s), bit != 0).0,
        state_n1(r) == next_counts(state_n0(s), state_n1(s), bit != 0).1,
{
    let mut n0: u8 = s >> 4;
    let mut n1: u8 = s & 15;
    proof {
        assert(n0 as int == s as int / 16 && n1 as int == s as int % 16) by (bit_vector)
            requires
                n0 == s >> 4,
                n1 == s & 15,
        ;
    }
    if bit != 0 {
        if n1 < 15 {
            n1 += 1;
        }
        if n0 > 3 {
            n0 = 3;
        }
    } else {
        if n0 < 15 {
            n0 += 1;
        }
        if n1 > 3 {
            n1 = 3;
        }
    }
    proof {
        assert(((n0 << 4u8) | n1) as int == 16 * n0 + n1) by (bit_vector)
            requires
                n0 <= 15,
                n1 <= 15,
        ;
    }
    (n0 << 4u8) | n1
}

} // verus!
