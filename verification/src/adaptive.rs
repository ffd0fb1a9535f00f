use vstd::prelude::*;

verus! {

/// One in 22-bit fixed point: the probability scale of state-map cells.
pub const P22_ONE: u32 = 0x40_0000;

/// Probability field (22-bit fixed point) of a state-map cell.
pub open spec fn cell_prob(e: u32) -> int {
    e as int / 1024
}

/// Adaptation-count field of a state-map cell.
pub open spec fn cell_count(e: u32) -> int {
    e as int % 1024
}

/// `p` moved toward the observed bit by `1/d` of the distance, with the
/// truncating division of the two's-complement arithmetic it is computed in.
pub open spec fn adapt_toward(p: int, bit: i32, d: int) -> int {
    if bit == 1 {
        p + (P22_ONE as int - p) / d
    } else {
        p - p / d
    }
}

/// The cell after one count-based update: probability adapted at rate
/// `1/(count + k)` (kept modulo 2^22, as the 22-bit field stores it), count
/// increased up to `cap`.
pub open spec fn spec_cell_update(e: u32, bit: i32, k: u32, cap: u32) -> int {
    (adapt_toward(cell_prob(e), bit, cell_count(e) + k) % P22_ONE as int) * 1024 + (if cell_count(
        e,
    ) < cap {
        cell_count(e) + 1
    } else {
        cap as int
    })
}

/// Count-based state-map update of a cell packing `prob22 << 10 | count`.
pub fn cell_update(e: u32, bit: i32, k: u32, cap: u32) -> (r: u32)
    requires
        bit == 0 || bit == 1,
        1 <= k <= 1024,
        cap < 1024,
    ensures
        r as int == spec_cell_update(e, bit, k, cap),
{
    let cnt = e & 1023;
    let p22 = e >> 10;
    proof {
        assert(cnt as int == e as int % 1024 && p22 as int == e as int / 1024 && p22 < P22_ONE)
            by (bit_vector)
            requires
                cnt == e & 1023,
                p22 == e >> 10,
        ;
    }
    let d = cnt + k;
    let newp: u32 = if bit != 0 {
        p22 + (P22_ONE - p22) / d
    } else {
        p22 - p22 / d
    };
    let newcnt = if cnt < cap {
        cnt + 1
    } else {
        cap
    };
    proof {
        assert(newp <= P22_ONE) by {
            if bit != 0 {
                vstd::arithmetic::div_mod::lemma_div_is_ordered_by_denominator(
                    (P22_ONE - p22) as int,
                    1,
                    d as int,
                );
            }
        }
        assert((newp << 10) | newcnt == (newp as int % 0x40_0000) * 1024 + newcnt) by (bit_vector)
            requires
                newp <= 0x40_0000u32,
                newcnt < 1024,
        ;
    }
    (newp << 10) | newcnt
}

/// Adaptation rate (out of 4096) of a direct context counter that has seen
/// `n` updates: `4096 / (n + 2)`, never below 16.
pub open spec fn spec_rate(n: int) -> int {
    if 4096int / (n + 2) < 16 {
        16
    } else {
        4096int / (n + 2)
    }
}

/// The table of `spec_rate(n)` for `n` in `0..256`.
pub fn build_rate_table() -> (t: [i32; 256])
    ensures
        forall|n: int| 0 <= n < 256 ==> t[n] as int == spec_rate(n),
{
    let mut t = [0i32; 256];
    let mut n: usize = 0;
    while n < 256
        invariant
            n <= 256,
            forall|m: int| 0 <= m < n ==> t[m] as int == spec_rate(m),
        decreases 256 - n,
    {
        let mut r = 4096 / (n as i32 + 2);
        if r < 16 {
            r = 16;
        }
        t[n] = r;
        n += 1;
    }
    t
}

/// Counter value after adapting probability `pr` (16-bit, 0..65535) toward
/// target `t` at rate `rate/4096`, rounding the step down.
pub open spec fn spec_counter_step(pr: int, t: int, rate: int) -> int {
    pr + ((t - pr) * rate) / 4096
}

/// Adapts a direct context counter stored as `cp = pr - 32768` toward the
/// target (0 or 65535).
pub fn counter_step(cp: i16, t: i32, rate: i32) -> (r: i16)
    requires
        t == 0 || t == 65535,
        1 <= rate <= 4096,
    ensures
        r as int == spec_counter_step(cp as int + 32768, t as int, rate as int) - 32768,
{
    let pr = cp as i32 + 32768;
    assert(-65535 * 4096 <= (t - pr) * rate <= 65535 * 4096) by (nonlinear_arith)
        requires
            0 <= pr <= 65535,
            0 <= t <= 65535,
            1 <= rate <= 4096,
    ;
    let prod = (t - pr) * rate;
    let step = prod >> 12;
    assert(step as int == prod as int / 4096) by (bit_vector)
        requires
            step == prod >> 12,
    ;
    let np = pr + step;
    assert(0 <= np <= 65535) by (nonlinear_arith)
        requires
            np == pr + step,
            step == prod / 4096,
            prod == (t - pr) * rate,
            0 <= pr <= 65535,
            t == 0 || t == 65535,
            1 <= rate <= 4096,
    ;
    (np - 32768) as i16
}

} // verus!
