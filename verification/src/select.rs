use vstd::prelude::*;
use crate::hashing::{byte_class, class_of_low_byte, cls4, spec_cls4};
use crate::model::{
    pow2_bit, Cm, CTW_IN, DMC_IN, GLN_BITS, GLN_NSEL, GLN_SEL, L1_NCTX, L2_NCTX, MM_BASE, NINPUT,
    NL1, NL2, SM_BASE,
};

verus! {

/// Class of the low byte of `b` (1 letter, 2 digit, 3 whitespace, 0 other).
pub open spec fn cls(b: u32) -> int {
    byte_class(b as int % 256)
}

/// Direction of a byte difference: 0 none, 1 up, 2 down (mod 256).
pub open spec fn sign3(d: u32) -> int {
    if d == 0 {
        0
    } else if d < 128 {
        1
    } else {
        2
    }
}

/// Size of a byte difference (mod 256, either direction), bucketed 0..4.
pub open spec fn dmag(d: u32) -> int {
    let m = if d >= 128 {
        256 - d
    } else {
        d as int
    };
    if m == 0 {
        0
    } else if m <= 2 {
        1
    } else if m <= 8 {
        2
    } else if m <= 32 {
        3
    } else {
        4
    }
}

/// Sign and coarse size of a byte difference: size bucket 0..3, plus 4 when
/// it goes down.
pub open spec fn dsm(d: u32) -> int {
    let neg = d >= 128;
    let m = if neg {
        256 - d
    } else {
        d as int
    };
    let mb: int = if m == 0 {
        0
    } else if m <= 4 {
        1
    } else if m <= 32 {
        2
    } else {
        3
    };
    mb + if neg {
        4int
    } else {
        0
    }
}

/// Run-length regime, bucketed 0..7.
pub open spec fn runb(r: u32) -> int {
    if r <= 1 {
        0
    } else if r == 2 {
        1
    } else if r <= 4 {
        2
    } else if r <= 8 {
        3
    } else if r <= 16 {
        4
    } else if r <= 64 {
        5
    } else if r <= 256 {
        6
    } else {
        7
    }
}

pub open spec fn abs(v: int) -> int {
    if v < 0 {
        -v
    } else {
        v
    }
}

/// Confidence of a logit in four levels.
pub open spec fn cbucket(v: i32) -> int {
    if abs(v as int) / 512 > 3 {
        3
    } else {
        abs(v as int) / 512
    }
}

/// Confidence of a logit in eight levels.
pub open spec fn fbucket(v: i32) -> int {
    if abs(v as int) / 256 > 7 {
        7
    } else {
        abs(v as int) / 256
    }
}

pub open spec fn flag(b: bool) -> int {
    if b {
        1
    } else {
        0
    }
}

pub open spec fn min_int(a: int, b: int) -> int {
    if a < b {
        a
    } else {
        b
    }
}

impl Cm {
    pub open spec fn mlen(&self, j: int) -> i32 {
        self.mm@[j].len
    }

    /// Match-activity flags and the last byte.
    pub open spec fn sel_match_c1(&self) -> int {
        8192 * flag(self.mlen(3) > 0) + 4096 * flag(self.mlen(2) > 72) + 2048 * flag(
            self.mlen(2) > 52,
        ) + 1024 * flag(self.mlen(2) > 0) + 512 * flag(self.mlen(1) > 0) + 256 * flag(
            self.mlen(0) > 0,
        ) + self.c1
    }

    /// Length of the primary match (capped) and two other matches' activity.
    pub open spec fn sel_match_len(&self) -> int {
        4 * min_int(self.mlen(0) as int, 15) + 2 * flag(self.mlen(2) > 0) + flag(self.mlen(3) > 0)
    }

    /// Enclosing bracket and nesting depth.
    pub open spec fn sel_nest(&self) -> int {
        if self.nest_depth > 0 {
            self.nest_stack[self.nest_depth - 1] + 256 * (self.nest_depth as int % 4)
        } else {
            0
        }
    }

    /// Byte above and the low bit of the last byte.
    pub open spec fn sel_above(&self) -> int {
        self.above_byte + 512 * (self.c1 % 2)
    }

    /// Recent coding difficulty and the bit position.
    pub open spec fn sel_hard(&self) -> int {
        min_int(self.hard as int / 2048, 31) + 32 * self.bitcount
    }

    /// Direction of the difficulty trend (0..7).
    pub open spec fn trend(&self) -> int {
        let t = ((self.hard_fast - self.hard_slow) as i32 >> 12i32) as int;
        (if t < -4 {
            -4
        } else if t > 3 {
            3
        } else {
            t
        }) + 4
    }

    pub open spec fn cb(&self, n: int) -> int {
        cbucket(self.mix_in[n])
    }

    /// Confidence of the long-range predictors and the bit position.
    pub open spec fn sel_conf_high(&self) -> int {
        self.cb(CTW_IN as int) + 4 * self.cb(DMC_IN as int) + 16 * self.cb(MM_BASE as int) + 64
            * self.cb(MM_BASE + 1) + 256 * self.bitcount
    }

    /// Confidence of the mid-order direct counters.
    pub open spec fn sel_conf_local(&self) -> int {
        self.cb(2) + 4 * self.cb(3) + 16 * self.cb(4) + 64 * self.cb(6)
    }

    /// Confidence of the word models.
    pub open spec fn sel_conf_word(&self) -> int {
        self.cb(7) + 4 * self.cb(23) + 16 * self.cb(25) + 64 * self.cb(66)
    }

    /// Confidence of low-order state maps and the bit position.
    pub open spec fn sel_conf_state(&self) -> int {
        self.cb(SM_BASE + 1) + 4 * self.cb(SM_BASE + 5) + 16 * self.cb(SM_BASE + 7) + 64 * self.cb(
            SM_BASE + 11,
        ) + 256 * self.bitcount
    }

    /// Confidence of word state maps and the long match.
    pub open spec fn sel_conf_wstate(&self) -> int {
        self.cb(SM_BASE + 9) + 4 * self.cb(SM_BASE + 12) + 16 * self.cb(MM_BASE + 2) + 64 * self.cb(
            SM_BASE + 13,
        )
    }

    /// Sign bits of `n` consecutive mixer inputs from `base`.
    pub open spec fn sign_bits(&self, base: int, n: int) -> int
        decreases n,
    {
        if n <= 0 {
            0
        } else {
            self.sign_bits(base, n - 1) + if self.mix_in[base + n - 1] > 0 {
                pow2_bit(n - 1)
            } else {
                0
            }
        }
    }

    /// Signed weighted sum of the first `n` selected inputs for gate bit `k`.
    pub open spec fn gln_proj(&self, k: int, n: int) -> int
        decreases n,
    {
        if n <= 0 {
            0
        } else {
            self.gln_proj(k, n - 1) + self.gln_hp@[k * GLN_NSEL + n - 1] * self.mix_in[GLN_SEL[n
                - 1] as int]
        }
    }

    /// Halfspace gate: bit `k` set when projection `k` is positive.
    pub open spec fn gln_gate(&self, n: int) -> int
        decreases n,
    {
        if n <= 0 {
            0
        } else {
            self.gln_gate(n - 1) + if self.gln_proj(n - 1, GLN_NSEL as int) > 0 {
                pow2_bit(n - 1)
            } else {
                0
            }
        }
    }

    /// Unmasked context of layer-1 specialist `k`.
    pub open spec fn l1_sel(&self, k: int) -> int {
        if k == 0 {
            self.sel_match_c1()
        } else if k == 1 {
            self.c0 as int
        } else if k == 2 {
            (self.c4 as int / 256) % 256
        } else if k == 3 {
            self.c4 as int % 65536
        } else if k == 4 {
            ((self.c4 & 0xff_ffff).wrapping_mul(0x9e37_79b1) >> 13u32) as int
        } else if k == 5 {
            self.sel_match_len()
        } else if k == 6 {
            64 * (self.col as int % 64) + self.c1 % 64
        } else if k == 7 {
            (self.c4.wrapping_mul(0x9e37_79b1) >> 19u32) as int
        } else if k == 8 {
            if self.pos >= 6 {
                self.m6() as int
            } else {
                self.c4 as int
            }
        } else if k == 9 {
            if self.pos >= 4 {
                self.back(2) + 256 * self.back(4)
            } else {
                self.c1 as int
            }
        } else if k == 10 {
            if self.pos >= 6 {
                self.back(3) + 256 * self.back(6)
            } else {
                self.c1 as int
            }
        } else if k == 11 {
            self.sel_above()
        } else if k == 12 {
            self.ind_pred as int
        } else if k == 13 {
            self.sel_nest()
        } else if k == 14 {
            (self.hnm() >> 20u32) as int
        } else if k == 15 {
            spec_cls4(self.c4)
        } else if k == 16 {
            (self.c4 as int % 256) / 16 + 16 * cls(self.c4) + 64 * cls(self.c4 >> 8u32)
        } else if k == 17 {
            runb(self.run_len) + 8 * cls(self.c4)
        } else if k == 18 {
            sign3(self.delta(0)) + 3 * sign3(self.delta(1)) + 9 * sign3(self.delta(2))
        } else if k == 19 {
            if self.rec_ok() {
                1 + self.back(self.rlen as int) / 32
            } else {
                0
            }
        } else if k == 20 {
            (if self.above_byte > 255 {
                4
            } else {
                cls(self.above_byte)
            }) + 8 * (self.nest_depth as int % 8)
        } else if k == 21 {
            dmag(self.delta(0)) + 8 * cls(self.c4)
        } else if k == 22 {
            self.gln_gate(GLN_BITS as int)
        } else if k == 23 {
            self.sign_bits(0, 7) + 128 * self.sign_bits(SM_BASE as int, 7)
        } else if k == 24 {
            self.sign_bits(MM_BASE as int, 6) + 64 * flag(self.mix_in[DMC_IN as int] > 0) + 128
                * flag(self.mix_in[CTW_IN as int] > 0)
        } else if k == 25 {
            self.sel_conf_high()
        } else if k == 26 {
            self.sel_conf_local()
        } else if k == 27 {
            self.sel_conf_word()
        } else if k == 28 {
            self.sel_conf_state()
        } else if k == 29 {
            self.sel_conf_wstate()
        } else if k == 30 {
            fbucket(self.mix_in[CTW_IN as int]) + 8 * fbucket(self.mix_in[SM_BASE + 9]) + 64 * flag(
                self.mix_in[MM_BASE as int] > 0,
            ) + 128 * flag(self.mix_in[MM_BASE + 1] > 0)
        } else if k == 31 {
            self.sel_hard()
        } else {
            8 * min_int(self.hard_slow as int / 8192, 3) + self.trend() + 32 * self.bitcount
        }
    }

    /// Unmasked context of layer-2 combiner `k`.
    pub open spec fn l2_sel(&self, k: int) -> int {
        if k == 0 {
            self.c1 as int
        } else if k == 1 {
            self.c0 as int
        } else if k == 2 {
            self.sel_match_len()
        } else if k == 3 {
            (self.c4 as int / 256) % 256
        } else if k == 4 {
            if self.wordhash != 0 {
                (self.wordhash.wrapping_mul(0x9e37_79b1) >> 24u32) as int
            } else {
                self.c1 as int
            }
        } else if k == 5 {
            (self.hnm() >> 24u32) as int
        } else if k == 6 {
            spec_cls4(self.c4)
        } else if k == 7 {
            self.sel_nest()
        } else if k == 8 {
            self.sel_above()
        } else if k == 9 {
            dsm(self.delta(0)) + 8 * cls(self.c4) + 64 * sign3(self.delta(1))
        } else if k == 10 {
            self.sel_hard()
        } else if k == 11 {
            self.sel_conf_high()
        } else if k == 12 {
            self.sel_conf_state()
        } else if k == 13 {
            self.sel_conf_local()
        } else if k == 14 {
            self.sel_conf_word()
        } else {
            self.sel_conf_wstate()
        }
    }
}


fn cls_of(b: u32) -> (r: usize)
    ensures
        r as int == cls(b),
        r < 4,
{
    class_of_low_byte(b) as usize
}

fn sign3_of(d: u32) -> (r: usize)
    ensures
        r as int == sign3(d),
        r < 3,
{
    if d == 0 {
        0
    } else if d < 128 {
        1
    } else {
        2
    }
}

fn dmag_of(d: u32) -> (r: usize)
    requires
        d < 256,
    ensures
        r as int == dmag(d),
        r < 5,
{
    let m = if d >= 128 {
        256 - d
    } else {
        d
    };
    if m == 0 {
        0
    } else if m <= 2 {
        1
    } else if m <= 8 {
        2
    } else if m <= 32 {
        3
    } else {
        4
    }
}

fn dsm_of(d: u32) -> (r: usize)
    requires
        d < 256,
    ensures
        r as int == dsm(d),
        r < 8,
{
    let neg = d >= 128;
    let m = if neg {
        256 - d
    } else {
        d
    };
    let mb: usize = if m == 0 {
        0
    } else if m <= 4 {
        1
    } else if m <= 32 {
        2
    } else {
        3
    };
    mb + if neg {
        4
    } else {
        0
    }
}

fn runb_of(r: u32) -> (b: usize)
    ensures
        b as int == runb(r),
        b < 8,
{
    if r <= 1 {
        0
    } else if r == 2 {
        1
    } else if r <= 4 {
        2
    } else if r <= 8 {
        3
    } else if r <= 16 {
        4
    } else if r <= 64 {
        5
    } else if r <= 256 {
        6
    } else {
        7
    }
}

fn cbucket_of(v: i32) -> (r: usize)
    requires
        -2048 <= v <= 2048,
    ensures
        r as int == cbucket(v),
        r < 4,
{
    let a = if v < 0 {
        -v
    } else {
        v
    };
    let q = a / 512;
    if q > 3 {
        3
    } else {
        q as usize
    }
}

fn fbucket_of(v: i32) -> (r: usize)
    requires
        -2048 <= v <= 2048,
    ensures
        r as int == fbucket(v),
        r < 8,
{
    let a = if v < 0 {
        -v
    } else {
        v
    };
    let q = a / 256;
    if q > 7 {
        7
    } else {
        q as usize
    }
}

fn flag_of(b: bool) -> (r: usize)
    ensures
        r as int == flag(b),
{
    if b {
        1
    } else {
        0
    }
}

impl Cm {
    fn deltas(&self) -> (r: (u32, u32, u32))
        ensures
            r.0 == self.delta(0) && r.1 == self.delta(1) && r.2 == self.delta(2),
            r.0 < 256 && r.1 < 256 && r.2 < 256,
    {
        let c4 = self.c4;
        let d1 = (c4 & 0xff).wrapping_sub((c4 >> 8) & 0xff) & 0xff;
        let d2 = ((c4 >> 8) & 0xff).wrapping_sub((c4 >> 16) & 0xff) & 0xff;
        let d3 = ((c4 >> 16) & 0xff).wrapping_sub((c4 >> 24) & 0xff) & 0xff;
        proof {
            crate::bits::lemma_mask_bounds();
        }
        (d1, d2, d3)
    }

    fn cb_of(&self, n: usize) -> (r: usize)
        requires
            self.mixers_wf(),
            n < NINPUT,
        ensures
            r as int == self.cb(n as int),
            r < 4,
    {
        cbucket_of(self.mix_in[n])
    }

    fn sel_nest_of(&self) -> (r: usize)
        requires
            self.history_wf(),
        ensures
            r as int == self.sel_nest(),
    {
        if self.nest_depth > 0 {
            self.nest_stack[self.nest_depth - 1] as usize + 256 * (self.nest_depth % 4)
        } else {
            0
        }
    }

    fn sel_above_of(&self) -> (r: usize)
        requires
            self.history_wf(),
        ensures
            r as int == self.sel_above(),
    {
        self.above_byte as usize + 512 * ((self.c1 % 2) as usize)
    }

    fn sel_hard_of(&self) -> (r: usize)
        requires
            self.history_wf(),
        ensures
            r as int == self.sel_hard(),
    {
        let h = self.hard / 2048;
        (if h > 31 {
            31
        } else {
            h
        }) as usize + 32 * (self.bitcount as usize)
    }

    fn sel_match_len_of(&self) -> (r: usize)
        requires
            self.models_wf(),
        ensures
            r as int == self.sel_match_len(),
    {
        let l0 = self.mm[0].len;
        4 * ((if l0 > 15 {
            15
        } else {
            l0
        }) as usize) + 2 * flag_of(self.mm[2].len > 0) + flag_of(self.mm[3].len > 0)
    }

    fn sel_conf_of(&self, a: usize, b: usize, c: usize, d: usize) -> (r: usize)
        requires
            self.mixers_wf(),
            a < NINPUT && b < NINPUT && c < NINPUT && d < NINPUT,
        ensures
            r as int == self.cb(a as int) + 4 * self.cb(b as int) + 16 * self.cb(c as int) + 64
                * self.cb(d as int),
            r < 256,
    {
        self.cb_of(a) + 4 * self.cb_of(b) + 16 * self.cb_of(c) + 64 * self.cb_of(d)
    }

    fn sign_bits_of(&self, base: usize, n: usize) -> (r: usize)
        requires
            self.mixers_wf(),
            base + n <= NINPUT,
            n <= 8,
        ensures
            r as int == self.sign_bits(base as int, n as int),
            r < 256,
    {
        let mut acc: usize = 0;
        let mut w: usize = 1;
        let mut k: usize = 0;
        proof {
            vstd::arithmetic::power2::lemma2_to64();
        }
        while k < n
            invariant
                k <= n,
                n <= 8,
                base + n <= NINPUT,
                w as int == pow2_bit(k as int),
                acc as int == self.sign_bits(base as int, k as int),
                acc < w,
                w <= 256,
            decreases n - k,
        {
            proof {
                vstd::arithmetic::power2::lemma2_to64();
                vstd::arithmetic::power2::lemma_pow2_unfold((k + 1) as nat);
            }
            if self.mix_in[base + k] > 0 {
                acc = acc + w;
            }
            w = w * 2;
            k += 1;
        }
        acc
    }

    fn gln_proj_of(&self, k: usize) -> (r: i64)
        requires
            self.mixers_wf(),
            self.gln_hp@.len() == GLN_BITS * GLN_NSEL,
            k < GLN_BITS,
        ensures
            r as int == self.gln_proj(k as int, GLN_NSEL as int),
    {
        let mut acc: i64 = 0;
        let mut i: usize = 0;
        while i < GLN_NSEL
            invariant
                i <= GLN_NSEL,
                k < GLN_BITS,
                self.mixers_wf(),
                self.gln_hp@.len() == GLN_BITS * GLN_NSEL,
                acc as int == self.gln_proj(k as int, i as int),
                -(i as int) * 0x4_0000 <= acc <= (i as int) * 0x4_0000,
            decreases GLN_NSEL - i,
        {
            let sel = GLN_SEL[i];
            assert(sel < NINPUT);
            let hp = self.gln_hp[k * GLN_NSEL + i] as i64;
            let x = self.mix_in[sel] as i64;
            assert(-0x4_0000 <= hp * x <= 0x4_0000) by (nonlinear_arith)
                requires
                    -128 <= hp <= 127,
                    -2048 <= x <= 2048,
            ;
            acc = acc + hp * x;
            i += 1;
        }
        acc
    }

    fn gln_gate_of(&self) -> (r: usize)
        requires
            self.mixers_wf(),
            self.gln_hp@.len() == GLN_BITS * GLN_NSEL,
        ensures
            r as int == self.gln_gate(GLN_BITS as int),
    {
        let mut acc: usize = 0;
        let mut w: usize = 1;
        let mut k: usize = 0;
        proof {
            vstd::arithmetic::power2::lemma2_to64();
        }
        while k < GLN_BITS as usize
            invariant
                k <= GLN_BITS,
                self.mixers_wf(),
                self.gln_hp@.len() == GLN_BITS * GLN_NSEL,
                w as int == pow2_bit(k as int),
                acc as int == self.gln_gate(k as int),
                acc < w,
                w <= 0x4000,
            decreases GLN_BITS - k,
        {
            proof {
                vstd::arithmetic::power2::lemma2_to64();
                vstd::arithmetic::power2::lemma_pow2_unfold((k + 1) as nat);
            }
            if self.gln_proj_of(k) > 0 {
                acc = acc + w;
            }
            w = w * 2;
            k += 1;
        }
        acc
    }
}


impl Cm {
    fn l1_part1(&self, r: &mut [usize; NL1])
        requires
            self.wf(),
        ensures
            forall|k: int| 0 <= k < 11 ==> #[trigger] final(r)[k] as int == self.l1_sel(k),
            forall|k: int| 11 <= k < NL1 ==> #[trigger] final(r)[k] == old(r)[k],
    {
        let c4 = self.c4;
        let ml0 = self.mm[0].len;
        let ml1 = self.mm[1].len;
        let ml2 = self.mm[2].len;
        let ml3 = self.mm[3].len;
        r[0] = 8192 * flag_of(ml3 > 0) + 4096 * flag_of(ml2 > 72) + 2048 * flag_of(ml2 > 52)
            + 1024 * flag_of(ml2 > 0) + 512 * flag_of(ml1 > 0) + 256 * flag_of(ml0 > 0)
            + self.c1 as usize;
        r[1] = self.c0 as usize;
        r[2] = ((c4 / 256) % 256) as usize;
        r[3] = (c4 % 65536) as usize;
        r[4] = ((c4 & 0xff_ffff).wrapping_mul(0x9e37_79b1) >> 13) as usize;
        r[5] = self.sel_match_len_of();
        r[6] = 64 * ((self.col % 64) as usize) + (self.c1 % 64) as usize;
        r[7] = (c4.wrapping_mul(0x9e37_79b1) >> 19) as usize;
        r[8] = if self.pos >= 6 {
            self.spec_m6_exec() as usize
        } else {
            c4 as usize
        };
        r[9] = if self.pos >= 4 {
            self.bk(2) as usize + 256 * self.bk(4) as usize
        } else {
            self.c1 as usize
        };
        r[10] = if self.pos >= 6 {
            self.bk(3) as usize + 256 * self.bk(6) as usize
        } else {
            self.c1 as usize
        };
        assert forall|k: int| 0 <= k < 11 implies #[trigger] r[k] as int == self.l1_sel(k) by {}
    }

    fn l1_part2(&self, r: &mut [usize; NL1])
        requires
            self.wf(),
        ensures
            forall|k: int| 11 <= k < 22 ==> #[trigger] final(r)[k] as int == self.l1_sel(k),
            forall|k: int|
                0 <= k < NL1 && !(11 <= k < 22) ==> #[trigger] final(r)[k] == old(r)[k],
    {
        let c4 = self.c4;
        let (d1, d2, d3) = self.deltas();
        r[11] = self.sel_above_of();
        r[12] = self.ind_pred as usize;
        r[13] = self.sel_nest_of();
        r[14] = (self.hnm_exec() >> 20) as usize;
        r[15] = cls4(c4) as usize;
        r[16] = ((c4 % 256) / 16) as usize + 16 * cls_of(c4) + 64 * cls_of(c4 >> 8);
        r[17] = runb_of(self.run_len) + 8 * cls_of(c4);
        r[18] = sign3_of(d1) + 3 * sign3_of(d2) + 9 * sign3_of(d3);
        r[19] = if self.rcount > 8 && self.rlen >= 2 && self.rlen < self.pos {
            1 + (self.bk(self.rlen) / 32) as usize
        } else {
            0
        };
        r[20] = (if self.above_byte > 255 {
            4
        } else {
            cls_of(self.above_byte)
        }) + 8 * (self.nest_depth % 8);
        r[21] = dmag_of(d1) + 8 * cls_of(c4);
        assert forall|k: int| 11 <= k < 22 implies #[trigger] r[k] as int == self.l1_sel(k) by {}
    }

    fn l1_part3(&self, r: &mut [usize; NL1])
        requires
            self.wf(),
        ensures
            forall|k: int| 22 <= k < NL1 ==> #[trigger] final(r)[k] as int == self.l1_sel(k),
            forall|k: int| 0 <= k < 22 ==> #[trigger] final(r)[k] == old(r)[k],
    {
        r[22] = self.gln_gate_of();
        r[23] = self.sign_bits_of(0, 7) + 128 * self.sign_bits_of(SM_BASE, 7);
        r[24] = self.sign_bits_of(MM_BASE, 6) + 64 * flag_of(self.mix_in[DMC_IN] > 0) + 128
            * flag_of(self.mix_in[CTW_IN] > 0);
        let bc = self.bitcount as usize;
        r[25] = self.sel_conf_of(CTW_IN, DMC_IN, MM_BASE, MM_BASE + 1) + 256 * bc;
        r[26] = self.sel_conf_of(2, 3, 4, 6);
        r[27] = self.sel_conf_of(7, 23, 25, 66);
        r[28] = self.sel_conf_of(SM_BASE + 1, SM_BASE + 5, SM_BASE + 7, SM_BASE + 11) + 256 * bc;
        r[29] = self.sel_conf_of(SM_BASE + 9, SM_BASE + 12, MM_BASE + 2, SM_BASE + 13);
        r[30] = fbucket_of(self.mix_in[CTW_IN]) + 8 * fbucket_of(self.mix_in[SM_BASE + 9]) + 64
            * flag_of(self.mix_in[MM_BASE] > 0) + 128 * flag_of(self.mix_in[MM_BASE + 1] > 0);
        r[31] = self.sel_hard_of();
        let hs = self.hard_slow / 8192;
        let t = (self.hard_fast - self.hard_slow) >> 12;
        let tc = if t < -4 {
            -4
        } else if t > 3 {
            3
        } else {
            t
        };
        r[32] = 8 * ((if hs > 3 {
            3
        } else {
            hs
        }) as usize) + (tc + 4) as usize + 32 * bc;
        assert forall|k: int| 22 <= k < NL1 implies #[trigger] r[k] as int == self.l1_sel(k) by {}
    }

    /// Selects each layer-1 specialist's weight row from its context.
    pub(crate) fn select_l1(&mut self)
        requires
            old(self).wf(),
        ensures
            final(self).wf(),
            final(self).l1@.len() == NL1,
            forall|k: int|
                0 <= k < NL1 ==> #[trigger] final(self).l1@[k] == (crate::mixer::Mixer {
                    ctx: (old(self).l1_sel(k) % (L1_NCTX[k] as int)) as usize,
                    ..old(self).l1@[k]
                }),
            *final(self) == (Cm { l1: final(self).l1, ..*old(self) }),
    {
        let mut r = [0usize; NL1];
        self.l1_part1(&mut r);
        self.l1_part2(&mut r);
        self.l1_part3(&mut r);
        let mut k: usize = 0;
        while k < NL1
            invariant
                k <= NL1,
                self.wf(),
                old(self).wf(),
                *self == (Cm { l1: self.l1, ..*old(self) }),
                forall|q: int| 0 <= q < NL1 ==> #[trigger] r[q] as int == old(self).l1_sel(q),
                forall|q: int|
                    0 <= q < k ==> #[trigger] self.l1@[q] == (crate::mixer::Mixer {
                        ctx: (old(self).l1_sel(q) % (L1_NCTX[q] as int)) as usize,
                        ..old(self).l1@[q]
                    }),
                forall|q: int| k <= q < NL1 ==> #[trigger] self.l1@[q] == old(self).l1@[q],
            decreases NL1 - k,
        {
            let n = self.l1[k].nctx;
            self.l1[k].ctx = r[k] % n;
            proof {
                assert forall|q: int| 0 <= q < NL1 implies (#[trigger] self.l1@[q]).wf(
                    NINPUT as int,
                ) && self.l1@[q].nctx == L1_NCTX[q] && self.l1@[q].lr == crate::model::L1LR by {
                    assert(old(self).l1@[q].wf(NINPUT as int));
                }
            }
            k += 1;
        }
    }

    fn l2_raw(&self) -> (r: [usize; NL2])
        requires
            self.wf(),
        ensures
            forall|k: int| 0 <= k < NL2 ==> #[trigger] r[k] as int == self.l2_sel(k),
    {
        let c4 = self.c4;
        let bc = self.bitcount as usize;
        let (d1, d2, _d3) = self.deltas();
        let mut r = [0usize; NL2];
        r[0] = self.c1 as usize;
        r[1] = self.c0 as usize;
        r[2] = self.sel_match_len_of();
        r[3] = ((c4 / 256) % 256) as usize;
        r[4] = if self.wordhash != 0 {
            (self.wordhash.wrapping_mul(0x9e37_79b1) >> 24) as usize
        } else {
            self.c1 as usize
        };
        r[5] = (self.hnm_exec() >> 24) as usize;
        r[6] = cls4(c4) as usize;
        r[7] = self.sel_nest_of();
        r[8] = self.sel_above_of();
        r[9] = dsm_of(d1) + 8 * cls_of(c4) + 64 * sign3_of(d2);
        r[10] = self.sel_hard_of();
        r[11] = self.sel_conf_of(CTW_IN, DMC_IN, MM_BASE, MM_BASE + 1) + 256 * bc;
        r[12] = self.sel_conf_of(SM_BASE + 1, SM_BASE + 5, SM_BASE + 7, SM_BASE + 11) + 256 * bc;
        r[13] = self.sel_conf_of(2, 3, 4, 6);
        r[14] = self.sel_conf_of(7, 23, 25, 66);
        r[15] = self.sel_conf_of(SM_BASE + 9, SM_BASE + 12, MM_BASE + 2, SM_BASE + 13);
        assert forall|k: int| 0 <= k < NL2 implies #[trigger] r[k] as int == self.l2_sel(k) by {}
        r
    }

    /// Selects each layer-2 combiner's weight row from its context.
    pub(crate) fn select_l2(&mut self)
        requires
            old(self).wf(),
        ensures
            final(self).wf(),
            final(self).l2@.len() == NL2,
            forall|k: int|
                0 <= k < NL2 ==> #[trigger] final(self).l2@[k] == (crate::mixer::Mixer {
                    ctx: (old(self).l2_sel(k) % (L2_NCTX[k] as int)) as usize,
                    ..old(self).l2@[k]
                }),
            *final(self) == (Cm { l2: final(self).l2, ..*old(self) }),
    {
        let r = self.l2_raw();
        let mut k: usize = 0;
        while k < NL2
            invariant
                k <= NL2,
                self.wf(),
                old(self).wf(),
                *self == (Cm { l2: self.l2, ..*old(self) }),
                forall|q: int| 0 <= q < NL2 ==> #[trigger] r[q] as int == old(self).l2_sel(q),
                forall|q: int|
                    0 <= q < k ==> #[trigger] self.l2@[q] == (crate::mixer::Mixer {
                        ctx: (old(self).l2_sel(q) % (L2_NCTX[q] as int)) as usize,
                        ..old(self).l2@[q]
                    }),
                forall|q: int| k <= q < NL2 ==> #[trigger] self.l2@[q] == old(self).l2@[q],
            decreases NL2 - k,
        {
            let n = self.l2[k].nctx;
            self.l2[k].ctx = r[k] % n;
            proof {
                assert forall|q: int| 0 <= q < NL2 implies (#[trigger] self.l2@[q]).wf(
                    NL1 as int,
                ) && self.l2@[q].nctx == L2_NCTX[q] && self.l2@[q].lr == crate::model::L2LR by {
                    assert(old(self).l2@[q].wf(NL1 as int));
                }
            }
            k += 1;
        }
    }
}

} // verus!
