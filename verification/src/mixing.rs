use vstd::prelude::*;
use crate::apm::{apm_pos, apm_value, clamp16, Apm};
use crate::bits::lemma_shr16_floor;
use crate::mixer::{dot_prefix, spec_logit, Mixer};
use crate::model::{Cm, NINPUT, NL1, NL2};
use crate::select::flag;
use crate::tables::{logit_index, squash16_d, squash_d};

verus! {

/// Clamps a 12-bit probability to `1..=4094`.
pub open spec fn clamp12(p: int) -> int {
    if p < 1 {
        1
    } else if p > 4094 {
        4094
    } else {
        p
    }
}

/// Integer division rounding toward zero.
pub open spec fn trunc_div(a: int, b: int) -> int {
    if a >= 0 {
        a / b
    } else {
        -((-a) / b)
    }
}

impl Cm {
    /// Dot product of layer-1 specialist `k`'s selected row with the inputs.
    pub open spec fn l1_dot(&self, k: int) -> int {
        dot_prefix(self.l1@[k].w@, self.l1@[k].row(NINPUT as int), self.mix_in64@, NINPUT as int)
    }

    /// Dot product of layer-2 combiner `k`'s selected row with the
    /// specialists' logits.
    pub open spec fn l2_dot(&self, k: int) -> int {
        dot_prefix(self.l2@[k].w@, self.l2@[k].row(NL1 as int), self.l2_in64@, NL1 as int)
    }

    /// The 12-bit probability of a logit, kept off the ends.
    pub open spec fn prob12(&self, d: int) -> int {
        clamp12(self.tables.squash@[logit_index(d)] as int)
    }

    /// Sum of the first `n` combiners' logits.
    pub open spec fn l2_logit_sum(&self, n: int) -> int
        decreases n,
    {
        if n <= 0 {
            0
        } else {
            self.l2_logit_sum(n - 1) + spec_logit(self.l2_dot(n - 1))
        }
    }

    /// The mixed 16-bit probability before calibration.
    pub open spec fn mixed_prob(&self) -> int {
        clamp16(
            self.tables.squash16@[logit_index(trunc_div(self.l2_logit_sum(NL2 as int), 16))] as int,
        )
    }

    pub open spec fn apm1_ctx(&self) -> int {
        self.c1 + 256 * flag(self.mm@[0].len > 0)
    }

    pub open spec fn apm2_ctx(&self) -> int {
        self.c4 as int % 16384
    }

    pub open spec fn apm3_ctx(&self) -> int {
        self.c0 + 256 * flag(self.mm@[0].len > 0) + 512 * flag(self.mm@[2].len > 0)
    }

    pub open spec fn apm4_ctx(&self) -> int {
        self.mm@[0].len % 256 + 256 * flag(self.mm@[2].len > 0) + 512 * flag(self.mm@[3].len > 0)
    }

    /// Probability after the first calibration stage (order-1 / match).
    pub open spec fn prob_a1(&self, p0: int) -> int {
        clamp16(
            (p0 + apm_value(self.apm1.t@, self.tables.stretch16@, self.apm1_ctx(), p0)) / 2,
        )
    }

    /// After the second stage (order-2 context).
    pub open spec fn prob_a2(&self, p0: int) -> int {
        let p1 = self.prob_a1(p0);
        clamp16((p1 + apm_value(self.apm2.t@, self.tables.stretch16@, self.apm2_ctx(), p1)) / 2)
    }

    /// After the third stage (partial byte / match activity).
    pub open spec fn prob_a3(&self, p0: int) -> int {
        let p2 = self.prob_a2(p0);
        clamp16((p2 + apm_value(self.apm3.t@, self.tables.stretch16@, self.apm3_ctx(), p2)) / 2)
    }

    /// The final probability: the fourth stage (match length) weighted 1:3.
    pub open spec fn prob_final(&self, p0: int) -> int {
        let p3 = self.prob_a3(p0);
        clamp16(
            (3 * p3 + apm_value(self.apm4.t@, self.tables.stretch16@, self.apm4_ctx(), p3)) / 4,
        )
    }

    /// Copies the mixer inputs to their 64-bit form.
    pub(crate) fn widen_inputs(&mut self)
        requires
            old(self).wf(),
        ensures
            final(self).wf(),
            forall|i: int|
                0 <= i < NINPUT ==> #[trigger] final(self).mix_in64[i] == final(self).mix_in[i],
            *final(self) == (Cm { mix_in64: final(self).mix_in64, ..*old(self) }),
    {
        let mut i: usize = 0;
        while i < NINPUT
            invariant
                i <= NINPUT,
                old(self).wf(),
                self.wf(),
                *self == (Cm { mix_in64: self.mix_in64, ..*old(self) }),
                forall|q: int| 0 <= q < i ==> #[trigger] self.mix_in64[q] == self.mix_in[q],
            decreases NINPUT - i,
        {
            self.mix_in64[i] = self.mix_in[i] as i64;
            i += 1;
        }
    }

    /// Runs the layer-1 specialists: each one's logit and probability.
    pub(crate) fn mix_l1(&mut self)
        requires
            old(self).wf(),
            forall|i: int| 0 <= i < NINPUT ==> #[trigger] old(self).mix_in64[i] == old(self).mix_in[i],
        ensures
            final(self).wf(),
            forall|k: int|
                0 <= k < NL1 ==> #[trigger] final(self).l2_in[k] == spec_logit(old(self).l1_dot(k)),
            forall|k: int|
                0 <= k < NL1 ==> #[trigger] final(self).l1@[k] == (Mixer {
                    pr: old(self).prob12(final(self).l2_in[k] as int) as i32,
                    ..old(self).l1@[k]
                }),
            *final(self) == (Cm { l1: final(self).l1, l2_in: final(self).l2_in, ..*old(self) }),
    {
        let mut k: usize = 0;
        while k < NL1
            invariant
                k <= NL1,
                self.wf(),
                old(self).wf(),
                forall|i: int| 0 <= i < NINPUT ==> #[trigger] self.mix_in64[i] == self.mix_in[i],
                *self == (Cm { l1: self.l1, l2_in: self.l2_in, ..*old(self) }),
                forall|q: int|
                    0 <= q < k ==> #[trigger] self.l2_in[q] == spec_logit(old(self).l1_dot(q)),
                forall|q: int|
                    0 <= q < k ==> #[trigger] self.l1@[q] == (Mixer {
                        pr: old(self).prob12(self.l2_in[q] as int) as i32,
                        ..old(self).l1@[q]
                    }),
                forall|q: int| k <= q < NL1 ==> #[trigger] self.l1@[q] == old(self).l1@[q],
            decreases NL1 - k,
        {
            proof {
                lemma_shr16_floor();
                assert(self.l1@[k as int].wf(NINPUT as int));
                assert forall|i: int| 0 <= i < NINPUT implies -2048 <= #[trigger] self.mix_in64@[i]
                    <= 2048 by {
                    assert(self.mix_in64[i] == self.mix_in[i]);
                }
            }
            let ghost before = *self;
            let dot = self.l1[k].dot(&self.mix_in64, NINPUT);
            let q = dot >> 16;
            let mut d = q as i32;
            if d > 2047 {
                d = 2047;
            }
            if d < -2047 {
                d = -2047;
            }
            let mut p = squash_d(&self.tables.squash, d);
            if p < 1 {
                p = 1;
            }
            if p > 4094 {
                p = 4094;
            }
            self.l1[k].pr = p;
            self.l2_in[k] = d;
            proof {
                assert forall|q: int| 0 <= q < NL1 implies -2047 <= #[trigger] self.l2_in[q]
                    <= 2047 by {
                    if q != k {
                        assert(before.l2_in[q] == self.l2_in[q]);
                        assert(-2047 <= before.l2_in[q] <= 2047);
                    }
                }
                assert forall|q: int| 0 <= q < NL1 implies (#[trigger] self.l1@[q]).wf(
                    NINPUT as int,
                ) && self.l1@[q].nctx == crate::model::L1_NCTX[q] && self.l1@[q].lr
                    == crate::model::L1LR by {
                    assert(old(self).l1@[q].wf(NINPUT as int));
                }
                assert(self.mixers_wf());
                assert(self.tables_wf());
                assert(self.models_wf());
                assert(self.history_wf());
                assert(self.tables.wf());
            }
            k += 1;
        }
    }

    /// Copies the specialists' logits to their 64-bit form.
    pub(crate) fn widen_logits(&mut self)
        requires
            old(self).wf(),
        ensures
            final(self).wf(),
            forall|i: int| 0 <= i < NL1 ==> #[trigger] final(self).l2_in64[i] == final(self).l2_in[i],
            *final(self) == (Cm { l2_in64: final(self).l2_in64, ..*old(self) }),
    {
        let mut i: usize = 0;
        while i < NL1
            invariant
                i <= NL1,
                old(self).wf(),
                self.wf(),
                *self == (Cm { l2_in64: self.l2_in64, ..*old(self) }),
                forall|q: int| 0 <= q < i ==> #[trigger] self.l2_in64[q] == self.l2_in[q],
            decreases NL1 - i,
        {
            self.l2_in64[i] = self.l2_in[i] as i64;
            i += 1;
        }
    }

    /// Runs the layer-2 combiners; returns the sum of their logits.
    pub(crate) fn mix_l2(&mut self) -> (dsum: i32)
        requires
            old(self).wf(),
            forall|i: int| 0 <= i < NL1 ==> #[trigger] old(self).l2_in64[i] == old(self).l2_in[i],
        ensures
            final(self).wf(),
            dsum == old(self).l2_logit_sum(NL2 as int),
            -2047 * 16 <= dsum <= 2047 * 16,
            forall|k: int|
                0 <= k < NL2 ==> #[trigger] final(self).l2@[k] == (Mixer {
                    pr: old(self).prob12(spec_logit(old(self).l2_dot(k))) as i32,
                    ..old(self).l2@[k]
                }),
            *final(self) == (Cm { l2: final(self).l2, ..*old(self) }),
    {
        let mut dsum: i32 = 0;
        let mut k: usize = 0;
        while k < NL2
            invariant
                k <= NL2,
                self.wf(),
                old(self).wf(),
                forall|i: int| 0 <= i < NL1 ==> #[trigger] self.l2_in64[i] == self.l2_in[i],
                *self == (Cm { l2: self.l2, ..*old(self) }),
                dsum == old(self).l2_logit_sum(k as int),
                -2047 * (k as int) <= dsum <= 2047 * (k as int),
                forall|q: int|
                    0 <= q < k ==> #[trigger] self.l2@[q] == (Mixer {
                        pr: old(self).prob12(spec_logit(old(self).l2_dot(q))) as i32,
                        ..old(self).l2@[q]
                    }),
                forall|q: int| k <= q < NL2 ==> #[trigger] self.l2@[q] == old(self).l2@[q],
            decreases NL2 - k,
        {
            proof {
                lemma_shr16_floor();
                assert(self.l2@[k as int].wf(NL1 as int));
                assert forall|i: int| 0 <= i < NL1 implies -2048 <= #[trigger] self.l2_in64@[i]
                    <= 2048 by {
                    assert(self.l2_in64[i] == self.l2_in[i]);
                }
            }
            let dot = self.l2[k].dot(&self.l2_in64, NL1);
            let q = dot >> 16;
            let mut v = q as i32;
            if v > 2047 {
                v = 2047;
            }
            if v < -2047 {
                v = -2047;
            }
            let mut p = squash_d(&self.tables.squash, v);
            if p < 1 {
                p = 1;
            }
            if p > 4094 {
                p = 4094;
            }
            self.l2[k].pr = p;
            dsum = dsum + v;
            proof {
                assert forall|q: int| 0 <= q < NL2 implies (#[trigger] self.l2@[q]).wf(
                    NL1 as int,
                ) && self.l2@[q].nctx == crate::model::L2_NCTX[q] && self.l2@[q].lr
                    == crate::model::L2LR by {
                    assert(old(self).l2@[q].wf(NL1 as int));
                }
                assert(self.mixers_wf());
            }
            k += 1;
        }
        dsum
    }

    /// Squashes the combined logit to 16 bits and calibrates it through the
    /// four APM stages.
    pub(crate) fn refine(&mut self, dsum: i32) -> (p: i32)
        requires
            old(self).wf(),
            -2047 * 16 <= dsum <= 2047 * 16,
        ensures
            final(self).wf(),
            p == old(self).prob_final(
                clamp16(
                    old(self).tables.squash16@[logit_index(trunc_div(dsum as int, 16))] as int,
                ),
            ),
            1 <= p <= 65534,
            ({
                let p0 = clamp16(
                    old(self).tables.squash16@[logit_index(trunc_div(dsum as int, 16))] as int,
                );
                let s16 = old(self).tables.stretch16@;
                &&& final(self).apm1.idx == apm_pos(s16, old(self).apm1_ctx(), p0)
                &&& final(self).apm2.idx == apm_pos(s16, old(self).apm2_ctx(), old(self).prob_a1(p0))
                &&& final(self).apm3.idx == apm_pos(s16, old(self).apm3_ctx(), old(self).prob_a2(p0))
                &&& final(self).apm4.idx == apm_pos(s16, old(self).apm4_ctx(), old(self).prob_a3(p0))
            }),
            final(self).apm1.t@ == old(self).apm1.t@,
            final(self).apm2.t@ == old(self).apm2.t@,
            final(self).apm3.t@ == old(self).apm3.t@,
            final(self).apm4.t@ == old(self).apm4.t@,
            *final(self) == (Cm {
                apm1: final(self).apm1,
                apm2: final(self).apm2,
                apm3: final(self).apm3,
                apm4: final(self).apm4,
                ..*old(self)
            }),
    {
        let ml0 = self.mm[0].len;
        let ml2 = self.mm[2].len;
        let ml3 = self.mm[3].len;
        proof {
            vstd::arithmetic::power2::lemma2_to64();
            assert(self.c0 < 256);
            assert(self.mm@[0].wf(0));
        }
        let d = dsum / 16;
        assert(d as int == trunc_div(dsum as int, 16));
        let mut p0 = squash16_d(&self.tables.squash16, d);
        if p0 < 1 {
            p0 = 1;
        }
        if p0 > 65534 {
            p0 = 65534;
        }
        let a1ctx = (self.c1 + 256 * (if ml0 > 0 {
            1
        } else {
            0
        })) as usize;
        let p1 = calibrate(&mut self.apm1, &self.tables.stretch16, a1ctx, p0, 1);
        let a2ctx = (self.c4 % 16384) as usize;
        let p2 = calibrate(&mut self.apm2, &self.tables.stretch16, a2ctx, p1, 1);
        let a3ctx = (self.c0 + 256 * (if ml0 > 0 {
            1
        } else {
            0
        }) + 512 * (if ml2 > 0 {
            1
        } else {
            0
        })) as usize;
        let p3 = calibrate(&mut self.apm3, &self.tables.stretch16, a3ctx, p2, 1);
        let a4ctx = ((ml0 % 256) + 256 * (if ml2 > 0 {
            1
        } else {
            0
        }) + 512 * (if ml3 > 0 {
            1
        } else {
            0
        })) as usize;
        calibrate(&mut self.apm4, &self.tables.stretch16, a4ctx, p3, 3)
    }
}

/// One calibration stage: the APM's value for `p` in context `ctx`, averaged
/// with `p` weighted `w : 1`, kept in `1..=65534`.
fn calibrate(apm: &mut Apm, stretch16: &Vec<i32>, ctx: usize, p: i32, w: i32) -> (r: i32)
    requires
        old(apm).wf(),
        0 <= ctx < old(apm).contexts(),
        1 <= p <= 65534,
        w == 1 || w == 3,
        stretch16@.len() == 65536,
        forall|i: int| 0 <= i < 65536 ==> -2048 <= #[trigger] stretch16@[i] <= 2047,
    ensures
        final(apm).wf(),
        final(apm).t@ == old(apm).t@,
        final(apm).idx == apm_pos(stretch16@, ctx as int, p as int),
        r == clamp16((w * p + apm_value(old(apm).t@, stretch16@, ctx as int, p as int)) / (w + 1)),
        1 <= r <= 65534,
{
    let a = apm.apply16(stretch16, ctx, p);
    let mut q = (w * p + a) / (w + 1);
    if q < 1 {
        q = 1;
    }
    if q > 65534 {
        q = 65534;
    }
    q
}

} // verus!
