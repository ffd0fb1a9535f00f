use vstd::prelude::*;
use crate::adaptive::{cell_update, counter_step, spec_cell_update, spec_counter_step};
use crate::apm::{apm_step, Apm};
use crate::bit_history::{next_state, spec_next_state};
use crate::bits::lemma_shr_floor_i32;
use crate::mixer::{err_lr, trained_weight, Mixer};
use crate::model::{
    Cm, MatchModel, CNT_LIMIT, MM_SM_CAP, MM_SM_K, NCTX, NINPUT, NL1, NL2, NRUN,
    RUN_SM_CAP, RUN_SM_K,
};

verus! {

/// Distance of a prediction from the coded bit, on the 16-bit scale.
pub open spec fn surprise(bit: i32, p: i32) -> int {
    let t: int = if bit != 0 {
        65535
    } else {
        0
    };
    if t - p < 0 {
        p - t
    } else {
        t - p
    }
}

/// An exponential moving average moved `1/div` of the way toward `s`,
/// rounding the step down.
pub open spec fn ema(h: int, s: int, div: int) -> int {
    h + (s - h) / div
}

/// An APM's points after training the pair used last.
pub open spec fn apm_trained(a: Apm, bit: i32) -> Seq<u16> {
    a.t@.update(a.idx as int, apm_step(a.t@[a.idx as int] as int, bit as int) as u16).update(
        a.idx + 1,
        apm_step(a.t@[a.idx + 1] as int, bit as int) as u16,
    )
}

/// A match model's state map after training the cell it used (if any).
pub open spec fn mm_sm_trained(m: MatchModel, bit: i32) -> Seq<u32> {
    if m.used {
        m.sm@.update(
            m.idx as int,
            spec_cell_update(m.sm@[m.idx as int], bit, MM_SM_K, MM_SM_CAP) as u32,
        )
    } else {
        m.sm@
    }
}

/// A mixer's weights after one training step over the first `n` inputs `x`.
pub open spec fn mixer_trained(m: Mixer, x: Seq<i32>, n: int, bit: i32) -> Seq<i32> {
    Seq::new(
        m.w@.len(),
        |j: int|
            if m.row(n) <= j < m.row(n) + n {
                trained_weight(m.w@[j], x[j - m.row(n)], err_lr(bit as int, m.pr as int, m.lr as int))
            } else {
                m.w@[j]
            },
    )
}

impl Cm {
    /// Target of the direct counters for `bit`.
    pub open spec fn target(bit: i32) -> int {
        if bit != 0 {
            65535
        } else {
            0
        }
    }

    /// Updates the recent-difficulty averages with the surprise of `p`.
    fn learn_difficulty(&mut self, bit: i32, p: i32)
        requires
            old(self).wf(),
            bit == 0 || bit == 1,
            0 <= p <= 65535,
        ensures
            final(self).wf(),
            final(self).hard == ema(old(self).hard as int, surprise(bit, p), 32),
            final(self).hard_fast == ema(old(self).hard_fast as int, surprise(bit, p), 8),
            final(self).hard_slow == ema(old(self).hard_slow as int, surprise(bit, p), 128),
            *final(self) == (Cm {
                hard: final(self).hard,
                hard_fast: final(self).hard_fast,
                hard_slow: final(self).hard_slow,
                ..*old(self)
            }),
    {
        proof {
            lemma_shr_floor_i32();
        }
        let t: i32 = if bit != 0 {
            65535
        } else {
            0
        };
        let s = if t - p < 0 {
            p - t
        } else {
            t - p
        };
        self.hard = self.hard + ((s - self.hard) >> 5);
        self.hard_fast = self.hard_fast + ((s - self.hard_fast) >> 3);
        self.hard_slow = self.hard_slow + ((s - self.hard_slow) >> 7);
    }

    /// Trains the calibration points used for the last prediction.
    fn learn_apms(&mut self, bit: i32)
        requires
            old(self).wf(),
            bit == 0 || bit == 1,
        ensures
            final(self).wf(),
            final(self).apm1.t@ == apm_trained(old(self).apm1, bit),
            final(self).apm2.t@ == apm_trained(old(self).apm2, bit),
            final(self).apm3.t@ == apm_trained(old(self).apm3, bit),
            final(self).apm4.t@ == apm_trained(old(self).apm4, bit),
            final(self).apm1.idx == old(self).apm1.idx,
            final(self).apm2.idx == old(self).apm2.idx,
            final(self).apm3.idx == old(self).apm3.idx,
            final(self).apm4.idx == old(self).apm4.idx,
            *final(self) == (Cm {
                apm1: final(self).apm1,
                apm2: final(self).apm2,
                apm3: final(self).apm3,
                apm4: final(self).apm4,
                ..*old(self)
            }),
    {
        self.apm1.update(bit);
        self.apm2.update(bit);
        self.apm3.update(bit);
        self.apm4.update(bit);
    }

    /// Trains the state-map cells of the match models that predicted.
    fn learn_match_maps(&mut self, bit: i32)
        requires
            old(self).wf(),
            bit == 0 || bit == 1,
        ensures
            final(self).wf(),
            final(self).mm@.len() == 6,
            forall|j: int|
                0 <= j < 6 ==> #[trigger] final(self).mm@[j].sm@ == mm_sm_trained(
                    old(self).mm@[j],
                    bit,
                ),
            forall|j: int|
                0 <= j < 6 ==> #[trigger] final(self).mm@[j] == (MatchModel {
                    sm: final(self).mm@[j].sm,
                    ..old(self).mm@[j]
                }),
            *final(self) == (Cm { mm: final(self).mm, ..*old(self) }),
    {
        let mut j: usize = 0;
        while j < 6
            invariant
                j <= 6,
                self.wf(),
                old(self).wf(),
                bit == 0 || bit == 1,
                self.mm@.len() == 6,
                *self == (Cm { mm: self.mm, ..*old(self) }),
                forall|k: int|
                    0 <= k < j ==> #[trigger] self.mm@[k].sm@ == mm_sm_trained(old(self).mm@[k], bit),
                forall|k: int| j <= k < 6 ==> #[trigger] self.mm@[k] == old(self).mm@[k],
                forall|k: int|
                    0 <= k < 6 ==> #[trigger] self.mm@[k] == (MatchModel {
                        sm: self.mm@[k].sm,
                        ..old(self).mm@[k]
                    }),
            decreases 6 - j,
        {
            proof {
                assert(self.mm@[j as int].wf(j as int));
            }
            let ghost before = self.mm@[j as int];
            if self.mm[j].used {
                let ix = self.mm[j].idx;
                let e = self.mm[j].sm[ix];
                let v = cell_update(e, bit, MM_SM_K, MM_SM_CAP);
                self.mm[j].sm.set(ix, v);
            }
            proof {
                assert(self.mm@[j as int].sm@.len() == before.sm@.len());
                assert(self.mm@[j as int] == (MatchModel { sm: self.mm@[j as int].sm, ..before }));
                assert forall|k: int| 0 <= k < 6 implies (#[trigger] self.mm@[k]).wf(k) by {
                    assert(old(self).mm@[k].wf(k));
                }
            }
            j += 1;
        }
    }

    /// Trains the state-map cells of the run maps that predicted.
    fn learn_run_maps(&mut self, bit: i32)
        requires
            old(self).wf(),
            bit == 0 || bit == 1,
        ensures
            final(self).wf(),
            final(self).run_sm@.len() == old(self).run_sm@.len(),
            forall|j: int, c: int|
                0 <= j < NRUN && 0 <= c < 128 ==> #[trigger] final(self).run_sm@[j * 128 + c] == if old(
                    self,
                ).run_used[j] && c == old(self).run_idx[j] {
                    spec_cell_update(old(self).run_sm@[j * 128 + c], bit, RUN_SM_K, RUN_SM_CAP) as u32
                } else {
                    old(self).run_sm@[j * 128 + c]
                },
            *final(self) == (Cm { run_sm: final(self).run_sm, ..*old(self) }),
    {
        let mut j: usize = 0;
        while j < NRUN
            invariant
                j <= NRUN,
                self.wf(),
                old(self).wf(),
                bit == 0 || bit == 1,
                *self == (Cm { run_sm: self.run_sm, ..*old(self) }),
                self.run_sm@.len() == NRUN * 128,
                forall|k: int, c: int|
                    0 <= k < NRUN && 0 <= c < 128 ==> #[trigger] self.run_sm@[k * 128 + c] == if k < j
                        && old(self).run_used[k] && c == old(self).run_idx[k] {
                        spec_cell_update(old(self).run_sm@[k * 128 + c], bit, RUN_SM_K, RUN_SM_CAP) as u32
                    } else {
                        old(self).run_sm@[k * 128 + c]
                    },
            decreases NRUN - j,
        {
            proof {
                assert(self.run_idx[j as int] < 128);
            }
            if self.run_used[j] {
                let at = j * 128 + self.run_idx[j];
                let e = self.run_sm[at];
                let v = cell_update(e, bit, RUN_SM_K, RUN_SM_CAP);
                self.run_sm.set(at, v);
                proof {
                    assert forall|k: int, c: int| 0 <= k < NRUN && 0 <= c < 128 implies #[trigger] self.run_sm@[
                        k * 128 + c] == if k <= j && old(self).run_used[k] && c == old(self).run_idx[k] {
                        spec_cell_update(old(self).run_sm@[k * 128 + c], bit, RUN_SM_K, RUN_SM_CAP) as u32
                    } else {
                        old(self).run_sm@[k * 128 + c]
                    } by {
                        lemma_cell_index(k, c, j as int, self.run_idx[j as int] as int, 128);
                    }
                }
            }
            j += 1;
        }
    }
}


/// Cell `c` of map `k` and cell `d` of map `j` (each map `w` cells) are the
/// same position exactly when the maps and the cells are.
pub proof fn lemma_cell_index(k: int, c: int, j: int, d: int, w: int)
    by (nonlinear_arith)
    requires
        0 <= c < w,
        0 <= d < w,
    ensures
        (k * w + c == j * w + d) == (k == j && c == d),
{
}


impl Cm {
    /// Trains every specialist and combiner on the inputs it mixed.
    fn learn_mixers(&mut self, bit: i32)
        requires
            old(self).wf(),
            bit == 0 || bit == 1,
        ensures
            final(self).wf(),
            final(self).l1@.len() == NL1,
            final(self).l2@.len() == NL2,
            forall|k: int|
                0 <= k < NL1 ==> #[trigger] final(self).l1@[k].w@ == mixer_trained(
                    old(self).l1@[k],
                    old(self).mix_in@,
                    NINPUT as int,
                    bit,
                ),
            forall|k: int|
                0 <= k < NL1 ==> #[trigger] final(self).l1@[k] == (Mixer {
                    w: final(self).l1@[k].w,
                    ..old(self).l1@[k]
                }),
            forall|k: int|
                0 <= k < NL2 ==> #[trigger] final(self).l2@[k].w@ == mixer_trained(
                    old(self).l2@[k],
                    old(self).l2_in@,
                    NL1 as int,
                    bit,
                ),
            forall|k: int|
                0 <= k < NL2 ==> #[trigger] final(self).l2@[k] == (Mixer {
                    w: final(self).l2@[k].w,
                    ..old(self).l2@[k]
                }),
            *final(self) == (Cm { l1: final(self).l1, l2: final(self).l2, ..*old(self) }),
    {
        let mut k: usize = 0;
        while k < NL1
            invariant
                k <= NL1,
                self.wf(),
                old(self).wf(),
                bit == 0 || bit == 1,
                *self == (Cm { l1: self.l1, ..*old(self) }),
                forall|q: int|
                    0 <= q < k ==> #[trigger] self.l1@[q].w@ == mixer_trained(
                        old(self).l1@[q],
                        old(self).mix_in@,
                        NINPUT as int,
                        bit,
                    ),
                forall|q: int|
                    0 <= q < NL1 ==> #[trigger] self.l1@[q] == (Mixer {
                        w: self.l1@[q].w,
                        ..old(self).l1@[q]
                    }),
                forall|q: int| k <= q < NL1 ==> #[trigger] self.l1@[q].w@ == old(self).l1@[q].w@,
            decreases NL1 - k,
        {
            let ghost m0 = self.l1@[k as int];
            proof {
                assert(m0.wf(NINPUT as int));
            }
            self.l1[k].train(&self.mix_in, NINPUT, bit);
            proof {
                let row = m0.row(NINPUT as int);
                assert forall|j: int| 0 <= j < m0.w@.len() implies #[trigger] self.l1@[k as int].w@[j]
                    == mixer_trained(m0, old(self).mix_in@, NINPUT as int, bit)[j] by {
                    if row <= j < row + NINPUT {
                        let i = j - row;
                        assert(self.l1@[k as int].w@[row + i] == trained_weight(
                            m0.w@[row + i],
                            self.mix_in@[i],
                            err_lr(bit as int, m0.pr as int, m0.lr as int),
                        ));
                    }
                }
                assert(self.l1@[k as int].w@ =~= mixer_trained(m0, old(self).mix_in@, NINPUT as int, bit));
                assert(self.l1@[k as int] == (Mixer { w: self.l1@[k as int].w, ..m0 }));
                assert forall|q: int| 0 <= q < NL1 implies (#[trigger] self.l1@[q]).wf(
                    NINPUT as int,
                ) && self.l1@[q].nctx == crate::model::L1_NCTX[q] && self.l1@[q].lr
                    == crate::model::L1LR by {
                    assert(old(self).l1@[q].wf(NINPUT as int));
                }
            }
            k += 1;
        }
        let ghost mid = *self;
        let mut k: usize = 0;
        while k < NL2
            invariant
                k <= NL2,
                self.wf(),
                mid.wf(),
                old(self).wf(),
                bit == 0 || bit == 1,
                *self == (Cm { l2: self.l2, ..mid }),
                mid == (Cm { l1: mid.l1, ..*old(self) }),
                forall|q: int|
                    0 <= q < k ==> #[trigger] self.l2@[q].w@ == mixer_trained(
                        old(self).l2@[q],
                        old(self).l2_in@,
                        NL1 as int,
                        bit,
                    ),
                forall|q: int|
                    0 <= q < NL2 ==> #[trigger] self.l2@[q] == (Mixer {
                        w: self.l2@[q].w,
                        ..old(self).l2@[q]
                    }),
                forall|q: int| k <= q < NL2 ==> #[trigger] self.l2@[q].w@ == old(self).l2@[q].w@,
            decreases NL2 - k,
        {
            let ghost m0 = self.l2@[k as int];
            proof {
                assert(m0.wf(NL1 as int));
            }
            self.l2[k].train(&self.l2_in, NL1, bit);
            proof {
                let row = m0.row(NL1 as int);
                assert forall|j: int| 0 <= j < m0.w@.len() implies #[trigger] self.l2@[k as int].w@[j]
                    == mixer_trained(m0, old(self).l2_in@, NL1 as int, bit)[j] by {
                    if row <= j < row + NL1 {
                        let i = j - row;
                        assert(self.l2@[k as int].w@[row + i] == trained_weight(
                            m0.w@[row + i],
                            self.l2_in@[i],
                            err_lr(bit as int, m0.pr as int, m0.lr as int),
                        ));
                    }
                }
                assert(self.l2@[k as int].w@ =~= mixer_trained(m0, old(self).l2_in@, NL1 as int, bit));
                assert(self.l2@[k as int] == (Mixer { w: self.l2@[k as int].w, ..m0 }));
                assert forall|q: int| 0 <= q < NL2 implies (#[trigger] self.l2@[q]).wf(
                    NL1 as int,
                ) && self.l2@[q].nctx == crate::model::L2_NCTX[q] && self.l2@[q].lr
                    == crate::model::L2LR by {
                    assert(old(self).l2@[q].wf(NL1 as int));
                }
            }
            k += 1;
        }
    }
}


/// Counter after training toward the target of `bit` at rate `rate`.
pub open spec fn counter_trained(cp: i16, bit: i32, rate: int) -> i16 {
    (spec_counter_step(cp as int + 32768, Cm::target(bit), rate) - 32768) as i16
}

impl Cm {
    /// Trains each model's slot and bit-history state map on `bit`.
    fn learn_contexts(&mut self, bit: i32)
        requires
            old(self).wf(),
            bit == 0 || bit == 1,
        ensures
            final(self).wf(),
            forall|i: int|
                0 <= i < NCTX ==> {
                    let t = old(self).tab@[i];
                    let ix = old(self).idx[i] as int;
                    let n = t.cn@[ix];
                    &&& (#[trigger] final(self).tab@[i]).cp@ == t.cp@.update(
                        ix,
                        counter_trained(t.cp@[ix], bit, old(self).rate_tab[n as int] as int),
                    )
                    &&& final(self).tab@[i].cn@ == if n < CNT_LIMIT {
                        t.cn@.update(ix, (n + 1) as u8)
                    } else {
                        t.cn@
                    }
                    &&& final(self).tab@[i].st@ == t.st@.update(
                        ix,
                        spec_next_state((old(self).sm_idx[i] % 256) as u8, bit) as u8,
                    )
                    &&& final(self).tab@[i].ck@ == t.ck@
                },
            final(self).sm@.len() == old(self).sm@.len(),
            forall|i: int, c: int|
                0 <= i < NCTX && 0 <= c < 2048 ==> #[trigger] final(self).sm@[i * 2048 + c] == if c
                    == old(self).sm_idx[i] {
                    spec_cell_update(old(self).sm@[i * 2048 + c], bit, 2, 255) as u32
                } else {
                    old(self).sm@[i * 2048 + c]
                },
            *final(self) == (Cm { tab: final(self).tab, sm: final(self).sm, ..*old(self) }),
    {
        let t: i32 = if bit != 0 {
            65535
        } else {
            0
        };
        let mut i: usize = 0;
        while i < NCTX
            invariant
                i <= NCTX,
                self.wf(),
                old(self).wf(),
                bit == 0 || bit == 1,
                t == Cm::target(bit),
                *self == (Cm { tab: self.tab, sm: self.sm, ..*old(self) }),
                self.sm@.len() == old(self).sm@.len(),
                forall|q: int| i <= q < NCTX ==> #[trigger] self.tab@[q] == old(self).tab@[q],
                forall|q: int|
                    0 <= q < i ==> {
                        let t0 = old(self).tab@[q];
                        let ix = old(self).idx[q] as int;
                        let n = t0.cn@[ix];
                        &&& (#[trigger] self.tab@[q]).cp@ == t0.cp@.update(
                            ix,
                            counter_trained(t0.cp@[ix], bit, old(self).rate_tab[n as int] as int),
                        )
                        &&& self.tab@[q].cn@ == if n < CNT_LIMIT {
                            t0.cn@.update(ix, (n + 1) as u8)
                        } else {
                            t0.cn@
                        }
                        &&& self.tab@[q].st@ == t0.st@.update(
                            ix,
                            spec_next_state((old(self).sm_idx[q] % 256) as u8, bit) as u8,
                        )
                        &&& self.tab@[q].ck@ == t0.ck@
                    },
                forall|q: int, c: int|
                    0 <= q < NCTX && 0 <= c < 2048 ==> #[trigger] self.sm@[q * 2048 + c] == if q < i
                        && c == old(self).sm_idx[q] {
                        spec_cell_update(old(self).sm@[q * 2048 + c], bit, 2, 255) as u32
                    } else {
                        old(self).sm@[q * 2048 + c]
                    },
            decreases NCTX - i,
        {
            let ghost before = *self;
            proof {
                assert(self.tab@[i as int].wf());
                assert(self.idx[i as int] < self.tsize(i as int));
            }
            let ix = self.idx[i];
            let s = self.sm_idx[i];
            let cn = self.tab[i].cn[ix];
            let cp = self.tab[i].cp[ix];
            let rate = self.rate_tab[cn as usize];
            let ncp = counter_step(cp, t, rate);
            self.tab[i].cp.set(ix, ncp);
            if (cn as i32) < CNT_LIMIT {
                self.tab[i].cn.set(ix, cn + 1);
            }
            let at = i * 2048 + s;
            let e = self.sm[at];
            let v = cell_update(e, bit, 2, 255);
            self.sm.set(at, v);
            let nst = next_state((s % 256) as u8, bit);
            self.tab[i].st.set(ix, nst);
            proof {
                assert forall|q: int, c: int| 0 <= q < NCTX && 0 <= c < 2048 implies #[trigger] self.sm@[
                    q * 2048 + c] == if q <= i && c == old(self).sm_idx[q] {
                    spec_cell_update(old(self).sm@[q * 2048 + c], bit, 2, 255) as u32
                } else {
                    old(self).sm@[q * 2048 + c]
                } by {
                    lemma_cell_index(q, c, i as int, s as int, 2048);
                }
                assert forall|q: int| 0 <= q < NCTX implies {
                    &&& (#[trigger] self.tab@[q]).wf()
                    &&& self.tab@[q].len() == self.tsize(q)
                    &&& self.idx[q] < self.tsize(q)
                    &&& self.sm_idx[q] < 2048
                    &&& (self.tmask[q] == 0x1ff || self.tmask[q] == 0xf_ffff || self.tmask[q]
                        == 0x3f_ffff)
                    &&& self.assoc[q] ==> (self.bmask[q] as int + 1) * 8 == self.tsize(q)
                        && self.cshift[q] < 32
                } by {
                    assert(before.tab@[q].wf());
                    assert(before.tab@[q].len() == before.tsize(q));
                    assert(before.idx[q] < before.tsize(q));
                }
                assert(self.tables_wf());
            }
            i += 1;
        }
    }
}


/// What coding `bit` (predicted with probability `p`) teaches the models,
/// from state `o` to state `n`: the difficulty averages, the calibration
/// points, match and run state maps, both mixer layers, and each model's
/// slot and bit-history state map.
#[verifier::opaque]
pub open spec fn learned(o: Cm, n: Cm, bit: i32, p: i32) -> bool {
    &&& n.hard == ema(o.hard as int, surprise(bit, p), 32)
    &&& n.hard_fast == ema(o.hard_fast as int, surprise(bit, p), 8)
    &&& n.hard_slow == ema(o.hard_slow as int, surprise(bit, p), 128)
    &&& n.apm1.t@ == apm_trained(o.apm1, bit) && n.apm1.idx == o.apm1.idx
    &&& n.apm2.t@ == apm_trained(o.apm2, bit) && n.apm2.idx == o.apm2.idx
    &&& n.apm3.t@ == apm_trained(o.apm3, bit) && n.apm3.idx == o.apm3.idx
    &&& n.apm4.t@ == apm_trained(o.apm4, bit) && n.apm4.idx == o.apm4.idx
    &&& n.mm@.len() == 6
    &&& forall|j: int| 0 <= j < 6 ==> #[trigger] n.mm@[j].sm@ == mm_sm_trained(o.mm@[j], bit)
    &&& n.run_sm@.len() == o.run_sm@.len()
    &&& forall|j: int, c: int|
        0 <= j < NRUN && 0 <= c < 128 ==> #[trigger] n.run_sm@[j * 128 + c] == if o.run_used[j]
            && c == o.run_idx[j] {
            spec_cell_update(o.run_sm@[j * 128 + c], bit, RUN_SM_K, RUN_SM_CAP) as u32
        } else {
            o.run_sm@[j * 128 + c]
        }
    &&& n.l1@.len() == NL1
    &&& n.l2@.len() == NL2
    &&& forall|k: int|
        0 <= k < NL1 ==> #[trigger] n.l1@[k].w@ == mixer_trained(o.l1@[k], o.mix_in@, NINPUT as int, bit)
    &&& forall|k: int| 0 <= k < NL1 ==> #[trigger] n.l1@[k] == (Mixer { w: n.l1@[k].w, ..o.l1@[k] })
    &&& forall|k: int|
        0 <= k < NL2 ==> #[trigger] n.l2@[k].w@ == mixer_trained(o.l2@[k], o.l2_in@, NL1 as int, bit)
    &&& forall|k: int| 0 <= k < NL2 ==> #[trigger] n.l2@[k] == (Mixer { w: n.l2@[k].w, ..o.l2@[k] })
    &&& n.tab@.len() == NCTX
    &&& forall|i: int|
        0 <= i < NCTX ==> {
            let t = o.tab@[i];
            let ix = o.idx[i] as int;
            let cnt = t.cn@[ix];
            &&& (#[trigger] n.tab@[i]).cp@ == t.cp@.update(
                ix,
                counter_trained(t.cp@[ix], bit, o.rate_tab[cnt as int] as int),
            )
            &&& n.tab@[i].cn@ == if cnt < CNT_LIMIT {
                t.cn@.update(ix, (cnt + 1) as u8)
            } else {
                t.cn@
            }
            &&& n.tab@[i].st@ == t.st@.update(
                ix,
                spec_next_state((o.sm_idx[i] % 256) as u8, bit) as u8,
            )
            &&& n.tab@[i].ck@ == t.ck@
        }
    &&& n.sm@.len() == o.sm@.len()
    &&& forall|i: int, c: int|
        0 <= i < NCTX && 0 <= c < 2048 ==> #[trigger] n.sm@[i * 2048 + c] == if c == o.sm_idx[i] {
            spec_cell_update(o.sm@[i * 2048 + c], bit, 2, 255) as u32
        } else {
            o.sm@[i * 2048 + c]
        }
}

impl Cm {
    /// Trains every model on `bit`.
    pub(crate) fn learn_bit(&mut self, bit: i32, p: i32)
        requires
            old(self).wf(),
            bit == 0 || bit == 1,
            0 <= p <= 65535,
        ensures
            final(self).wf(),
            learned(*old(self), *final(self), bit, p),
            final(self).mm@.len() == 6,
            forall|j: int|
                0 <= j < 6 ==> #[trigger] final(self).mm@[j] == (MatchModel {
                    sm: final(self).mm@[j].sm,
                    ..old(self).mm@[j]
                }),
            *final(self) == (Cm {
                hard: final(self).hard,
                hard_fast: final(self).hard_fast,
                hard_slow: final(self).hard_slow,
                apm1: final(self).apm1,
                apm2: final(self).apm2,
                apm3: final(self).apm3,
                apm4: final(self).apm4,
                mm: final(self).mm,
                run_sm: final(self).run_sm,
                l1: final(self).l1,
                l2: final(self).l2,
                tab: final(self).tab,
                sm: final(self).sm,
                ..*old(self)
            }),
    {
        reveal(learned);
        self.learn_difficulty(bit, p);
        self.learn_apms(bit);
        let ghost s2 = *self;
        self.learn_match_maps(bit);
        let ghost s3 = *self;
        self.learn_run_maps(bit);
        let ghost s4 = *self;
        self.learn_mixers(bit);
        let ghost s5 = *self;
        self.learn_contexts(bit);
        proof {
            assert forall|j: int| 0 <= j < 6 implies #[trigger] self.mm@[j].sm@ == mm_sm_trained(
                old(self).mm@[j],
                bit,
            ) by {
                assert(s3.mm@[j].sm@ == mm_sm_trained(s2.mm@[j], bit));
                assert(s2.mm@[j] == old(self).mm@[j]);
            }
        }
    }
}


/// `learned` reads, of the later state, only the learned fields.
pub proof fn lemma_learned_frame(o: Cm, n1: Cm, n2: Cm, bit: i32, p: i32)
    requires
        learned(o, n1, bit, p),
        n2.hard == n1.hard,
        n2.hard_fast == n1.hard_fast,
        n2.hard_slow == n1.hard_slow,
        n2.apm1 == n1.apm1,
        n2.apm2 == n1.apm2,
        n2.apm3 == n1.apm3,
        n2.apm4 == n1.apm4,
        n2.mm@.len() == 6,
        forall|j: int| 0 <= j < 6 ==> #[trigger] n2.mm@[j].sm == n1.mm@[j].sm,
        n2.run_sm == n1.run_sm,
        n2.l1 == n1.l1,
        n2.l2 == n1.l2,
        n2.tab == n1.tab,
        n2.sm == n1.sm,
    ensures
        learned(o, n2, bit, p),
{
    reveal(learned);
    assert forall|j: int| 0 <= j < 6 implies #[trigger] n2.mm@[j].sm@ == mm_sm_trained(o.mm@[j], bit) by {
        assert(n1.mm@[j].sm@ == mm_sm_trained(o.mm@[j], bit));
    }
}

} // verus!
