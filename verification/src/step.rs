use vstd::prelude::*;
use crate::apm::apm_pos;
use crate::inputs::{mm_after, run_active, run_cell};
use crate::mixer::spec_logit;
use crate::model::{Cm, DMC_IN, GLN_BITS, GLN_NSEL, L1_NCTX, L2_NCTX, MM_BASE, NCTX, NINPUT, NL1, NL2, NRUN, RUN_BASE, SM_BASE};
use crate::predict::{is_reset, sm_cell};
use crate::learn::{learned, lemma_learned_frame};
use crate::byte_end::{history_advanced, lemma_history_frame, lemma_models_frame, models_advanced};

verus! {

impl Cm {
    /// Feeds every mixer input for the current bit.
    fn gather(&mut self, side: [i32; 6])
        requires
            old(self).wf(),
            forall|k: int| 0 <= k < 6 ==> -2048 <= #[trigger] side[k] <= 2047,
        ensures
            final(self).wf(),
            forall|i: int|
                0 <= i < NCTX ==> #[trigger] final(self).idx[i] == old(self).chosen_slot(i),
            forall|i: int|
                0 <= i < NCTX && old(self).slot_claimed(i) ==> is_reset(
                    #[trigger] old(self).tab@[i],
                    final(self).tab@[i],
                    final(self).idx[i] as int,
                    old(self).bucket_chk(i),
                ),
            forall|i: int|
                0 <= i < NCTX && !old(self).slot_claimed(i) ==> #[trigger] final(self).tab@[i]
                    == old(self).tab@[i],
            forall|i: int|
                0 <= i < NCTX ==> #[trigger] final(self).sm_idx[i] == sm_cell(
                    final(self).tab@[i].st@[final(self).idx[i] as int],
                    old(self).bitcount,
                ),
            forall|i: int|
                0 <= i < NCTX ==> #[trigger] final(self).mix_in[i] == final(self).counter_input(i),
            forall|i: int|
                0 <= i < NCTX ==> #[trigger] final(self).mix_in[SM_BASE + i]
                    == final(self).state_input(i),
            forall|j: int|
                0 <= j < 6 ==> #[trigger] final(self).mm@[j] == mm_after(
                    old(self).mm@[j],
                    j,
                    old(self).c0,
                    old(self).bitcount,
                ),
            forall|j: int|
                0 <= j < 6 ==> #[trigger] final(self).mix_in[MM_BASE + j] == final(self).mm_input(j),
            forall|k: int| 0 <= k < 6 ==> #[trigger] final(self).mix_in[DMC_IN + k] == side[k],
            forall|j: int|
                0 <= j < NRUN ==> #[trigger] final(self).run_used[j] == run_active(
                    old(self).run_pbyte0(j),
                    old(self).c0,
                    old(self).bitcount,
                ),
            forall|j: int|
                0 <= j < NRUN ==> #[trigger] final(self).run_pbyte[j] == if old(self).run_pbyte0(j)
                    >= 0 && !run_active(old(self).run_pbyte0(j), old(self).c0, old(self).bitcount) {
                    -1i32
                } else {
                    old(self).run_pbyte0(j)
                },
            forall|j: int| 0 <= j < NRUN ==> #[trigger] final(self).run_cnt[j] == old(self).run_cnt0(j),
            forall|j: int|
                0 <= j < NRUN ==> #[trigger] final(self).run_idx[j] == if run_active(
                    old(self).run_pbyte0(j),
                    old(self).c0,
                    old(self).bitcount,
                ) {
                    run_cell(old(self).run_cnt0(j), old(self).run_pbyte0(j), old(self).bitcount) as usize
                } else {
                    old(self).run_idx[j]
                },
            forall|j: int|
                0 <= j < NRUN ==> #[trigger] final(self).mix_in[RUN_BASE + j] == final(self).run_input(j),
            forall|i: int|
                0 <= i < NINPUT ==> #[trigger] final(self).mix_in64[i] == final(self).mix_in[i],
            *final(self) == (Cm {
                tab: final(self).tab,
                idx: final(self).idx,
                sm_idx: final(self).sm_idx,
                mix_in: final(self).mix_in,
                mm: final(self).mm,
                run_pbyte: final(self).run_pbyte,
                run_cnt: final(self).run_cnt,
                run_used: final(self).run_used,
                run_idx: final(self).run_idx,
                mix_in64: final(self).mix_in64,
                ..*old(self)
            }),
    {
        self.load_slots();
        let ghost s1 = *self;
        self.match_inputs();
        let ghost s2 = *self;
        self.side_inputs(side);
        let ghost s3 = *self;
        if self.bitcount == 0 {
            self.run_load();
        }
        let ghost s4 = *self;
        assert forall|j: int| 0 <= j < NRUN implies #[trigger] s4.run_pbyte[j] == old(self).run_pbyte0(j)
            && s4.run_cnt[j] == old(self).run_cnt0(j) by {
            assert(s3.run_slot(j) == old(self).run_slot(j));
            assert(s3.run_found(j) == old(self).run_found(j));
        }
        self.run_inputs();
        let ghost s5 = *self;
        self.widen_inputs();
        assert forall|i: int| 0 <= i < NCTX implies #[trigger] self.mix_in[i] == self.counter_input(i)
            && self.mix_in[SM_BASE + i] == self.state_input(i) by {
            assert(s1.mix_in[i] == s1.counter_input(i));
            assert(s1.mix_in[SM_BASE + i] == s1.state_input(i));
            assert(s2.mix_in[i] == s1.mix_in[i]);
            assert(s2.mix_in[SM_BASE + i] == s1.mix_in[SM_BASE + i]);
            assert(s3.mix_in[i] == s2.mix_in[i]);
            assert(s3.mix_in[SM_BASE + i] == s2.mix_in[SM_BASE + i]);
            assert(s5.mix_in[i] == s4.mix_in[i]);
            assert(s5.mix_in[SM_BASE + i] == s4.mix_in[SM_BASE + i]);
        }
        assert forall|j: int| 0 <= j < 6 implies #[trigger] self.mix_in[MM_BASE + j] == self.mm_input(j) by {
            assert(s2.mix_in[MM_BASE + j] == s2.mm_input(j));
            assert(s3.mix_in[MM_BASE + j] == s2.mix_in[MM_BASE + j]);
            assert(s5.mix_in[MM_BASE + j] == s4.mix_in[MM_BASE + j]);
        }
        assert forall|k: int| 0 <= k < 6 implies #[trigger] self.mix_in[DMC_IN + k] == side[k] by {
            assert(s5.mix_in[DMC_IN + k] == s4.mix_in[DMC_IN + k]);
        }
    }
}


/// Two states that agree on everything but the mixer layers and the APM
/// positions select the same rows.
proof fn lemma_selectors_frame(a: Cm, b: Cm)
    requires
        a == (Cm {
            l1: a.l1,
            l2_in: a.l2_in,
            l2_in64: a.l2_in64,
            l2: a.l2,
            apm1: a.apm1,
            apm2: a.apm2,
            apm3: a.apm3,
            apm4: a.apm4,
            ..b
        }),
    ensures
        forall|k: int| #[trigger] a.l1_sel(k) == b.l1_sel(k),
        forall|k: int| #[trigger] a.l2_sel(k) == b.l2_sel(k),
{
    assert forall|k: int| #[trigger] a.l1_sel(k) == b.l1_sel(k) by {
        assert(a.gln_gate(GLN_BITS as int) == b.gln_gate(GLN_BITS as int)) by {
            lemma_gate_frame(a, b, GLN_BITS as int);
        }
        assert(a.sign_bits(0, 7) == b.sign_bits(0, 7)) by {
            lemma_sign_bits_frame(a, b, 0, 7);
        }
        assert(a.sign_bits(SM_BASE as int, 7) == b.sign_bits(SM_BASE as int, 7)) by {
            lemma_sign_bits_frame(a, b, SM_BASE as int, 7);
        }
        assert(a.sign_bits(MM_BASE as int, 6) == b.sign_bits(MM_BASE as int, 6)) by {
            lemma_sign_bits_frame(a, b, MM_BASE as int, 6);
        }
    }
}

proof fn lemma_sign_bits_frame(a: Cm, b: Cm, base: int, n: int)
    requires
        a.mix_in == b.mix_in,
    ensures
        a.sign_bits(base, n) == b.sign_bits(base, n),
    decreases n,
{
    if n > 0 {
        lemma_sign_bits_frame(a, b, base, n - 1);
    }
}

proof fn lemma_proj_frame(a: Cm, b: Cm, k: int, n: int)
    requires
        a.mix_in == b.mix_in,
        a.gln_hp == b.gln_hp,
    ensures
        a.gln_proj(k, n) == b.gln_proj(k, n),
    decreases n,
{
    if n > 0 {
        lemma_proj_frame(a, b, k, n - 1);
    }
}

proof fn lemma_gate_frame(a: Cm, b: Cm, n: int)
    requires
        a.mix_in == b.mix_in,
        a.gln_hp == b.gln_hp,
    ensures
        a.gln_gate(n) == b.gln_gate(n),
    decreases n,
{
    if n > 0 {
        lemma_gate_frame(a, b, n - 1);
        lemma_proj_frame(a, b, n - 1, GLN_NSEL as int);
    }
}

/// Equal combiner dot products give equal logit sums.
proof fn lemma_logit_sum_eq(a: Cm, b: Cm, n: int)
    requires
        0 <= n <= NL2,
        forall|k: int| 0 <= k < n ==> #[trigger] a.l2_dot(k) == b.l2_dot(k),
    ensures
        a.l2_logit_sum(n) == b.l2_logit_sum(n),
    decreases n,
{
    if n > 0 {
        lemma_logit_sum_eq(a, b, n - 1);
        assert(a.l2_dot(n - 1) == b.l2_dot(n - 1));
    }
}

impl Cm {
    /// Mixes the gathered inputs through both layers and the calibration.
    fn combine(&mut self) -> (p: i32)
        requires
            old(self).wf(),
            forall|i: int| 0 <= i < NINPUT ==> #[trigger] old(self).mix_in64[i] == old(self).mix_in[i],
        ensures
            final(self).wf(),
            1 <= p <= 65534,
            p == final(self).prob_final(final(self).mixed_prob()),
            forall|k: int|
                0 <= k < NL1 ==> #[trigger] final(self).l1@[k].ctx == final(self).l1_sel(k) % (
                L1_NCTX[k] as int),
            forall|k: int|
                0 <= k < NL1 ==> #[trigger] final(self).l2_in[k] == spec_logit(final(self).l1_dot(k)),
            forall|k: int|
                0 <= k < NL1 ==> #[trigger] final(self).l1@[k].pr == final(self).prob12(
                    final(self).l2_in[k] as int,
                ),
            forall|i: int| 0 <= i < NL1 ==> #[trigger] final(self).l2_in64[i] == final(self).l2_in[i],
            forall|k: int|
                0 <= k < NL1 ==> #[trigger] final(self).l1@[k] == (crate::mixer::Mixer {
                    ctx: final(self).l1@[k].ctx,
                    pr: final(self).l1@[k].pr,
                    ..old(self).l1@[k]
                }),
            forall|k: int|
                0 <= k < NL2 ==> #[trigger] final(self).l2@[k] == (crate::mixer::Mixer {
                    ctx: final(self).l2@[k].ctx,
                    pr: final(self).l2@[k].pr,
                    ..old(self).l2@[k]
                }),
            forall|k: int|
                0 <= k < NL2 ==> #[trigger] final(self).l2@[k].ctx == final(self).l2_sel(k) % (
                L2_NCTX[k] as int),
            forall|k: int|
                0 <= k < NL2 ==> #[trigger] final(self).l2@[k].pr == final(self).prob12(
                    spec_logit(final(self).l2_dot(k)),
                ),
            final(self).apm1.idx == apm_pos(
                final(self).tables.stretch16@,
                final(self).apm1_ctx(),
                final(self).mixed_prob(),
            ),
            final(self).apm2.idx == apm_pos(
                final(self).tables.stretch16@,
                final(self).apm2_ctx(),
                final(self).prob_a1(final(self).mixed_prob()),
            ),
            final(self).apm3.idx == apm_pos(
                final(self).tables.stretch16@,
                final(self).apm3_ctx(),
                final(self).prob_a2(final(self).mixed_prob()),
            ),
            final(self).apm4.idx == apm_pos(
                final(self).tables.stretch16@,
                final(self).apm4_ctx(),
                final(self).prob_a3(final(self).mixed_prob()),
            ),
            final(self).apm1.t@ == old(self).apm1.t@,
            final(self).apm2.t@ == old(self).apm2.t@,
            final(self).apm3.t@ == old(self).apm3.t@,
            final(self).apm4.t@ == old(self).apm4.t@,
            *final(self) == (Cm {
                l1: final(self).l1,
                l2_in: final(self).l2_in,
                l2_in64: final(self).l2_in64,
                l2: final(self).l2,
                apm1: final(self).apm1,
                apm2: final(self).apm2,
                apm3: final(self).apm3,
                apm4: final(self).apm4,
                ..*old(self)
            }),
    {
        let ghost s0 = *self;
        self.select_l1();
        let ghost s1 = *self;
        self.mix_l1();
        let ghost s2 = *self;
        self.widen_logits();
        let ghost s3 = *self;
        self.select_l2();
        let ghost s4 = *self;
        let dsum = self.mix_l2();
        let ghost s5 = *self;
        let p = self.refine(dsum);
        proof {
            lemma_selectors_frame(*self, s0);
            lemma_selectors_frame(s3, s0);
            assert forall|k: int| 0 <= k < NL1 implies #[trigger] self.l1_dot(k) == s1.l1_dot(k) by {
                assert(self.l1@[k] == s2.l1@[k]);
            }
            assert forall|k: int| 0 <= k < NL2 implies #[trigger] self.l2_dot(k) == s4.l2_dot(k) by {
                assert(self.l2@[k] == s5.l2@[k]);
            }
            lemma_logit_sum_eq(*self, s4, NL2 as int);
        }
        p
    }
}


/// What `predict` leaves: the state `n` and the probability `p` it returns
/// from the state `o` and the side predictions `side`.
pub open spec fn predicted(o: Cm, side: [i32; 6], n: Cm, p: i32) -> bool {
    &&& 1 <= p <= 65534
    &&& p == n.prob_final(n.mixed_prob())
    &&& forall|i: int|
        0 <= i < NCTX ==> #[trigger] n.idx[i] == o.chosen_slot(i)
    &&& forall|i: int|
        0 <= i < NCTX && o.slot_claimed(i) ==> is_reset(
            #[trigger] o.tab@[i],
            n.tab@[i],
            n.idx[i] as int,
            o.bucket_chk(i),
        )
    &&& forall|i: int|
        0 <= i < NCTX && !o.slot_claimed(i) ==> #[trigger] n.tab@[i]
            == o.tab@[i]
    &&& forall|i: int|
        0 <= i < NCTX ==> #[trigger] n.sm_idx[i] == sm_cell(
            n.tab@[i].st@[n.idx[i] as int],
            o.bitcount,
        )
    &&& forall|i: int|
        0 <= i < NCTX ==> #[trigger] n.mix_in[i] == n.counter_input(i)
    &&& forall|i: int|
        0 <= i < NCTX ==> #[trigger] n.mix_in[SM_BASE + i]
            == n.state_input(i)
    &&& forall|j: int|
        0 <= j < 6 ==> #[trigger] n.mm@[j] == mm_after(
            o.mm@[j],
            j,
            o.c0,
            o.bitcount,
        )
    &&& forall|j: int|
        0 <= j < 6 ==> #[trigger] n.mix_in[MM_BASE + j] == n.mm_input(j)
    &&& forall|k: int| 0 <= k < 6 ==> #[trigger] n.mix_in[DMC_IN + k] == side[k]
    &&& forall|j: int|
        0 <= j < NRUN ==> #[trigger] n.run_used[j] == run_active(
            o.run_pbyte0(j),
            o.c0,
            o.bitcount,
        )
    &&& forall|j: int|
        0 <= j < NRUN ==> #[trigger] n.run_pbyte[j] == if o.run_pbyte0(j)
            >= 0 && !run_active(o.run_pbyte0(j), o.c0, o.bitcount) {
            -1i32
        } else {
            o.run_pbyte0(j)
        }
    &&& forall|j: int| 0 <= j < NRUN ==> #[trigger] n.run_cnt[j] == o.run_cnt0(j)
    &&& forall|j: int|
        0 <= j < NRUN ==> #[trigger] n.run_idx[j] == if run_active(
            o.run_pbyte0(j),
            o.c0,
            o.bitcount,
        ) {
            run_cell(o.run_cnt0(j), o.run_pbyte0(j), o.bitcount) as usize
        } else {
            o.run_idx[j]
        }
    &&& forall|j: int|
        0 <= j < NRUN ==> #[trigger] n.mix_in[RUN_BASE + j] == n.run_input(j)
    &&& forall|i: int|
        0 <= i < NINPUT ==> #[trigger] n.mix_in64[i] == n.mix_in[i]
    &&& forall|k: int|
        0 <= k < NL1 ==> #[trigger] n.l1@[k].ctx == n.l1_sel(k) % (
        L1_NCTX[k] as int)
    &&& forall|k: int|
        0 <= k < NL1 ==> #[trigger] n.l2_in[k] == spec_logit(n.l1_dot(k))
    &&& forall|k: int|
        0 <= k < NL1 ==> #[trigger] n.l1@[k].pr == n.prob12(
            n.l2_in[k] as int,
        )
    &&& forall|i: int| 0 <= i < NL1 ==> #[trigger] n.l2_in64[i] == n.l2_in[i]
    &&& forall|k: int|
        0 <= k < NL1 ==> #[trigger] n.l1@[k] == (crate::mixer::Mixer {
            ctx: n.l1@[k].ctx,
            pr: n.l1@[k].pr,
            ..o.l1@[k]
        })
    &&& forall|k: int|
        0 <= k < NL2 ==> #[trigger] n.l2@[k] == (crate::mixer::Mixer {
            ctx: n.l2@[k].ctx,
            pr: n.l2@[k].pr,
            ..o.l2@[k]
        })
    &&& forall|k: int|
        0 <= k < NL2 ==> #[trigger] n.l2@[k].ctx == n.l2_sel(k) % (
        L2_NCTX[k] as int)
    &&& forall|k: int|
        0 <= k < NL2 ==> #[trigger] n.l2@[k].pr == n.prob12(
            spec_logit(n.l2_dot(k)),
        )
    &&& n.apm1.idx == apm_pos(
        n.tables.stretch16@,
        n.apm1_ctx(),
        n.mixed_prob(),
    )
    &&& n.apm2.idx == apm_pos(
        n.tables.stretch16@,
        n.apm2_ctx(),
        n.prob_a1(n.mixed_prob()),
    )
    &&& n.apm3.idx == apm_pos(
        n.tables.stretch16@,
        n.apm3_ctx(),
        n.prob_a2(n.mixed_prob()),
    )
    &&& n.apm4.idx == apm_pos(
        n.tables.stretch16@,
        n.apm4_ctx(),
        n.prob_a3(n.mixed_prob()),
    )
    &&& n.apm1.t@ == o.apm1.t@
    &&& n.apm2.t@ == o.apm2.t@
    &&& n.apm3.t@ == o.apm3.t@
    &&& n.apm4.t@ == o.apm4.t@
    &&& n == (Cm {
        tab: n.tab,
        idx: n.idx,
        sm_idx: n.sm_idx,
        mix_in: n.mix_in,
        mm: n.mm,
        run_pbyte: n.run_pbyte,
        run_cnt: n.run_cnt,
        run_used: n.run_used,
        run_idx: n.run_idx,
        mix_in64: n.mix_in64,
        l1: n.l1,
        l2_in: n.l2_in,
        l2_in64: n.l2_in64,
        l2: n.l2,
        apm1: n.apm1,
        apm2: n.apm2,
        apm3: n.apm3,
        apm4: n.apm4,
        ..o
    })
}

impl Cm {
    /// Predicts the next bit: returns the probability, in 1/65536, that it
    /// is a 1. `side` holds the five variable-order Markov predictions and
    /// the context-tree prediction as logits, in mixer-input order (two
    /// Markov, the context tree, three Markov). The slots, match models, run
    /// maps, mixer rows and calibration points used are remembered for
    /// `update`.
    pub fn predict(&mut self, side: [i32; 6]) -> (p: i32)
        requires
            old(self).wf(),
            forall|k: int| 0 <= k < 6 ==> -2048 <= #[trigger] side[k] <= 2047,
        ensures
            final(self).wf(),
            predicted(*old(self), side, *final(self), p),
    {
        self.gather(side);
        let ghost mid = *self;
        let p = self.combine();
        proof {
            assert forall|i: int| 0 <= i < NCTX implies #[trigger] self.counter_input(i)
                == mid.counter_input(i) && self.state_input(i) == mid.state_input(i) by {}
            assert forall|j: int| 0 <= j < 6 implies #[trigger] self.mm_input(j) == mid.mm_input(j) by {}
            assert forall|j: int| 0 <= j < NRUN implies #[trigger] self.run_input(j) == mid.run_input(j) by {}
        }
        p
    }
}


/// The byte completed by coding `bit` after the partial byte `c0`.
pub open spec fn coded_byte(c0: i32, bit: i32) -> u8 {
    ((2 * c0 + bit) % 256) as u8
}

/// What `update` leaves: the state `n` after learning `bit`, predicted
/// with probability `p`, from the state `o`.
pub open spec fn updated(o: Cm, bit: i32, p: i32, n: Cm) -> bool {
    &&& learned(o, n, bit, p)
    &&& o.bitcount < 7 ==> {
        &&& n.c0 == 2 * o.c0 + bit
        &&& n.bitcount == o.bitcount + 1
        &&& forall|j: int|
            0 <= j < 6 ==> #[trigger] n.mm@[j] == (crate::model::MatchModel {
                sm: n.mm@[j].sm,
                ..o.mm@[j]
            })
        &&& n == (Cm {
            hard: n.hard,
            hard_fast: n.hard_fast,
            hard_slow: n.hard_slow,
            apm1: n.apm1,
            apm2: n.apm2,
            apm3: n.apm3,
            apm4: n.apm4,
            mm: n.mm,
            run_sm: n.run_sm,
            l1: n.l1,
            l2: n.l2,
            tab: n.tab,
            sm: n.sm,
            c0: n.c0,
            bitcount: n.bitcount,
            ..o
        })
    }
    &&& o.bitcount == 7 ==> {
        &&& history_advanced(o, n, coded_byte(o.c0, bit))
        &&& models_advanced(o, n, coded_byte(o.c0, bit))
    }
    &&& n == (Cm {
        hard: n.hard,
        hard_fast: n.hard_fast,
        hard_slow: n.hard_slow,
        apm1: n.apm1,
        apm2: n.apm2,
        apm3: n.apm3,
        apm4: n.apm4,
        mm: n.mm,
        run_sm: n.run_sm,
        l1: n.l1,
        l2: n.l2,
        tab: n.tab,
        sm: n.sm,
        follow1: n.follow1,
        follow2: n.follow2,
        follow3: n.follow3,
        follow4: n.follow4,
        follow5: n.follow5,
        follow6: n.follow6,
        followhn: n.followhn,
        followd: n.followd,
        followc: n.followc,
        followln: n.followln,
        followg: n.followg,
        follows2: n.follows2,
        follows3: n.follows3,
        followg2: n.followg2,
        followhn8: n.followhn8,
        follows4: n.follows4,
        followln8: n.followln8,
        followg14: n.followg14,
        followcc8: n.followcc8,
        follows5: n.follows5,
        followg16: n.followg16,
        followw: n.followw,
        buf: n.buf,
        pos: n.pos,
        c4: n.c4,
        run_len: n.run_len,
        c1: n.c1,
        nest_depth: n.nest_depth,
        nest_stack: n.nest_stack,
        col: n.col,
        line_start: n.line_start,
        prev_line_start: n.prev_line_start,
        prev2_line_start: n.prev2_line_start,
        rpos: n.rpos,
        rlen: n.rlen,
        rcount: n.rcount,
        wordhash: n.wordhash,
        prevword: n.prevword,
        prevword2: n.prevword2,
        prevword3: n.prevword3,
        runtab: n.runtab,
        c0: n.c0,
        bitcount: n.bitcount,
        ctxhash: n.ctxhash,
        above_byte: n.above_byte,
        ind_pred: n.ind_pred,
        ..o
    })
}

impl Cm {
    /// Learns the coded `bit`, which was predicted with probability `p`
    /// (1/65536 units, as `predict` returned it): every model trains on it;
    /// the bit joins the partial byte, and when it completes a byte the
    /// history, matches and run maps advance and the next byte's contexts
    /// are computed.
    pub fn update(&mut self, bit: i32, p: i32)
        requires
            old(self).wf(),
            bit == 0 || bit == 1,
            0 <= p <= 65535,
            old(self).bitcount == 7 ==> old(self).pos < 0xffff_ffff,
        ensures
            final(self).wf(),
            updated(*old(self), bit, p, *final(self)),
    {
        let ghost s0 = *self;
        proof {
            vstd::arithmetic::power2::lemma2_to64();
        }
        self.learn_bit(bit, p);
        let ghost s1 = *self;
        let c0 = 2 * self.c0 + bit;
        if self.bitcount == 7 {
            let byte = (c0 % 256) as u8;
            self.finish_history(byte);
            let ghost s2 = *self;
            proof {
                assert(s1.positions_wf());
                assert forall|j: int| 0 <= j < 6 implies (#[trigger] self.mm@[j]).ptr < self.pos by {
                    assert(s1.mm@[j].ptr <= s1.pos);
                    assert(s2.mm@[j] == s1.mm@[j]);
                }
            }
            self.finish_models(byte);
            proof {
                lemma_history_frame(s1, s0, s2, *self, byte);
                assert forall|j: int| 0 <= j < 6 implies {
                    &&& (#[trigger] s0.mm@[j]).tab == s2.mm@[j].tab
                    &&& s0.mm@[j].ptr == s2.mm@[j].ptr
                    &&& s0.mm@[j].len == s2.mm@[j].len
                    &&& s0.mm@[j].pbyte == s2.mm@[j].pbyte
                    &&& s0.mm@[j].used == s2.mm@[j].used
                    &&& s0.mm@[j].idx == s2.mm@[j].idx
                } by {
                    assert(s2.mm@[j] == s1.mm@[j]);
                    assert(s1.mm@[j] == (crate::model::MatchModel { sm: s1.mm@[j].sm, ..s0.mm@[j] }));
                }
                lemma_models_frame(s2, s0, *self, byte);
                assert forall|j: int| 0 <= j < 6 implies #[trigger] self.mm@[j].sm == s1.mm@[j].sm by {
                    assert(s2.mm@[j] == s1.mm@[j]);
                }
                lemma_learned_frame(s0, s1, *self, bit, p);
            }
        } else {
            self.c0 = c0;
            self.bitcount = self.bitcount + 1;
            proof {
                assert(self.history_wf());
                crate::history::lemma_invariant_frame(*self, s1);
                assert(self.positions_wf() == s1.positions_wf());
                lemma_learned_frame(s0, s1, *self, bit, p);
            }
        }
    }
}

} // verus!
