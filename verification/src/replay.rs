//! Replaying the coder's calls: a decoder that starts from the encoder's
//! state and makes the same calls sees the same predictions. The model holds
//! vectors, so two states are compared by the contents of their vectors.
use vstd::prelude::*;
use crate::apm::Apm;
use crate::mixer::Mixer;
use crate::model::{Cm, CtxTable, MatchModel, DMC_IN, FSIZE, GLN_BITS, GLN_NSEL, MM_BASE, NCTX, NINPUT, NL1, NL2, NRUN, RUN_BASE, SM_BASE};
use crate::step::{coded_byte, predicted, updated};
use crate::model::built;
use crate::predict::{first_match_from, least_used};
use crate::learn::learned;
use crate::byte_end::{history_advanced, models_advanced};
use crate::matching::{lemma_extent_frame, lemma_hash_frame};
use crate::tables::Tables;

verus! {

pub open spec fn same_table(a: CtxTable, b: CtxTable) -> bool {
    &&& a.cp@ == b.cp@
    &&& a.cn@ == b.cn@
    &&& a.st@ == b.st@
    &&& a.ck@ == b.ck@
}

pub open spec fn same_mixer(a: Mixer, b: Mixer) -> bool {
    &&& a.nctx == b.nctx
    &&& a.w@ == b.w@
    &&& a.ctx == b.ctx
    &&& a.pr == b.pr
    &&& a.lr == b.lr
}

pub open spec fn same_match(a: MatchModel, b: MatchModel) -> bool {
    &&& a.tab@ == b.tab@
    &&& a.ptr == b.ptr
    &&& a.len == b.len
    &&& a.pbyte == b.pbyte
    &&& a.sm@ == b.sm@
    &&& a.used == b.used
    &&& a.idx == b.idx
}

pub open spec fn same_apm(a: Apm, b: Apm) -> bool {
    a.t@ == b.t@ && a.idx == b.idx
}

pub open spec fn same_tables(a: Tables, b: Tables) -> bool {
    &&& a.stretch@ == b.stretch@
    &&& a.squash@ == b.squash@
    &&& a.stretch16@ == b.stretch16@
    &&& a.squash16@ == b.squash16@
}

/// Context tables, mixers and match models agree element by element.
pub open spec fn same_parts(a: Cm, b: Cm) -> bool {
    &&& a.tab@.len() == b.tab@.len()
    &&& forall|i: int| 0 <= i < a.tab@.len() ==> same_table(#[trigger] a.tab@[i], b.tab@[i])
    &&& a.l1@.len() == b.l1@.len()
    &&& forall|k: int| 0 <= k < a.l1@.len() ==> same_mixer(#[trigger] a.l1@[k], b.l1@[k])
    &&& a.l2@.len() == b.l2@.len()
    &&& forall|k: int| 0 <= k < a.l2@.len() ==> same_mixer(#[trigger] a.l2@[k], b.l2@[k])
    &&& a.mm@.len() == b.mm@.len()
    &&& forall|j: int| 0 <= j < a.mm@.len() ==> same_match(#[trigger] a.mm@[j], b.mm@[j])
}

/// The byte-history lookup tables agree.
pub open spec fn same_follow(a: Cm, b: Cm) -> bool {
    &&& a.follow1@ == b.follow1@
    &&& a.follow2@ == b.follow2@
    &&& a.follow3@ == b.follow3@
    &&& a.follow4@ == b.follow4@
    &&& a.follow5@ == b.follow5@
    &&& a.follow6@ == b.follow6@
    &&& a.followhn@ == b.followhn@
    &&& a.followd@ == b.followd@
    &&& a.followc@ == b.followc@
    &&& a.followln@ == b.followln@
    &&& a.followg@ == b.followg@
    &&& a.follows2@ == b.follows2@
    &&& a.follows3@ == b.follows3@
    &&& a.followg2@ == b.followg2@
    &&& a.followhn8@ == b.followhn8@
    &&& a.follows4@ == b.follows4@
    &&& a.followln8@ == b.followln8@
    &&& a.followg14@ == b.followg14@
    &&& a.followcc8@ == b.followcc8@
    &&& a.follows5@ == b.follows5@
    &&& a.followg16@ == b.followg16@
    &&& a.followw@ == b.followw@
}

/// Two model states that hold the same values: every field equal, vectors
/// by their contents.
pub open spec fn same_state(a: Cm, b: Cm) -> bool {
    &&& a.gln_hp@ == b.gln_hp@
    &&& same_tables(a.tables, b.tables)
    &&& same_parts(a, b)
    &&& a.sm@ == b.sm@
    &&& a.sm_idx == b.sm_idx
    &&& a.tmask == b.tmask
    &&& a.assoc == b.assoc
    &&& a.bmask == b.bmask
    &&& a.cshift == b.cshift
    &&& a.rate_tab == b.rate_tab
    &&& a.ctxhash == b.ctxhash
    &&& a.idx == b.idx
    &&& a.mix_in == b.mix_in
    &&& a.mix_in64 == b.mix_in64
    &&& a.l2_in == b.l2_in
    &&& a.l2_in64 == b.l2_in64
    &&& a.buf@ == b.buf@
    &&& a.bufmask == b.bufmask
    &&& a.pos == b.pos
    &&& same_apm(a.apm1, b.apm1)
    &&& same_apm(a.apm2, b.apm2)
    &&& same_apm(a.apm3, b.apm3)
    &&& same_apm(a.apm4, b.apm4)
    &&& a.runtab@ == b.runtab@
    &&& a.runbits == b.runbits
    &&& a.runmask == b.runmask
    &&& a.run_sm@ == b.run_sm@
    &&& a.run_pbyte == b.run_pbyte
    &&& a.run_cnt == b.run_cnt
    &&& a.run_used == b.run_used
    &&& a.run_idx == b.run_idx
    &&& a.c0 == b.c0
    &&& a.bitcount == b.bitcount
    &&& a.hard == b.hard
    &&& a.hard_fast == b.hard_fast
    &&& a.hard_slow == b.hard_slow
    &&& a.c4 == b.c4
    &&& a.wordhash == b.wordhash
    &&& a.prevword == b.prevword
    &&& a.prevword2 == b.prevword2
    &&& a.prevword3 == b.prevword3
    &&& a.c1 == b.c1
    &&& a.run_len == b.run_len
    &&& a.nest_stack == b.nest_stack
    &&& a.nest_depth == b.nest_depth
    &&& a.col == b.col
    &&& a.line_start == b.line_start
    &&& a.prev_line_start == b.prev_line_start
    &&& a.prev2_line_start == b.prev2_line_start
    &&& a.rpos == b.rpos
    &&& a.rlen == b.rlen
    &&& a.rcount == b.rcount
    &&& a.above_byte == b.above_byte
    &&& a.ind_pred == b.ind_pred
    &&& same_follow(a, b)
}

proof fn lemma_logit_sum_same(a: Cm, b: Cm, m: int)
    requires
        forall|k: int| 0 <= k < m ==> #[trigger] a.l2_dot(k) == b.l2_dot(k),
    ensures
        a.l2_logit_sum(m) == b.l2_logit_sum(m),
    decreases m,
{
    if m > 0 {
        lemma_logit_sum_same(a, b, m - 1);
    }
}

proof fn lemma_sign_bits_same(a: Cm, b: Cm, base: int, n: int)
    requires
        a.mix_in == b.mix_in,
    ensures
        a.sign_bits(base, n) == b.sign_bits(base, n),
    decreases n,
{
    if n > 0 {
        lemma_sign_bits_same(a, b, base, n - 1);
    }
}

proof fn lemma_gln_proj_same(a: Cm, b: Cm, k: int, n: int)
    requires
        a.mix_in == b.mix_in,
        a.gln_hp@ == b.gln_hp@,
    ensures
        a.gln_proj(k, n) == b.gln_proj(k, n),
    decreases n,
{
    if n > 0 {
        lemma_gln_proj_same(a, b, k, n - 1);
    }
}

proof fn lemma_gln_gate_same(a: Cm, b: Cm, n: int)
    requires
        a.mix_in == b.mix_in,
        a.gln_hp@ == b.gln_hp@,
    ensures
        a.gln_gate(n) == b.gln_gate(n),
    decreases n,
{
    if n > 0 {
        lemma_gln_gate_same(a, b, n - 1);
        lemma_gln_proj_same(a, b, n - 1, GLN_NSEL as int);
    }
}

proof fn lemma_first_match_same(t1: CtxTable, t2: CtxTable, base: int, chk: u8, k: int)
    requires
        t1.ck@ == t2.ck@,
    ensures
        first_match_from(t1, base, chk, k) == first_match_from(t2, base, chk, k),
    decreases 8 - k,
{
    if k < 8 {
        lemma_first_match_same(t1, t2, base, chk, k + 1);
    }
}

proof fn lemma_least_used_same(t1: CtxTable, t2: CtxTable, base: int, k: int)
    requires
        t1.cn@ == t2.cn@,
    ensures
        least_used(t1, base, k) == least_used(t2, base, k),
    decreases k,
{
    if k > 0 {
        lemma_least_used_same(t1, t2, base, k - 1);
    }
}

/// Prediction is a function of the state: two models that hold the same
/// values, given the same side predictions, return the same probability
/// and are left holding the same values.
pub proof fn lemma_predict_determined(
    o1: Cm,
    o2: Cm,
    side: [i32; 6],
    n1: Cm,
    p1: i32,
    n2: Cm,
    p2: i32,
)
    requires
        o1.wf(),
        o2.wf(),
        same_state(o1, o2),
        n1.wf(),
        n2.wf(),
        predicted(o1, side, n1, p1),
        predicted(o2, side, n2, p2),
    ensures
        p1 == p2,
        same_state(n1, n2),
{
    assert forall|i: int| 0 <= i < NCTX implies #[trigger] o1.chosen_slot(i) == o2.chosen_slot(i)
        && o1.slot_claimed(i) == o2.slot_claimed(i) && o1.bucket_chk(i) == o2.bucket_chk(i) by {
        assert(same_table(o1.tab@[i], o2.tab@[i]));
        lemma_first_match_same(o1.tab@[i], o2.tab@[i], o1.bucket_base(i), o1.bucket_chk(i), 0);
        lemma_least_used_same(o1.tab@[i], o2.tab@[i], o1.bucket_base(i), 7);
    }
    assert(n1.idx =~= n2.idx);
    assert forall|i: int| 0 <= i < NCTX implies same_table(#[trigger] n1.tab@[i], n2.tab@[i]) by {
        assert(same_table(o1.tab@[i], o2.tab@[i]));
        if o1.slot_claimed(i) {
        } else {
        }
    }
    assert forall|i: int| 0 <= i < NCTX implies #[trigger] n1.sm_idx[i] == n2.sm_idx[i] by {
        assert(n1.tab@[i].st@ == n2.tab@[i].st@);
    }
    assert(n1.sm_idx =~= n2.sm_idx);
    assert forall|j: int| 0 <= j < 6 implies same_match(#[trigger] n1.mm@[j], n2.mm@[j]) by {
        assert(same_match(o1.mm@[j], o2.mm@[j]));
    }
    assert forall|j: int| 0 <= j < NRUN implies #[trigger] o1.run_pbyte0(j) == o2.run_pbyte0(j)
        && o1.run_cnt0(j) == o2.run_cnt0(j) by {}
    assert(n1.run_used =~= n2.run_used);
    assert(n1.run_pbyte =~= n2.run_pbyte);
    assert(n1.run_cnt =~= n2.run_cnt);
    assert(n1.run_idx =~= n2.run_idx);
    assert forall|i: int| 0 <= i < NINPUT implies #[trigger] n1.mix_in[i] == n2.mix_in[i] by {
        if i < SM_BASE {
            assert(n1.counter_input(i) == n2.counter_input(i));
        } else if i < MM_BASE {
            let j = i - SM_BASE;
            assert(n1.mix_in[SM_BASE + j] == n1.state_input(j));
            assert(n2.mix_in[SM_BASE + j] == n2.state_input(j));
        } else if i < DMC_IN {
            let j = i - MM_BASE;
            assert(same_match(n1.mm@[j], n2.mm@[j]));
            assert(n1.mix_in[MM_BASE + j] == n1.mm_input(j));
            assert(n2.mix_in[MM_BASE + j] == n2.mm_input(j));
        } else if i < RUN_BASE {
            let j = i - DMC_IN;
            assert(n1.mix_in[DMC_IN + j] == side[j]);
            assert(n2.mix_in[DMC_IN + j] == side[j]);
        } else {
            let j = i - RUN_BASE;
            assert(n1.mix_in[RUN_BASE + j] == n1.run_input(j));
            assert(n2.mix_in[RUN_BASE + j] == n2.run_input(j));
        }
    }
    assert(n1.mix_in =~= n2.mix_in);
    assert(n1.mix_in64 =~= n2.mix_in64);
    lemma_gln_gate_same(n1, n2, GLN_BITS as int);
    lemma_sign_bits_same(n1, n2, 0, 7);
    lemma_sign_bits_same(n1, n2, SM_BASE as int, 7);
    lemma_sign_bits_same(n1, n2, MM_BASE as int, 6);
    assert forall|k: int| 0 <= k < NL1 implies same_mixer(#[trigger] n1.l1@[k], n2.l1@[k]) by {
        assert(same_mixer(o1.l1@[k], o2.l1@[k]));
        assert(same_match(n1.mm@[0], n2.mm@[0]));
        assert(same_match(n1.mm@[1], n2.mm@[1]));
        assert(same_match(n1.mm@[2], n2.mm@[2]));
        assert(same_match(n1.mm@[3], n2.mm@[3]));
        assert(n1.l1_sel(k) == n2.l1_sel(k));
        assert(n1.l1_dot(k) == n2.l1_dot(k));
    }
    assert forall|k: int| 0 <= k < NL1 implies #[trigger] n1.l2_in[k] == n2.l2_in[k] by {
        assert(same_mixer(n1.l1@[k], n2.l1@[k]));
        assert(n1.l1_dot(k) == n2.l1_dot(k));
    }
    assert(n1.l2_in =~= n2.l2_in);
    assert(n1.l2_in64 =~= n2.l2_in64);
    assert forall|k: int| 0 <= k < NL2 implies same_mixer(#[trigger] n1.l2@[k], n2.l2@[k]) by {
        assert(same_mixer(o1.l2@[k], o2.l2@[k]));
        assert(same_match(n1.mm@[0], n2.mm@[0]));
        assert(same_match(n1.mm@[2], n2.mm@[2]));
        assert(same_match(n1.mm@[3], n2.mm@[3]));
        assert(n1.l2_sel(k) == n2.l2_sel(k));
        assert(n1.l2_dot(k) == n2.l2_dot(k));
    }
    assert forall|k: int| 0 <= k < NL2 implies #[trigger] n1.l2_dot(k) == n2.l2_dot(k) by {
        assert(same_mixer(n1.l2@[k], n2.l2@[k]));
    }
    lemma_logit_sum_same(n1, n2, NL2 as int);
    assert(n1.mixed_prob() == n2.mixed_prob());
    assert(same_match(n1.mm@[0], n2.mm@[0]));
    assert(same_match(n1.mm@[2], n2.mm@[2]));
    assert(same_match(n1.mm@[3], n2.mm@[3]));
}

/// Splits a position of a table of `rows` rows of `w` cells into its row
/// and cell.
proof fn lemma_row_cell(x: int, w: int, rows: int)
    requires
        0 <= x < rows * w,
        w > 0,
    ensures
        0 <= x / w < rows,
        0 <= x % w < w,
        x == (x / w) * w + x % w,
{
    vstd::arithmetic::div_mod::lemma_fundamental_div_mod(x, w);
    vstd::arithmetic::mul::lemma_mul_is_commutative(x / w, w);
    let q = x / w;
    let r = x % w;
    assert(0 <= r < w);
    assert(0 <= q < rows) by (nonlinear_arith)
        requires
            x == w * q + r,
            0 <= r < w,
            0 <= x < rows * w,
            w > 0,
    ;
}

/// The fields that learning sets agree in two states that learned the same
/// bit from states holding the same values.
proof fn lemma_learned_same(o1: Cm, o2: Cm, n1: Cm, n2: Cm, bit: i32, p: i32)
    requires
        o1.wf(),
        o2.wf(),
        same_state(o1, o2),
        n1.wf(),
        n2.wf(),
        learned(o1, n1, bit, p),
        learned(o2, n2, bit, p),
    ensures
        n1.hard == n2.hard,
        n1.hard_fast == n2.hard_fast,
        n1.hard_slow == n2.hard_slow,
        same_apm(n1.apm1, n2.apm1),
        same_apm(n1.apm2, n2.apm2),
        same_apm(n1.apm3, n2.apm3),
        same_apm(n1.apm4, n2.apm4),
        forall|j: int| 0 <= j < 6 ==> #[trigger] n1.mm@[j].sm@ == n2.mm@[j].sm@,
        n1.run_sm@ == n2.run_sm@,
        forall|k: int| 0 <= k < NL1 ==> same_mixer(#[trigger] n1.l1@[k], n2.l1@[k]),
        forall|k: int| 0 <= k < NL2 ==> same_mixer(#[trigger] n1.l2@[k], n2.l2@[k]),
        forall|i: int| 0 <= i < NCTX ==> same_table(#[trigger] n1.tab@[i], n2.tab@[i]),
        n1.sm@ == n2.sm@,
{
    reveal(learned);
    assert forall|j: int| 0 <= j < 6 implies #[trigger] n1.mm@[j].sm@ == n2.mm@[j].sm@ by {
        assert(same_match(o1.mm@[j], o2.mm@[j]));
    }
    assert forall|k: int| 0 <= k < NL1 implies same_mixer(#[trigger] n1.l1@[k], n2.l1@[k]) by {
        assert(same_mixer(o1.l1@[k], o2.l1@[k]));
        assert(n1.l1@[k].w@ =~= n2.l1@[k].w@);
    }
    assert forall|k: int| 0 <= k < NL2 implies same_mixer(#[trigger] n1.l2@[k], n2.l2@[k]) by {
        assert(same_mixer(o1.l2@[k], o2.l2@[k]));
        assert(n1.l2@[k].w@ =~= n2.l2@[k].w@);
    }
    assert forall|i: int| 0 <= i < NCTX implies same_table(#[trigger] n1.tab@[i], n2.tab@[i]) by {
        assert(same_table(o1.tab@[i], o2.tab@[i]));
    }
    assert forall|x: int| 0 <= x < n1.run_sm@.len() implies #[trigger] n1.run_sm@[x]
        == n2.run_sm@[x] by {
        lemma_row_cell(x, 128, NRUN as int);
        let j = x / 128;
        let c = x % 128;
        assert(n1.run_sm@[j * 128 + c] == n2.run_sm@[j * 128 + c]);
    }
    assert(n1.run_sm@ =~= n2.run_sm@);
    assert forall|x: int| 0 <= x < n1.sm@.len() implies #[trigger] n1.sm@[x] == n2.sm@[x] by {
        lemma_row_cell(x, 2048, NCTX as int);
        let i = x / 2048;
        let c = x % 2048;
        assert(n1.sm@[i * 2048 + c] == n2.sm@[i * 2048 + c]);
    }
    assert(n1.sm@ =~= n2.sm@);
}

/// The history fields agree in two states that advanced histories holding
/// the same values by the same byte.
proof fn lemma_history_same(o1: Cm, o2: Cm, n1: Cm, n2: Cm, byte: u8)
    requires
        same_state(o1, o2),
        history_advanced(o1, n1, byte),
        history_advanced(o2, n2, byte),
    ensures
        same_follow(n1, n2),
        n1.buf@ == n2.buf@,
        n1.pos == n2.pos,
        n1.c4 == n2.c4,
        n1.run_len == n2.run_len,
        n1.c1 == n2.c1,
        n1.nest_depth == n2.nest_depth,
        n1.nest_stack == n2.nest_stack,
        n1.col == n2.col,
        n1.line_start == n2.line_start,
        n1.prev_line_start == n2.prev_line_start,
        n1.prev2_line_start == n2.prev2_line_start,
        n1.rpos == n2.rpos,
        n1.rlen == n2.rlen,
        n1.rcount == n2.rcount,
        n1.wordhash == n2.wordhash,
        n1.prevword == n2.prevword,
        n1.prevword2 == n2.prevword2,
        n1.prevword3 == n2.prevword3,
{
    reveal(history_advanced);
    assert(o1.key3() == o2.key3());
    assert(o1.key4() == o2.key4());
    assert(o1.m5() == o2.m5());
    assert(o1.m6() == o2.m6());
    assert(o1.hnm() == o2.hnm());
    assert(o1.dm() == o2.dm());
    assert(o1.lnm() == o2.lnm());
    assert(o1.hn8() == o2.hn8());
    assert(o1.ln8() == o2.ln8());
    assert(o1.cc8() == o2.cc8());
    assert(o1.wkey() == o2.wkey());
    assert(o1.gap_key(3) == o2.gap_key(3));
    assert(o1.gap_key(4) == o2.gap_key(4));
    assert(o1.gap_key(5) == o2.gap_key(5));
    assert(o1.gap_key(6) == o2.gap_key(6));
    assert(o1.pair_key(2, 4, 4) == o2.pair_key(2, 4, 4));
    assert(o1.pair_key(3, 6, 6) == o2.pair_key(3, 6, 6));
    assert(o1.pair_key(4, 8, 8) == o2.pair_key(4, 8, 8));
    assert(o1.pair_key(5, 10, 10) == o2.pair_key(5, 10, 10));
    assert(n1.nest_stack =~= n2.nest_stack);
    assert(n1.rpos =~= n2.rpos);
}

/// Learning is a function of the state: two models that hold the same
/// values, updated with the same bit and probability, are left holding the
/// same values.
pub proof fn lemma_update_determined(o1: Cm, o2: Cm, bit: i32, p: i32, n1: Cm, n2: Cm)
    requires
        o1.wf(),
        o2.wf(),
        same_state(o1, o2),
        n1.wf(),
        n2.wf(),
        bit == 0 || bit == 1,
        0 <= p <= 65535,
        updated(o1, bit, p, n1),
        updated(o2, bit, p, n2),
    ensures
        same_state(n1, n2),
{
    lemma_learned_same(o1, o2, n1, n2, bit, p);
    if o1.bitcount < 7 {
        assert forall|j: int| 0 <= j < 6 implies same_match(#[trigger] n1.mm@[j], n2.mm@[j]) by {
            assert(same_match(o1.mm@[j], o2.mm@[j]));
        }
    } else {
        let byte = coded_byte(o1.c0, bit);
        lemma_history_same(o1, o2, n1, n2, byte);
        reveal(models_advanced);
        assert forall|j: int| 0 <= j < 6 implies same_match(#[trigger] n1.mm@[j], n2.mm@[j]) by {
            assert(same_match(o1.mm@[j], o2.mm@[j]));
            lemma_hash_frame(n1, n2, crate::matching::MM_NEED[j] as int);
            assert(n1.mm_key(j) == n2.mm_key(j));
            let e1 = crate::matching::mm_extended(o1.mm@[j], byte);
            let e2 = crate::matching::mm_extended(o2.mm@[j], byte);
            assert(same_match(e1, e2));
            let cand = e1.tab@[n1.mm_key(j)];
            lemma_extent_frame(n1, n2, cand, 0);
        }
        assert(n1.runtab@.len() == n2.runtab@.len());
        assert forall|x: int| 0 <= x < n1.runtab@.len() implies #[trigger] n1.runtab@[x]
            == n2.runtab@[x] by {
            lemma_row_cell(x, o1.run_size(), NRUN as int);
            let j = x / o1.run_size();
            let c = x % o1.run_size();
            assert(n1.runtab@[j * o1.run_size() + c] == n2.runtab@[j * o2.run_size() + c]);
        }
        assert(n1.runtab@ =~= n2.runtab@);
        assert(same_match(n1.mm@[0], n2.mm@[0]));
        assert(same_match(n1.mm@[1], n2.mm@[1]));
        assert(same_match(n1.mm@[2], n2.mm@[2]));
        assert(same_match(n1.mm@[3], n2.mm@[3]));
        assert(same_match(n1.mm@[4], n2.mm@[4]));
        assert(same_match(n1.mm@[5], n2.mm@[5]));
        assert forall|i: int| 0 <= i < NCTX implies #[trigger] n1.ctxhash[i] == n2.ctxhash[i] by {
            assert(n1.spec_ctxhash(i) == n2.spec_ctxhash(i));
        }
        assert(n1.ctxhash =~= n2.ctxhash);
        assert(n1.spec_above_byte() == n2.spec_above_byte());
    }
}

/// Two sequences of one length that agree at every index are equal.
proof fn lemma_seq_same<T>(a: Seq<T>, b: Seq<T>)
    requires
        a.len() == b.len(),
        forall|i: int| 0 <= i < a.len() ==> #[trigger] a[i] == b[i],
    ensures
        a == b,
{
    assert(a =~= b);
}

/// Construction is a function of its arguments: two models built for the
/// same input size from tables holding the same values hold the same
/// values.
pub proof fn lemma_new_determined(expected_len: usize, t1: Tables, t2: Tables, r1: Cm, r2: Cm)
    requires
        same_tables(t1, t2),
        r1.wf(),
        r2.wf(),
        built(expected_len, t1, r1),
        built(expected_len, t2, r2),
    ensures
        same_state(r1, r2),
{
    assert forall|x: int| 0 <= x < r1.gln_hp@.len() implies #[trigger] r1.gln_hp@[x]
        == r2.gln_hp@[x] by {
        lemma_row_cell(x, GLN_NSEL as int, GLN_BITS as int);
        let k = x / GLN_NSEL as int;
        let i = x % GLN_NSEL as int;
        assert(r1.gln_hp@[k * GLN_NSEL + i] == r2.gln_hp@[k * GLN_NSEL + i]);
    }
    lemma_seq_same(r1.gln_hp@, r2.gln_hp@);
    assert(r1.assoc =~= r2.assoc);
    assert forall|i: int| 0 <= i < NCTX implies #[trigger] r1.tmask[i] == r2.tmask[i] && r1.bmask[i]
        == r2.bmask[i] by {}
    assert(r1.tmask =~= r2.tmask);
    assert(r1.bmask =~= r2.bmask);
    assert(r1.cshift =~= r2.cshift);
    assert(r1.rate_tab =~= r2.rate_tab);
    assert forall|i: int| 0 <= i < NCTX implies same_table(#[trigger] r1.tab@[i], r2.tab@[i]) by {
        let a = r1.tab@[i];
        let b = r2.tab@[i];
        assert(a.len() == b.len());
        assert forall|x: int| 0 <= x < a.len() implies #[trigger] a.cn@[x] == b.cn@[x] by {
            assert(a.cp@[x] == 0 && b.cp@[x] == 0);
        }
        assert forall|x: int| 0 <= x < a.len() implies #[trigger] a.st@[x] == b.st@[x] by {
            assert(a.cp@[x] == 0 && b.cp@[x] == 0);
        }
        assert forall|x: int| 0 <= x < a.len() implies #[trigger] a.ck@[x] == b.ck@[x] by {
            assert(a.cp@[x] == 0 && b.cp@[x] == 0);
        }
        assert(a.cp@ =~= b.cp@);
        assert(a.cn@ =~= b.cn@);
        assert(a.st@ =~= b.st@);
        assert(a.ck@ =~= b.ck@);
    }
    lemma_seq_same(r1.sm@, r2.sm@);
    assert(r1.sm_idx =~= r2.sm_idx);
    assert(r1.ctxhash =~= r2.ctxhash);
    assert(r1.idx =~= r2.idx);
    assert(r1.mix_in =~= r2.mix_in);
    assert(r1.mix_in64 =~= r2.mix_in64);
    assert(r1.l2_in =~= r2.l2_in);
    assert(r1.l2_in64 =~= r2.l2_in64);
    assert forall|k: int| 0 <= k < NL1 implies same_mixer(#[trigger] r1.l1@[k], r2.l1@[k]) by {
        lemma_seq_same(r1.l1@[k].w@, r2.l1@[k].w@);
    }
    assert forall|k: int| 0 <= k < NL2 implies same_mixer(#[trigger] r1.l2@[k], r2.l2@[k]) by {
        lemma_seq_same(r1.l2@[k].w@, r2.l2@[k].w@);
    }
    lemma_seq_same(r1.buf@, r2.buf@);
    assert forall|j: int| 0 <= j < 6 implies same_match(#[trigger] r1.mm@[j], r2.mm@[j]) by {
        assert(r1.mm@[j].wf(j) && r2.mm@[j].wf(j));
        lemma_seq_same(r1.mm@[j].tab@, r2.mm@[j].tab@);
        lemma_seq_same(r1.mm@[j].sm@, r2.mm@[j].sm@);
    }
    assert forall|x: int| 0 <= x < r1.apm1.t@.len() implies #[trigger] r1.apm1.t@[x]
        == r2.apm1.t@[x] by {
        lemma_row_cell(x, 33, 1024);
        assert(r1.apm1.t@[(x / 33) * 33 + x % 33] == r2.apm1.t@[(x / 33) * 33 + x % 33]);
    }
    lemma_seq_same(r1.apm1.t@, r2.apm1.t@);
    assert forall|x: int| 0 <= x < r1.apm2.t@.len() implies #[trigger] r1.apm2.t@[x]
        == r2.apm2.t@[x] by {
        lemma_row_cell(x, 33, 16384);
        assert(r1.apm2.t@[(x / 33) * 33 + x % 33] == r2.apm2.t@[(x / 33) * 33 + x % 33]);
    }
    lemma_seq_same(r1.apm2.t@, r2.apm2.t@);
    assert forall|x: int| 0 <= x < r1.apm3.t@.len() implies #[trigger] r1.apm3.t@[x]
        == r2.apm3.t@[x] by {
        lemma_row_cell(x, 33, 1024);
        assert(r1.apm3.t@[(x / 33) * 33 + x % 33] == r2.apm3.t@[(x / 33) * 33 + x % 33]);
    }
    lemma_seq_same(r1.apm3.t@, r2.apm3.t@);
    assert forall|x: int| 0 <= x < r1.apm4.t@.len() implies #[trigger] r1.apm4.t@[x]
        == r2.apm4.t@[x] by {
        lemma_row_cell(x, 33, 1024);
        assert(r1.apm4.t@[(x / 33) * 33 + x % 33] == r2.apm4.t@[(x / 33) * 33 + x % 33]);
    }
    lemma_seq_same(r1.apm4.t@, r2.apm4.t@);
    lemma_seq_same(r1.runtab@, r2.runtab@);
    lemma_seq_same(r1.run_sm@, r2.run_sm@);
    assert(r1.run_pbyte =~= r2.run_pbyte);
    assert forall|j: int| 0 <= j < NRUN implies #[trigger] r1.run_cnt[j] == r2.run_cnt[j] by {
        assert(r1.run_pbyte[j] == r2.run_pbyte[j]);
    }
    assert forall|j: int| 0 <= j < NRUN implies #[trigger] r1.run_used[j] == r2.run_used[j] by {
        assert(r1.run_pbyte[j] == r2.run_pbyte[j]);
    }
    assert forall|j: int| 0 <= j < NRUN implies #[trigger] r1.run_idx[j] == r2.run_idx[j] by {
        assert(r1.run_pbyte[j] == r2.run_pbyte[j]);
    }
    assert(r1.run_cnt =~= r2.run_cnt);
    assert(r1.run_used =~= r2.run_used);
    assert(r1.run_idx =~= r2.run_idx);
    assert(r1.nest_stack =~= r2.nest_stack);
    assert(r1.rpos =~= r2.rpos);
    assert forall|i: int| 0 <= i < 256 implies #[trigger] r1.followc@[i] == r2.followc@[i] by {
        assert(r1.follow1@[i] == r2.follow1@[i]);
    }
    assert forall|i: int| 0 <= i < 0x1_0000 implies #[trigger] r1.followg@[i] == r2.followg@[i] by {
        assert(r1.follow2@[i] == r2.follow2@[i]);
    }
    assert forall|i: int| 0 <= i < 0x1_0000 implies #[trigger] r1.follows2@[i] == r2.follows2@[i] by {
        assert(r1.follow2@[i] == r2.follow2@[i]);
    }
    assert forall|i: int| 0 <= i < 0x1_0000 implies #[trigger] r1.follows3@[i] == r2.follows3@[i] by {
        assert(r1.follow2@[i] == r2.follow2@[i]);
    }
    assert forall|i: int| 0 <= i < 0x1_0000 implies #[trigger] r1.followg2@[i] == r2.followg2@[i] by {
        assert(r1.follow2@[i] == r2.follow2@[i]);
    }
    assert forall|i: int| 0 <= i < 0x1_0000 implies #[trigger] r1.follows4@[i] == r2.follows4@[i] by {
        assert(r1.follow2@[i] == r2.follow2@[i]);
    }
    assert forall|i: int| 0 <= i < 0x1_0000 implies #[trigger] r1.followg14@[i] == r2.followg14@[i] by {
        assert(r1.follow2@[i] == r2.follow2@[i]);
    }
    assert forall|i: int| 0 <= i < 0x1_0000 implies #[trigger] r1.followcc8@[i] == r2.followcc8@[i] by {
        assert(r1.follow2@[i] == r2.follow2@[i]);
    }
    assert forall|i: int| 0 <= i < 0x1_0000 implies #[trigger] r1.follows5@[i] == r2.follows5@[i] by {
        assert(r1.follow2@[i] == r2.follow2@[i]);
    }
    assert forall|i: int| 0 <= i < 0x1_0000 implies #[trigger] r1.followg16@[i] == r2.followg16@[i] by {
        assert(r1.follow2@[i] == r2.follow2@[i]);
    }
    assert forall|i: int| 0 <= i < 0x1_0000 implies #[trigger] r1.followw@[i] == r2.followw@[i] by {
        assert(r1.follow2@[i] == r2.follow2@[i]);
    }
    assert forall|i: int| 0 <= i < FSIZE implies #[trigger] r1.follow4@[i] == r2.follow4@[i] by {
        assert(r1.follow3@[i] == r2.follow3@[i]);
    }
    assert forall|i: int| 0 <= i < FSIZE implies #[trigger] r1.follow5@[i] == r2.follow5@[i] by {
        assert(r1.follow3@[i] == r2.follow3@[i]);
    }
    assert forall|i: int| 0 <= i < FSIZE implies #[trigger] r1.follow6@[i] == r2.follow6@[i] by {
        assert(r1.follow3@[i] == r2.follow3@[i]);
    }
    assert forall|i: int| 0 <= i < FSIZE implies #[trigger] r1.followhn@[i] == r2.followhn@[i] by {
        assert(r1.follow3@[i] == r2.follow3@[i]);
    }
    assert forall|i: int| 0 <= i < FSIZE implies #[trigger] r1.followd@[i] == r2.followd@[i] by {
        assert(r1.follow3@[i] == r2.follow3@[i]);
    }
    assert forall|i: int| 0 <= i < FSIZE implies #[trigger] r1.followln@[i] == r2.followln@[i] by {
        assert(r1.follow3@[i] == r2.follow3@[i]);
    }
    assert forall|i: int| 0 <= i < FSIZE implies #[trigger] r1.followhn8@[i] == r2.followhn8@[i] by {
        assert(r1.follow3@[i] == r2.follow3@[i]);
    }
    assert forall|i: int| 0 <= i < FSIZE implies #[trigger] r1.followln8@[i] == r2.followln8@[i] by {
        assert(r1.follow3@[i] == r2.follow3@[i]);
    }
    lemma_seq_same(r1.follow1@, r2.follow1@);
    lemma_seq_same(r1.followc@, r2.followc@);
    lemma_seq_same(r1.follow2@, r2.follow2@);
    lemma_seq_same(r1.followg@, r2.followg@);
    lemma_seq_same(r1.follows2@, r2.follows2@);
    lemma_seq_same(r1.follows3@, r2.follows3@);
    lemma_seq_same(r1.followg2@, r2.followg2@);
    lemma_seq_same(r1.follows4@, r2.follows4@);
    lemma_seq_same(r1.followg14@, r2.followg14@);
    lemma_seq_same(r1.followcc8@, r2.followcc8@);
    lemma_seq_same(r1.follows5@, r2.follows5@);
    lemma_seq_same(r1.followg16@, r2.followg16@);
    lemma_seq_same(r1.followw@, r2.followw@);
    lemma_seq_same(r1.follow3@, r2.follow3@);
    lemma_seq_same(r1.follow4@, r2.follow4@);
    lemma_seq_same(r1.follow5@, r2.follow5@);
    lemma_seq_same(r1.follow6@, r2.follow6@);
    lemma_seq_same(r1.followhn@, r2.followhn@);
    lemma_seq_same(r1.followd@, r2.followd@);
    lemma_seq_same(r1.followln@, r2.followln@);
    lemma_seq_same(r1.followhn8@, r2.followhn8@);
    lemma_seq_same(r1.followln8@, r2.followln8@);
}

/// A coding run of `bits.len()` steps through the states `s`: at step `i`
/// the model in `s[2i]` predicts `ps[i]` from the side predictions
/// `sides[i]` (leaving `s[2i + 1]`), then learns `bits[i]` with that
/// prediction (leaving `s[2i + 2]`).
pub open spec fn coded(s: Seq<Cm>, sides: Seq<[i32; 6]>, bits: Seq<i32>, ps: Seq<i32>) -> bool {
    &&& sides.len() == bits.len()
    &&& ps.len() == bits.len()
    &&& s.len() == 2 * bits.len() + 1
    &&& forall|j: int| 0 <= j < s.len() ==> (#[trigger] s[j]).wf()
    &&& forall|i: int|
        0 <= i < bits.len() ==> predicted(s[2 * i], sides[i], s[2 * i + 1], ps[i]) && updated(
            s[2 * i + 1],
            #[trigger] bits[i],
            ps[i],
            s[2 * i + 2],
        )
}

proof fn lemma_lockstep_prefix(
    s1: Seq<Cm>,
    s2: Seq<Cm>,
    sides: Seq<[i32; 6]>,
    bits: Seq<i32>,
    ps1: Seq<i32>,
    ps2: Seq<i32>,
    n: int,
)
    requires
        0 <= n <= bits.len(),
        same_state(s1[0], s2[0]),
        coded(s1, sides, bits, ps1),
        coded(s2, sides, bits, ps2),
        forall|i: int| 0 <= i < bits.len() ==> #[trigger] bits[i] == 0 || bits[i] == 1,
    ensures
        same_state(s1[2 * n], s2[2 * n]),
        forall|i: int| 0 <= i < n ==> #[trigger] ps1[i] == ps2[i],
        forall|i: int| 0 <= i < n ==> same_state(#[trigger] s1[2 * i + 1], s2[2 * i + 1]),
        forall|i: int| 0 <= i <= n ==> same_state(#[trigger] s1[2 * i], s2[2 * i]),
    decreases n,
{
    if n > 0 {
        lemma_lockstep_prefix(s1, s2, sides, bits, ps1, ps2, n - 1);
        let i = n - 1;
        assert(bits[i] == 0 || bits[i] == 1);
        assert(s1[2 * i].wf() && s2[2 * i].wf());
        assert(s1[2 * i + 1].wf() && s2[2 * i + 1].wf());
        assert(s1[2 * i + 2].wf() && s2[2 * i + 2].wf());
        lemma_predict_determined(s1[2 * i], s2[2 * i], sides[i], s1[2 * i + 1], ps1[i], s2[2 * i + 1], ps2[i]);
        lemma_update_determined(s1[2 * i + 1], s2[2 * i + 1], bits[i], ps1[i], s1[2 * i + 2], s2[2 * i + 2]);
        assert(2 * n == 2 * i + 2);
    }
}

/// Encoder and decoder stay in lockstep: two coding runs that start from
/// models holding the same values and get the same side predictions and
/// the same bits make the same prediction at every step and hold the same
/// values after every call.
pub proof fn lemma_coding_lockstep(
    s1: Seq<Cm>,
    s2: Seq<Cm>,
    sides: Seq<[i32; 6]>,
    bits: Seq<i32>,
    ps1: Seq<i32>,
    ps2: Seq<i32>,
)
    requires
        same_state(s1[0], s2[0]),
        coded(s1, sides, bits, ps1),
        coded(s2, sides, bits, ps2),
        forall|i: int| 0 <= i < bits.len() ==> #[trigger] bits[i] == 0 || bits[i] == 1,
    ensures
        ps1 == ps2,
        forall|j: int| 0 <= j < s1.len() ==> same_state(#[trigger] s1[j], s2[j]),
{
    lemma_lockstep_prefix(s1, s2, sides, bits, ps1, ps2, bits.len() as int);
    assert(ps1 =~= ps2);
    assert forall|j: int| 0 <= j < s1.len() implies same_state(#[trigger] s1[j], s2[j]) by {
        let i = j / 2;
        if j % 2 == 0 {
            assert(j == 2 * i);
            assert(same_state(s1[2 * i], s2[2 * i]));
        } else {
            assert(j == 2 * i + 1);
            assert(same_state(s1[2 * i + 1], s2[2 * i + 1]));
        }
    }
}

} // verus!
