use vstd::prelude::*;
use crate::bits::lemma_mask_bounds;
use crate::model::{Cm, CtxTable, NCTX, NINPUT, SM_BASE, WAYS, WAYS_LOG};

verus! {

/// Hash of context `i` combined with the partial byte.
pub open spec fn slot_hash(ctxhash: u32, c0: i32) -> u32 {
    ctxhash.wrapping_mul(769).wrapping_add(c0 as u32)
}

/// First way in `[k, 8)` of the bucket at `base` whose checksum is `chk`, or 8.
pub open spec fn first_match_from(t: CtxTable, base: int, chk: u8, k: int) -> int
    decreases 8 - k,
{
    if k >= 8 {
        8
    } else if t.ck@[base + k] == chk {
        k
    } else {
        first_match_from(t, base, chk, k + 1)
    }
}

/// The way among the first `k + 1` of the bucket with the smallest count
/// (the first such way).
pub open spec fn least_used(t: CtxTable, base: int, k: int) -> int
    decreases k,
{
    if k <= 0 {
        0
    } else {
        let w = least_used(t, base, k - 1);
        if t.cn@[base + k] < t.cn@[base + w] {
            k
        } else {
            w
        }
    }
}

impl Cm {
    pub open spec fn shash(&self, i: int) -> u32 {
        slot_hash(self.ctxhash[i], self.c0)
    }

    /// First slot of the bucket of model `i` (associative models).
    pub open spec fn bucket_base(&self, i: int) -> int {
        ((self.shash(i) & self.bmask[i]) as int) * 8
    }

    /// Checksum of model `i`'s context (associative models).
    pub open spec fn bucket_chk(&self, i: int) -> u8 {
        (self.shash(i) >> self.cshift[i]) as u8
    }

    /// The way of the bucket holding model `i`'s context, 8 if none does.
    pub open spec fn bucket_match(&self, i: int) -> int {
        first_match_from(self.tab@[i], self.bucket_base(i), self.bucket_chk(i), 0)
    }

    /// The context has no slot yet and claims (and empties) the least used way.
    pub open spec fn slot_claimed(&self, i: int) -> bool {
        self.assoc[i] && self.bucket_match(i) == 8
    }

    /// Slot of model `i` for the current bit.
    pub open spec fn chosen_slot(&self, i: int) -> int {
        if !self.assoc[i] {
            (self.shash(i) & self.tmask[i]) as int
        } else if self.bucket_match(i) < 8 {
            self.bucket_base(i) + self.bucket_match(i)
        } else {
            self.bucket_base(i) + least_used(self.tab@[i], self.bucket_base(i), 7)
        }
    }
}

/// `n` is table `o` with slot `ix` emptied and given checksum `chk`.
pub open spec fn is_reset(o: CtxTable, n: CtxTable, ix: int, chk: u8) -> bool {
    &&& n.cp@ == o.cp@.update(ix, 0i16)
    &&& n.cn@ == o.cn@.update(ix, 0u8)
    &&& n.st@ == o.st@.update(ix, 0u8)
    &&& n.ck@ == o.ck@.update(ix, chk)
}

impl Cm {
    /// Finds (claiming it if needed) model `i`'s slot for the current bit.
    fn find_slot(&mut self, i: usize) -> (ix: usize)
        requires
            old(self).tables_wf(),
            i < NCTX,
        ensures
            final(self).tables_wf(),
            ix == old(self).chosen_slot(i as int),
            ix < old(self).tsize(i as int),
            old(self).slot_claimed(i as int) ==> is_reset(
                old(self).tab@[i as int],
                final(self).tab@[i as int],
                ix as int,
                old(self).bucket_chk(i as int),
            ),
            !old(self).slot_claimed(i as int) ==> final(self).tab@[i as int] == old(
                self,
            ).tab@[i as int],
            forall|j: int| 0 <= j < NCTX && j != i ==> #[trigger] final(self).tab@[j] == old(self).tab@[j],
            *final(self) == (Cm { tab: final(self).tab, ..*old(self) }),
    {
        let h = self.ctxhash[i].wrapping_mul(769).wrapping_add(self.c0 as u32);
        let tl = self.tab[i].cp.len();
        if self.assoc[i] {
            let bm = self.bmask[i];
            let hb = h & bm;
            assert(hb <= bm) by (bit_vector)
                requires
                    hb == h & bm,
            ;
            assert((hb << WAYS_LOG) as int == hb as int * 8) by (bit_vector)
                requires
                    hb <= bm,
                    bm < 0x1000_0000,
            ;
            let base = (hb << WAYS_LOG) as usize;
            let chk = (h >> self.cshift[i]) as u8;
            let ghost t0 = self.tab@[i as int];
            let mut wl: usize = 0;
            let mut lo = self.tab[i].cn[base];
            let mut k: usize = 0;
            while k < WAYS
                invariant
                    k <= 8,
                    old(self).tables_wf(),
                    base + 8 <= tl,
                    tl == t0.cp@.len(),
                    t0 == self.tab@[i as int],
                    self.tab@.len() == NCTX,
                    i < NCTX,
                    t0.wf(),
                    base == old(self).bucket_base(i as int),
                    chk == old(self).bucket_chk(i as int),
                    old(self).assoc[i as int],
                    *self == *old(self),
                    forall|j: int| 0 <= j < k ==> #[trigger] t0.ck@[base + j] != chk,
                    first_match_from(t0, base as int, chk, 0) == first_match_from(
                        t0,
                        base as int,
                        chk,
                        k as int,
                    ),
                    k == 0 ==> wl == 0,
                    k > 0 ==> wl == least_used(t0, base as int, k - 1),
                    lo == t0.cn@[base + wl],
                    wl < 8,
                decreases 8 - k,
            {
                if self.tab[i].ck[base + k] == chk {
                    proof {
                        assert(t0.ck@[base + k] == chk);
                        assert(first_match_from(t0, base as int, chk, k as int) == k);
                        assert(old(self).bucket_match(i as int) == k);
                    }
                    return base + k;
                }
                if self.tab[i].cn[base + k] < lo {
                    lo = self.tab[i].cn[base + k];
                    wl = k;
                }
                k += 1;
            }
            let t = &mut self.tab[i];
            t.cp.set(base + wl, 0);
            t.cn.set(base + wl, 0);
            t.st.set(base + wl, 0);
            t.ck.set(base + wl, chk);
            base + wl
        } else {
            let m = self.tmask[i];
            let ix = h & m;
            assert(ix <= m) by (bit_vector)
                requires
                    ix == h & m,
            ;
            ix as usize
        }
    }
}


/// State-map cell of a bit-history state at a bit position.
pub open spec fn sm_cell(st: u8, bitcount: i32) -> int {
    st as int + 256 * bitcount
}

impl Cm {
    /// Logit of model `i`'s direct counter in the slot chosen for it.
    pub open spec fn counter_input(&self, i: int) -> i32 {
        self.tables.stretch16@[self.tab@[i].cp@[self.idx[i] as int] + 32768]
    }

    /// Logit of model `i`'s state-map cell.
    pub open spec fn state_input(&self, i: int) -> i32 {
        self.tables.stretch16@[(self.sm@[i * 2048 + self.sm_idx[i]] >> 16u32) as int]
    }

    /// Chooses every model's slot for the current bit and feeds its counter
    /// and its bit-history state map to the mixer inputs.
    pub(crate) fn load_slots(&mut self)
        requires
            old(self).wf(),
        ensures
            final(self).wf(),
            forall|i: int|
                0 <= i < NCTX ==> #[trigger] final(self).idx[i] == old(self).chosen_slot(i),
            forall|i: int|
                0 <= i < NCTX && old(self).slot_claimed(i) ==> is_reset(
                    #[trigger] old(self).tab@[i],
                    final(self).tab@[i],
                    final(self).idx[i] as int,
                    old(self).bucket_chk(i),
                ),
            forall|i: int|
                0 <= i < NCTX && !old(self).slot_claimed(i) ==> #[trigger] final(self).tab@[i]
                    == old(self).tab@[i],
            forall|i: int|
                0 <= i < NCTX ==> #[trigger] final(self).sm_idx[i] == sm_cell(
                    final(self).tab@[i].st@[final(self).idx[i] as int],
                    old(self).bitcount,
                ),
            forall|i: int|
                0 <= i < NCTX ==> #[trigger] final(self).mix_in[i] == final(self).counter_input(i),
            forall|i: int|
                0 <= i < NCTX ==> #[trigger] final(self).mix_in[SM_BASE + i]
                    == final(self).state_input(i),
            forall|n: int|
                2 * NCTX <= n < NINPUT ==> #[trigger] final(self).mix_in[n] == old(self).mix_in[n],
            *final(self) == (Cm {
                tab: final(self).tab,
                idx: final(self).idx,
                sm_idx: final(self).sm_idx,
                mix_in: final(self).mix_in,
                ..*old(self)
            }),
    {
        let mut i: usize = 0;
        while i < NCTX
            invariant
                i <= NCTX,
                self.wf(),
                old(self).wf(),
                *self == (Cm {
                    tab: self.tab,
                    idx: self.idx,
                    sm_idx: self.sm_idx,
                    mix_in: self.mix_in,
                    ..*old(self)
                }),
                forall|j: int|
                    i <= j < NCTX ==> #[trigger] self.tab@[j] == old(self).tab@[j],
                forall|j: int|
                    0 <= j < i ==> #[trigger] self.idx[j] == old(self).chosen_slot(j),
                forall|j: int|
                    0 <= j < i && old(self).slot_claimed(j) ==> is_reset(
                        #[trigger] old(self).tab@[j],
                        self.tab@[j],
                        self.idx[j] as int,
                        old(self).bucket_chk(j),
                    ),
                forall|j: int|
                    0 <= j < i && !old(self).slot_claimed(j) ==> #[trigger] self.tab@[j]
                        == old(self).tab@[j],
                forall|j: int|
                    0 <= j < i ==> #[trigger] self.sm_idx[j] == sm_cell(
                        self.tab@[j].st@[self.idx[j] as int],
                        old(self).bitcount,
                    ),
                forall|j: int| 0 <= j < i ==> #[trigger] self.mix_in[j] == self.counter_input(j),
                forall|j: int|
                    0 <= j < i ==> #[trigger] self.mix_in[SM_BASE + j] == self.state_input(j),
                forall|n: int|
                    2 * NCTX <= n < NINPUT ==> #[trigger] self.mix_in[n] == old(self).mix_in[n],
            decreases NCTX - i,
        {
            let ghost before = *self;
            assert(before.chosen_slot(i as int) == old(self).chosen_slot(i as int));
            assert(before.slot_claimed(i as int) == old(self).slot_claimed(i as int));
            assert(before.bucket_chk(i as int) == old(self).bucket_chk(i as int));
            let ix = self.find_slot(i);
            let ghost mid = *self;
            let cp = self.tab[i].cp[ix];
            let st = self.tab[i].st[ix];
            let bc = self.bitcount;
            let mi = st as usize + 256 * (bc as usize);
            let e = self.sm[i * 2048 + mi];
            proof {
                lemma_mask_bounds();
            }
            let c_in = self.tables.stretch16[(cp as i32 + 32768) as usize];
            let s_in = self.tables.stretch16[(e >> 16) as usize];
            self.idx[i] = ix;
            self.sm_idx[i] = mi;
            self.mix_in[i] = c_in;
            self.mix_in[SM_BASE + i] = s_in;
            proof {
                assert(ix < self.tsize(i as int));
                assert(mi < 2048);
                assert forall|j: int| 0 <= j < NCTX implies {
                    &&& (#[trigger] self.tab@[j]).wf()
                    &&& self.tab@[j].len() == self.tsize(j)
                    &&& self.idx[j] < self.tsize(j)
                    &&& self.sm_idx[j] < 2048
                } by {
                    assert(mid.tab@[j].wf());
                    assert(mid.tab@[j].len() == mid.tsize(j));
                    if j != i {
                        assert(mid.idx[j] < mid.tsize(j));
                        assert(mid.sm_idx[j] < 2048);
                        assert(self.idx[j] == before.idx[j]);
                        assert(self.sm_idx[j] == before.sm_idx[j]);
                    }
                }
                assert(self.tables_wf());
                assert(self.mixers_wf());
            }
            i += 1;
        }
    }
}

} // verus!
