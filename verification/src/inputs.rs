use vstd::prelude::*;
use crate::bits::lemma_mask_bounds;
use crate::model::{
    pow2_bit, Cm, MatchModel, DMC_IN, MM_BASE, MM_LCAP, NINPUT, NRUN, RUN_BASE, RUN_CTX,
};

verus! {

/// The bits of the current byte seen so far agree with the predicted byte.
pub open spec fn prefix_agrees(pbyte: int, c0: int, bc: int) -> bool {
    c0 - pow2_bit(bc) == pbyte / pow2_bit(8 - bc)
}

/// The bit the predicted byte has at bit position `bc` (0 = most significant).
pub open spec fn expected_bit(pbyte: int, bc: int) -> int {
    (pbyte / pow2_bit(7 - bc)) % 2
}

/// `2^b` for `0 <= b <= 8`.
pub fn bit_weight(b: i32) -> (r: i32)
    requires
        0 <= b <= 8,
    ensures
        r == pow2_bit(b as int),
        1 <= r <= 256,
{
    proof {
        vstd::arithmetic::power2::lemma2_to64();
    }
    if b == 0 {
        1
    } else if b == 1 {
        2
    } else if b == 2 {
        4
    } else if b == 3 {
        8
    } else if b == 4 {
        16
    } else if b == 5 {
        32
    } else if b == 6 {
        64
    } else if b == 7 {
        128
    } else {
        256
    }
}

/// A match model predicts the current bit: it has a match, a predicted byte,
/// and the bits coded so far agree with that byte.
pub open spec fn mm_active(m: MatchModel, c0: i32, bc: i32) -> bool {
    m.len > 0 && m.pbyte >= 0 && prefix_agrees(m.pbyte as int, c0 as int, bc as int)
}

/// The state-map cell of an active match model: its length (capped) and the
/// expected bit.
pub open spec fn mm_cell(m: MatchModel, j: int, bc: i32) -> int {
    2 * (if m.len > MM_LCAP[j] {
        MM_LCAP[j] as int
    } else {
        m.len as int
    }) + expected_bit(m.pbyte as int, bc as int)
}

/// A match model after it has been consulted for the current bit: an active
/// one records its cell; one whose predicted byte was contradicted loses its
/// match.
pub open spec fn mm_after(m: MatchModel, j: int, c0: i32, bc: i32) -> MatchModel {
    if mm_active(m, c0, bc) {
        MatchModel { used: true, idx: mm_cell(m, j, bc) as usize, ..m }
    } else if m.len > 0 && m.pbyte >= 0 {
        MatchModel { used: false, len: 0, ..m }
    } else {
        MatchModel { used: false, ..m }
    }
}

/// A run map predicts the current bit: it holds a byte whose bits so far
/// agree with the current byte.
pub open spec fn run_active(pbyte: i32, c0: i32, bc: i32) -> bool {
    pbyte >= 0 && prefix_agrees(pbyte as int, c0 as int, bc as int)
}

/// State-map cell of an active run map: run count (capped at 63) and the
/// expected bit.
pub open spec fn run_cell(cnt: i32, pbyte: i32, bc: i32) -> int {
    2 * (if cnt > 63 {
        63
    } else {
        cnt as int
    }) + expected_bit(pbyte as int, bc as int)
}

/// A run-table slot holds the context's checksum and a nonzero count.
pub open spec fn run_hit(slot: u32, h: u32, runbits: u32) -> bool {
    (slot >> 16u32) as u8 == (h >> runbits) as u8 && (slot >> 8u32) & 0xff != 0
}

impl Cm {
    /// Mixer input of match model `j`.
    pub open spec fn mm_input(&self, j: int) -> i32 {
        if self.mm@[j].used {
            self.tables.stretch16@[(self.mm@[j].sm@[self.mm@[j].idx as int] >> 16u32) as int]
        } else {
            0
        }
    }

    pub open spec fn run_size(&self) -> int {
        self.runmask as int + 1
    }

    /// Run map `j`'s slot for the context of the current byte.
    pub open spec fn run_slot(&self, j: int) -> u32 {
        self.runtab@[j * self.run_size() + (self.ctxhash[RUN_CTX[j] as int] & self.runmask) as int]
    }

    /// Run map `j` remembers a byte for the current context.
    pub open spec fn run_found(&self, j: int) -> bool {
        run_hit(self.run_slot(j), self.ctxhash[RUN_CTX[j] as int], self.runbits)
    }

    /// Run map `j`'s remembered byte as the bit is predicted: freshly read
    /// from the table at the first bit of a byte, else as last left.
    pub open spec fn run_pbyte0(&self, j: int) -> i32 {
        if self.bitcount == 0 {
            if self.run_found(j) {
                (self.run_slot(j) & 0xff) as i32
            } else {
                -1i32
            }
        } else {
            self.run_pbyte[j]
        }
    }

    /// Run map `j`'s run count as the bit is predicted.
    pub open spec fn run_cnt0(&self, j: int) -> i32 {
        if self.bitcount == 0 {
            if self.run_found(j) {
                ((self.run_slot(j) >> 8u32) & 0xff) as i32
            } else {
                0i32
            }
        } else {
            self.run_cnt[j]
        }
    }

    /// Mixer input of run map `j`.
    pub open spec fn run_input(&self, j: int) -> i32 {
        if self.run_used[j] {
            self.tables.stretch16@[(self.run_sm@[j * 128 + self.run_idx[j]] >> 16u32) as int]
        } else {
            0
        }
    }

    /// Consults match model `j` for the current bit.
    fn match_input(&mut self, j: usize)
        requires
            old(self).wf(),
            j < 6,
        ensures
            final(self).wf(),
            final(self).mm@ == old(self).mm@.update(
                j as int,
                mm_after(old(self).mm@[j as int], j as int, old(self).c0, old(self).bitcount),
            ),
            final(self).mix_in[MM_BASE + j] == final(self).mm_input(j as int),
            forall|n: int|
                0 <= n < NINPUT && n != MM_BASE + j ==> #[trigger] final(self).mix_in[n] == old(self).mix_in[n],
            *final(self) == (Cm { mm: final(self).mm, mix_in: final(self).mix_in, ..*old(self) }),
    {
        let c0 = self.c0;
        let bc = self.bitcount;
        let len = self.mm[j].len;
        let pb = self.mm[j].pbyte;
        let ghost m0 = self.mm@[j as int];
        proof {
            lemma_mask_bounds();
            assert(m0.wf(j as int));
        }
        if len > 0 && pb >= 0 {
            let sofar = c0 - bit_weight(bc);
            if sofar == pb / bit_weight(8 - bc) {
                let e = (pb / bit_weight(7 - bc)) % 2;
                let cap = MM_LCAP[j];
                let li = if len > cap {
                    cap
                } else {
                    len
                };
                let cell = (2 * li + e) as usize;
                let v = self.mm[j].sm[cell];
                let x = self.tables.stretch16[(v >> 16) as usize];
                self.mm[j].used = true;
                self.mm[j].idx = cell;
                self.mix_in[MM_BASE + j] = x;
            } else {
                self.mm[j].len = 0;
                self.mm[j].used = false;
                self.mix_in[MM_BASE + j] = 0;
            }
        } else {
            self.mm[j].used = false;
            self.mix_in[MM_BASE + j] = 0;
        }
        proof {
            assert(self.mm@[j as int] == mm_after(m0, j as int, c0, bc));
            assert forall|k: int| 0 <= k < 6 implies (#[trigger] self.mm@[k]).wf(k) by {
                if k != j {
                    assert(self.mm@[k] == old(self).mm@[k]);
                }
            }
        }
    }

    /// Consults the six match models for the current bit.
    pub(crate) fn match_inputs(&mut self)
        requires
            old(self).wf(),
        ensures
            final(self).wf(),
            final(self).mm@.len() == 6,
            forall|j: int|
                0 <= j < 6 ==> #[trigger] final(self).mm@[j] == mm_after(
                    old(self).mm@[j],
                    j,
                    old(self).c0,
                    old(self).bitcount,
                ),
            forall|j: int|
                0 <= j < 6 ==> #[trigger] final(self).mix_in[MM_BASE + j] == final(self).mm_input(
                    j,
                ),
            forall|n: int|
                0 <= n < NINPUT && !(MM_BASE <= n < MM_BASE + 6) ==> #[trigger] final(self).mix_in[n]
                    == old(self).mix_in[n],
            *final(self) == (Cm { mm: final(self).mm, mix_in: final(self).mix_in, ..*old(self) }),
    {
        let mut j: usize = 0;
        while j < 6
            invariant
                j <= 6,
                self.wf(),
                self.mm@.len() == 6,
                *self == (Cm { mm: self.mm, mix_in: self.mix_in, ..*old(self) }),
                forall|k: int|
                    0 <= k < j ==> #[trigger] self.mm@[k] == mm_after(
                        old(self).mm@[k],
                        k,
                        old(self).c0,
                        old(self).bitcount,
                    ),
                forall|k: int| j <= k < 6 ==> #[trigger] self.mm@[k] == old(self).mm@[k],
                forall|k: int|
                    0 <= k < j ==> #[trigger] self.mix_in[MM_BASE + k] == self.mm_input(k),
                forall|n: int|
                    0 <= n < NINPUT && !(MM_BASE <= n < MM_BASE + j) ==> #[trigger] self.mix_in[n]
                        == old(self).mix_in[n],
            decreases 6 - j,
        {
            self.match_input(j);
            j += 1;
        }
    }

    /// At the first bit of a byte, reads each run map's slot for the new
    /// byte's context: the remembered byte and its run count on a hit,
    /// nothing otherwise.
    pub(crate) fn run_load(&mut self)
        requires
            old(self).wf(),
        ensures
            final(self).wf(),
            forall|j: int|
                0 <= j < NRUN ==> #[trigger] final(self).run_pbyte[j] == if old(self).run_found(j) {
                    (old(self).run_slot(j) & 0xff) as i32
                } else {
                    -1i32
                },
            forall|j: int|
                0 <= j < NRUN ==> #[trigger] final(self).run_cnt[j] == if old(self).run_found(j) {
                    ((old(self).run_slot(j) >> 8u32) & 0xff) as i32
                } else {
                    0i32
                },
            *final(self) == (Cm {
                run_pbyte: final(self).run_pbyte,
                run_cnt: final(self).run_cnt,
                ..*old(self)
            }),
    {
        proof {
            vstd::arithmetic::power2::lemma2_to64();
        }
        let size = self.runmask as usize + 1;
        let mut j: usize = 0;
        while j < NRUN
            invariant
                j <= NRUN,
                self.wf(),
                old(self).wf(),
                size == old(self).run_size(),
                1 <= size <= 0x10_0000,
                *self == (Cm { run_pbyte: self.run_pbyte, run_cnt: self.run_cnt, ..*old(self) }),
                forall|k: int|
                    0 <= k < j ==> #[trigger] self.run_pbyte[k] == if old(self).run_found(k) {
                        (old(self).run_slot(k) & 0xff) as i32
                    } else {
                        -1i32
                    },
                forall|k: int|
                    0 <= k < j ==> #[trigger] self.run_cnt[k] == if old(self).run_found(k) {
                        ((old(self).run_slot(k) >> 8u32) & 0xff) as i32
                    } else {
                        0i32
                    },
            decreases NRUN - j,
        {
            proof {
                lemma_mask_bounds();
            }
            let h = self.ctxhash[RUN_CTX[j]];
            let m = self.runmask;
            let off = (h & m) as usize;
            proof {
                assert(j * size + off < NRUN * size && NRUN * size <= 27 * 0x10_0000) by (
                nonlinear_arith)
                    requires
                        j < NRUN,
                        off < size,
                        size <= 0x10_0000,
                ;
            }
            let slot = self.runtab[j * size + off];
            let pb: i32;
            let cnt: i32;
            if (slot >> 16) as u8 == (h >> self.runbits) as u8 && ((slot >> 8) & 0xff) != 0 {
                pb = (slot & 0xff) as i32;
                cnt = ((slot >> 8) & 0xff) as i32;
            } else {
                pb = -1;
                cnt = 0;
            }
            self.run_pbyte[j] = pb;
            self.run_cnt[j] = cnt;
            proof {
                assert forall|k: int| 0 <= k < NRUN implies {
                    &&& #[trigger] self.run_idx[k] < 128
                    &&& -1 <= self.run_pbyte[k] <= 255
                    &&& 0 <= self.run_cnt[k] <= 255
                } by {
                    assert(old(self).run_idx[k] < 128);
                }
            }
            j += 1;
        }
    }

    /// Consults every run map for the current bit; a map whose byte the
    /// current bits contradict forgets it for the rest of the byte.
    pub(crate) fn run_inputs(&mut self)
        requires
            old(self).wf(),
        ensures
            final(self).wf(),
            forall|j: int|
                0 <= j < NRUN ==> #[trigger] final(self).run_used[j] == run_active(
                    old(self).run_pbyte[j],
                    old(self).c0,
                    old(self).bitcount,
                ),
            forall|j: int|
                0 <= j < NRUN ==> #[trigger] final(self).run_pbyte[j] == if old(self).run_pbyte[j]
                    >= 0 && !run_active(old(self).run_pbyte[j], old(self).c0, old(self).bitcount) {
                    -1i32
                } else {
                    old(self).run_pbyte[j]
                },
            forall|j: int|
                0 <= j < NRUN ==> #[trigger] final(self).run_idx[j] == if run_active(
                    old(self).run_pbyte[j],
                    old(self).c0,
                    old(self).bitcount,
                ) {
                    run_cell(old(self).run_cnt[j], old(self).run_pbyte[j], old(self).bitcount) as usize
                } else {
                    old(self).run_idx[j]
                },
            forall|j: int|
                0 <= j < NRUN ==> #[trigger] final(self).mix_in[RUN_BASE + j] == final(self).run_input(j),
            forall|n: int|
                0 <= n < RUN_BASE ==> #[trigger] final(self).mix_in[n] == old(self).mix_in[n],
            *final(self) == (Cm {
                run_pbyte: final(self).run_pbyte,
                run_used: final(self).run_used,
                run_idx: final(self).run_idx,
                mix_in: final(self).mix_in,
                ..*old(self)
            }),
    {
        proof {
            lemma_mask_bounds();
        }
        let c0 = self.c0;
        let bc = self.bitcount;
        let sofar = c0 - bit_weight(bc);
        let w8 = bit_weight(8 - bc);
        let w7 = bit_weight(7 - bc);
        let mut j: usize = 0;
        while j < NRUN
            invariant
                j <= NRUN,
                self.wf(),
                old(self).wf(),
                c0 == old(self).c0,
                bc == old(self).bitcount,
                sofar == c0 - pow2_bit(bc as int),
                w8 == pow2_bit(8 - bc),
                w7 == pow2_bit(7 - bc),
                1 <= w8,
                1 <= w7,
                *self == (Cm {
                    run_pbyte: self.run_pbyte,
                    run_used: self.run_used,
                    run_idx: self.run_idx,
                    mix_in: self.mix_in,
                    ..*old(self)
                }),
                forall|k: int|
                    j <= k < NRUN ==> #[trigger] self.run_pbyte[k] == old(self).run_pbyte[k],
                forall|k: int|
                    0 <= k < j ==> #[trigger] self.run_used[k] == run_active(
                        old(self).run_pbyte[k],
                        c0,
                        bc,
                    ),
                forall|k: int|
                    0 <= k < j ==> #[trigger] self.run_pbyte[k] == if old(self).run_pbyte[k] >= 0
                        && !run_active(old(self).run_pbyte[k], c0, bc) {
                        -1i32
                    } else {
                        old(self).run_pbyte[k]
                    },
                forall|k: int|
                    0 <= k < NRUN ==> #[trigger] self.run_idx[k] == if k < j && run_active(
                        old(self).run_pbyte[k],
                        c0,
                        bc,
                    ) {
                        run_cell(old(self).run_cnt[k], old(self).run_pbyte[k], bc) as usize
                    } else {
                        old(self).run_idx[k]
                    },
                forall|k: int|
                    0 <= k < j ==> #[trigger] self.mix_in[RUN_BASE + k] == self.run_input(k),
                forall|n: int|
                    0 <= n < NINPUT && !(RUN_BASE <= n < RUN_BASE + j) ==> #[trigger] self.mix_in[n]
                        == old(self).mix_in[n],
            decreases NRUN - j,
        {
            proof {
                lemma_mask_bounds();
                assert(self.run_idx[j as int] < 128);
            }
            let pb = self.run_pbyte[j];
            let mut used = false;
            let mut x: i32 = 0;
            if pb >= 0 {
                if sofar == pb / w8 {
                    let e = (pb / w7) % 2;
                    let c = self.run_cnt[j];
                    let cnt = if c > 63 {
                        63
                    } else {
                        c
                    };
                    let sidx = (2 * cnt + e) as usize;
                    let v = self.run_sm[j * 128 + sidx];
                    x = self.tables.stretch16[(v >> 16) as usize];
                    self.run_idx[j] = sidx;
                    used = true;
                } else {
                    self.run_pbyte[j] = -1;
                }
            }
            self.run_used[j] = used;
            self.mix_in[RUN_BASE + j] = x;
            proof {
                assert forall|k: int| 0 <= k < NRUN implies {
                    &&& #[trigger] self.run_idx[k] < 128
                    &&& -1 <= self.run_pbyte[k] <= 255
                    &&& 0 <= self.run_cnt[k] <= 255
                } by {
                    assert(old(self).run_idx[k] < 128);
                    assert(old(self).run_pbyte[k] <= 255);
                }
                assert(self.mixers_wf());
            }
            j += 1;
        }
    }

    /// Feeds the caller's variable-order Markov and context-tree predictions
    /// (logits, in input order) to the mixer.
    pub(crate) fn side_inputs(&mut self, side: [i32; 6])
        requires
            old(self).wf(),
            forall|k: int| 0 <= k < 6 ==> -2048 <= #[trigger] side[k] <= 2047,
        ensures
            final(self).wf(),
            forall|k: int| 0 <= k < 6 ==> #[trigger] final(self).mix_in[DMC_IN + k] == side[k],
            forall|n: int|
                0 <= n < NINPUT && !(DMC_IN <= n < DMC_IN + 6) ==> #[trigger] final(self).mix_in[n]
                    == old(self).mix_in[n],
            *final(self) == (Cm { mix_in: final(self).mix_in, ..*old(self) }),
    {
        let mut k: usize = 0;
        while k < 6
            invariant
                k <= 6,
                self.wf(),
                forall|q: int| 0 <= q < 6 ==> -2048 <= #[trigger] side[q] <= 2047,
                *self == (Cm { mix_in: self.mix_in, ..*old(self) }),
                forall|q: int| 0 <= q < k ==> #[trigger] self.mix_in[DMC_IN + q] == side[q],
                forall|n: int|
                    0 <= n < NINPUT && !(DMC_IN <= n < DMC_IN + k) ==> #[trigger] self.mix_in[n]
                        == old(self).mix_in[n],
            decreases 6 - k,
        {
            self.mix_in[DMC_IN + k] = side[k];
            k += 1;
        }
    }
}

} // verus!
