use vstd::prelude::*;
use crate::history::lemma_invariant_frame;
use crate::model::{Cm, MatchModel, MAXLEN, MM_BITS, MM_MINLEN, NCTX, NRUN, RUN_CTX};

verus! {

/// History each match model needs before it hashes a context.
pub const MM_NEED: [u32; 6] = [6, 8, 10, 12, 14, 2];
/// Multipliers of the bytes five and more back in the match-model hashes.
pub const MM_MUL: [u32; 10] = [
    0x85eb_ca6b, 0xc2b2_ae35, 0x27d4_eb2f, 0x1656_67b1, 0xff51_afd7, 0xc4ce_b9fe, 0x52dc_e729,
    0x9e37_79b9, 0x7f4a_7c15, 0x94d0_49bb,
];

/// A match after `byte` is coded: extended by one byte if it predicted the
/// byte (its length growing up to the limit), dropped otherwise.
pub open spec fn mm_extended(m: MatchModel, byte: u8) -> MatchModel {
    if m.len > 0 {
        if (m.pbyte & 0xffi32) as u8 == byte {
            MatchModel {
                ptr: (m.ptr + 1) as u32,
                len: if m.len < MAXLEN {
                    (m.len + 1) as i32
                } else {
                    m.len
                },
                ..m
            }
        } else {
            MatchModel { len: 0, ..m }
        }
    } else {
        m
    }
}

/// Length kept for a new match of `l` verified bytes: the order-6 model
/// keeps any candidate (at least 1), the others need their minimum length.
pub open spec fn kept_len(j: int, l: int) -> int {
    if j == 0 {
        if l > 0 {
            l
        } else {
            1
        }
    } else if l >= MM_MINLEN[j] {
        l
    } else {
        0
    }
}

impl Cm {
    /// Hash of the last four bytes and the bytes five to `n` back.
    pub open spec fn mm_hash(&self, n: int) -> u32
        decreases n,
    {
        if n <= 4 {
            self.c4.wrapping_mul(2654435761)
        } else {
            self.mm_hash(n - 1).wrapping_add(self.back(n).wrapping_mul(MM_MUL[n - 5]))
        }
    }

    /// Match model `j`'s table slot for the current context.
    pub open spec fn mm_key(&self, j: int) -> int {
        if j == 5 {
            ((self.c4 & 0xffff).wrapping_mul(2654435761) >> 9u32) as int
        } else {
            (self.mm_hash(MM_NEED[j] as int) >> (32 - MM_BITS[j]) as u32) as int
        }
    }

    /// How many bytes before `cand` agree with the bytes before the current
    /// position, counting from `l` (at most 1023).
    pub open spec fn extent_from(&self, cand: u32, l: int) -> int
        decreases 0x3ff - l,
    {
        if 0 <= l < 0x3ff && cand > l && self.pos > l + 1 && self.byte_at((cand - 1 - l) as u32)
            == self.byte_at((self.pos - 1 - l) as u32) {
            self.extent_from(cand, l + 1)
        } else {
            l
        }
    }

    /// Match model `j` finds a new candidate: it has enough history, no
    /// match, and its slot holds an earlier position.
    pub open spec fn mm_found(&self, m: MatchModel, j: int) -> bool {
        let cand = m.tab@[self.mm_key(j)];
        self.pos >= MM_NEED[j] && m.len == 0 && cand > 0 && cand < self.pos
    }

    /// Extends or drops every match after `byte`.
    pub(crate) fn extend_matches(&mut self, byte: u8)
        requires
            old(self).wf(),
            forall|j: int| 0 <= j < 6 ==> (#[trigger] old(self).mm@[j]).ptr < old(self).pos,
        ensures
            final(self).wf(),
            final(self).mm@.len() == 6,
            forall|j: int| 0 <= j < 6 ==> #[trigger] final(self).mm@[j] == mm_extended(old(self).mm@[j], byte),
            *final(self) == (Cm { mm: final(self).mm, ..*old(self) }),
    {
        let mut j: usize = 0;
        while j < 6
            invariant
                j <= 6,
                self.wf(),
                old(self).wf(),
                self.mm@.len() == 6,
                *self == (Cm { mm: self.mm, ..*old(self) }),
                forall|k: int| 0 <= k < 6 ==> (#[trigger] old(self).mm@[k]).ptr < old(self).pos,
                forall|k: int| 0 <= k < j ==> #[trigger] self.mm@[k] == mm_extended(old(self).mm@[k], byte),
                forall|k: int| j <= k < 6 ==> #[trigger] self.mm@[k] == old(self).mm@[k],
            decreases 6 - j,
        {
            let ghost s0 = *self;
            proof {
                assert(self.mm@[j as int].wf(j as int));
                assert(self.mm@[j as int].ptr < self.pos);
            }
            if self.mm[j].len > 0 {
                if (self.mm[j].pbyte & 0xff) as u8 == byte {
                    self.mm[j].ptr = self.mm[j].ptr + 1;
                    if self.mm[j].len < MAXLEN {
                        self.mm[j].len = self.mm[j].len + 1;
                    }
                } else {
                    self.mm[j].len = 0;
                }
            }
            proof {
                assert forall|k: int| 0 <= k < 6 implies (#[trigger] self.mm@[k]).wf(k)
                    && self.mm@[k].ptr <= self.pos by {
                    assert(s0.mm@[k].wf(k));
                    assert(s0.mm@[k].ptr <= s0.pos);
                }
                assert(self.positions_wf());
                lemma_invariant_frame(*self, s0);
            }
            j += 1;
        }
    }

    pub(crate) fn mm_key_exec(&self, j: usize) -> (r: usize)
        requires
            self.wf(),
            j < 6,
            self.pos >= MM_NEED[j as int],
        ensures
            r as int == self.mm_key(j as int),
            r < self.mm@[j as int].tab@.len(),
    {
        proof {
            crate::bits::lemma_mask_bounds();
            crate::bits::lemma_key_bounds();
            vstd::arithmetic::power2::lemma2_to64();
            assert(self.mm@[j as int].wf(j as int));
        }
        if j == 5 {
            ((self.c4 & 0xffff).wrapping_mul(2654435761) >> 9) as usize
        } else {
            let need = MM_NEED[j];
            let mut acc = self.c4.wrapping_mul(2654435761);
            let mut n: u32 = 5;
            while n <= need
                invariant
                    5 <= n <= need + 1,
                    need <= 14,
                    need <= self.pos,
                    self.history_wf(),
                    acc == self.mm_hash(n - 1),
                decreases need + 1 - n,
            {
                acc = acc.wrapping_add(self.bk(n).wrapping_mul(MM_MUL[(n - 5) as usize]));
                n = n + 1;
            }
            if j == 2 {
                (acc >> 10) as usize
            } else {
                (acc >> 9) as usize
            }
        }
    }

    /// Length of the agreement before `cand` and before the current position.
    pub(crate) fn extent(&self, cand: u32) -> (l: i32)
        requires
            self.history_wf(),
        ensures
            l as int == self.extent_from(cand, 0),
            0 <= l <= 0x3ff,
    {
        let mut l: i32 = 0;
        while l < 0x3ff && cand > l as u32 && self.pos > l as u32 + 1
            invariant
                0 <= l <= 0x3ff,
                self.history_wf(),
                self.extent_from(cand, 0) == self.extent_from(cand, l as int),
            ensures
                0 <= l <= 0x3ff,
                self.extent_from(cand, 0) == l,
            decreases 0x3ff - l,
        {
            if self.b(cand - 1 - l as u32) != self.b(self.pos - 1 - l as u32) {
                assert(self.extent_from(cand, l as int) == l);
                break;
            }
            l = l + 1;
        }
        l
    }
}


impl Cm {
    /// Match model `j` files the current position under its context and,
    /// if idle, takes up the earlier occurrence it finds there.
    pub(crate) fn search_match(&mut self, j: usize)
        requires
            old(self).wf(),
            j < 6,
        ensures
            final(self).wf(),
            final(self).mm@.len() == 6,
            ({
                let m = old(self).mm@[j as int];
                let key = old(self).mm_key(j as int);
                let cand = m.tab@[key];
                &&& final(self).mm@[j as int].tab@ == if old(self).pos >= MM_NEED[j as int] {
                    m.tab@.update(key, old(self).pos)
                } else {
                    m.tab@
                }
                &&& final(self).mm@[j as int].ptr == if old(self).mm_found(m, j as int) {
                    cand
                } else {
                    m.ptr
                }
                &&& final(self).mm@[j as int].len == if old(self).mm_found(m, j as int) {
                    kept_len(j as int, old(self).extent_from(cand, 0)) as i32
                } else {
                    m.len
                }
                &&& final(self).mm@[j as int] == (MatchModel {
                    tab: final(self).mm@[j as int].tab,
                    ptr: final(self).mm@[j as int].ptr,
                    len: final(self).mm@[j as int].len,
                    ..m
                })
            }),
            forall|k: int| 0 <= k < 6 && k != j ==> #[trigger] final(self).mm@[k] == old(self).mm@[k],
            *final(self) == (Cm { mm: final(self).mm, ..*old(self) }),
    {
        let ghost s0 = *self;
        proof {
            assert(self.mm@[j as int].wf(j as int));
        }
        let need = MM_NEED[j];
        if self.pos >= need {
            let h = self.mm_key_exec(j);
            let cand = self.mm[j].tab[h];
            let pos = self.pos;
            let found = self.mm[j].len == 0 && cand > 0 && cand < pos;
            let l = if found {
                self.extent(cand)
            } else {
                0
            };
            self.mm[j].tab.set(h, pos);
            if found {
                let keep = if j == 0 {
                    if l > 0 {
                        l
                    } else {
                        1
                    }
                } else if l >= MM_MINLEN[j] {
                    l
                } else {
                    0
                };
                self.mm[j].ptr = cand;
                self.mm[j].len = keep;
            }
        }
        proof {
            assert forall|k: int| 0 <= k < 6 implies (#[trigger] self.mm@[k]).wf(k)
                && self.mm@[k].ptr <= self.pos by {
                assert(s0.mm@[k].wf(k));
                assert(s0.mm@[k].ptr <= s0.pos);
            }
            assert(self.positions_wf());
            lemma_invariant_frame(*self, s0);
        }
    }

    /// Each match model's prediction for the next byte: the byte that
    /// followed its match, if it has one in the history.
    pub(crate) fn predict_bytes(&mut self)
        requires
            old(self).wf(),
        ensures
            final(self).wf(),
            final(self).mm@.len() == 6,
            forall|j: int|
                0 <= j < 6 ==> #[trigger] final(self).mm@[j] == (MatchModel {
                    pbyte: if old(self).mm@[j].len > 0 && old(self).mm@[j].ptr < old(self).pos {
                        old(self).byte_at(old(self).mm@[j].ptr) as i32
                    } else {
                        -1i32
                    },
                    ..old(self).mm@[j]
                }),
            *final(self) == (Cm { mm: final(self).mm, ..*old(self) }),
    {
        let mut j: usize = 0;
        while j < 6
            invariant
                j <= 6,
                self.wf(),
                old(self).wf(),
                self.mm@.len() == 6,
                *self == (Cm { mm: self.mm, ..*old(self) }),
                forall|k: int|
                    0 <= k < j ==> #[trigger] self.mm@[k] == (MatchModel {
                        pbyte: if old(self).mm@[k].len > 0 && old(self).mm@[k].ptr < old(self).pos {
                            old(self).byte_at(old(self).mm@[k].ptr) as i32
                        } else {
                            -1i32
                        },
                        ..old(self).mm@[k]
                    }),
                forall|k: int| j <= k < 6 ==> #[trigger] self.mm@[k] == old(self).mm@[k],
            decreases 6 - j,
        {
            let ghost s0 = *self;
            let pb: i32 = if self.mm[j].len > 0 && self.mm[j].ptr < self.pos {
                self.b(self.mm[j].ptr) as i32
            } else {
                -1
            };
            self.mm[j].pbyte = pb;
            proof {
                assert forall|k: int| 0 <= k < 6 implies (#[trigger] self.mm@[k]).wf(k)
                    && self.mm@[k].ptr <= self.pos by {
                    assert(s0.mm@[k].wf(k));
                    assert(s0.mm@[k].ptr <= s0.pos);
                }
                assert(self.positions_wf());
                lemma_invariant_frame(*self, s0);
            }
            j += 1;
        }
    }
}


/// A run-table slot after `byte` followed its context (hash `h`): the run
/// continues (count up to 255) if the slot held this context and byte,
/// otherwise a run of one starts.
pub open spec fn run_slot_after(slot: u32, h: u32, runbits: u32, byte: u8) -> u32 {
    let chk = (h >> runbits) as u8;
    if (slot >> 16u32) as u8 == chk && (slot & 0xff) as u8 == byte && (slot >> 8u32) & 0xff != 0 {
        let c = (slot >> 8u32) & 0xff;
        let nc = (if c < 254 {
            c
        } else {
            254u32
        }) + 1;
        ((chk as u32) << 16u32) | ((nc as u32) << 8u32) | (byte as u32)
    } else {
        ((chk as u32) << 16u32) | (1u32 << 8u32) | (byte as u32)
    }
}

impl Cm {
    /// Records in each run map that `byte` followed its context.
    #[verifier::spinoff_prover]
    pub(crate) fn record_runs(&mut self, byte: u8)
        requires
            old(self).wf(),
        ensures
            final(self).wf(),
            final(self).runtab@.len() == old(self).runtab@.len(),
            forall|j: int, c: int|
                0 <= j < NRUN && 0 <= c < old(self).run_size() ==> #[trigger] final(self).runtab@[j
                    * old(self).run_size() + c] == if c == (old(self).ctxhash[RUN_CTX[j] as int]
                    & old(self).runmask) {
                    run_slot_after(
                        old(self).runtab@[j * old(self).run_size() + c],
                        old(self).ctxhash[RUN_CTX[j] as int],
                        old(self).runbits,
                        byte,
                    )
                } else {
                    old(self).runtab@[j * old(self).run_size() + c]
                },
            *final(self) == (Cm { runtab: final(self).runtab, ..*old(self) }),
    {
        proof {
            vstd::arithmetic::power2::lemma2_to64();
        }
        let size = self.runmask as usize + 1;
        let mut j: usize = 0;
        while j < NRUN
            invariant
                j <= NRUN,
                self.wf(),
                old(self).wf(),
                size == old(self).run_size(),
                1 <= size <= 0x10_0000,
                self.runtab@.len() == old(self).runtab@.len(),
                *self == (Cm { runtab: self.runtab, ..*old(self) }),
                forall|k: int, c: int|
                    0 <= k < NRUN && 0 <= c < size ==> #[trigger] self.runtab@[k * size + c] == if k < j
                        && c == (old(self).ctxhash[RUN_CTX[k] as int] & old(self).runmask) {
                        run_slot_after(
                            old(self).runtab@[k * size + c],
                            old(self).ctxhash[RUN_CTX[k] as int],
                            old(self).runbits,
                            byte,
                        )
                    } else {
                        old(self).runtab@[k * size + c]
                    },
            decreases NRUN - j,
        {
            let ghost s0 = *self;
            proof {
                crate::bits::lemma_mask_bounds();
            }
            let h = self.ctxhash[RUN_CTX[j]];
            let off = (h & self.runmask) as usize;
            proof {
                assert(j * size + off < NRUN * size && NRUN * size <= 27 * 0x10_0000) by (
                nonlinear_arith)
                    requires
                        j < NRUN,
                        off < size,
                        size <= 0x10_0000,
                ;
            }
            let at = j * size + off;
            let chk = (h >> self.runbits) as u8;
            let slot = self.runtab[at];
            assert(slot == old(self).runtab@[j * size + off]);
            let newslot = if (slot >> 16) as u8 == chk && (slot & 0xff) as u8 == byte && ((slot >> 8)
                & 0xff) != 0 {
                let c = (slot >> 8) & 0xff;
                let nc = (if c < 254 {
                    c
                } else {
                    254
                }) + 1;
                ((chk as u32) << 16) | (nc << 8) | (byte as u32)
            } else {
                ((chk as u32) << 16) | (1u32 << 8) | (byte as u32)
            };
            self.runtab.set(at, newslot);
            assert(newslot == run_slot_after(slot, h, old(self).runbits, byte));
            proof {
                assert forall|k: int, c: int| 0 <= k < NRUN && 0 <= c < size implies #[trigger] self.runtab@[
                    k * size + c] == if k <= j && c == (old(self).ctxhash[RUN_CTX[k] as int]
                    & old(self).runmask) {
                    run_slot_after(
                        old(self).runtab@[k * size + c],
                        old(self).ctxhash[RUN_CTX[k] as int],
                        old(self).runbits,
                        byte,
                    )
                } else {
                    old(self).runtab@[k * size + c]
                } by {
                    crate::learn::lemma_cell_index(k, c, j as int, off as int, size as int);
                    assert(0 <= k * size + c < NRUN * size) by (nonlinear_arith)
                        requires
                            0 <= k < NRUN,
                            0 <= c < size,
                    ;
                    assert(off == (old(self).ctxhash[RUN_CTX[j as int] as int] & old(self).runmask));
                    if k == j && c == off {
                        assert(self.runtab@[k * size + c] == newslot);
                    } else {
                        assert(k * size + c != at);
                        assert(self.runtab@[k * size + c] == s0.runtab@[k * size + c]);
                    }
                }
                lemma_invariant_frame(*self, s0);
                assert(self.positions_wf() == s0.positions_wf());
                assert(self.history_wf() == s0.history_wf());
            }
            j += 1;
        }
    }
}


/// The context hashes of a state do not depend on the hashes, the byte
/// above or the indirect prediction it currently holds.
pub proof fn lemma_ctxhash_frame(a: Cm, b: Cm)
    requires
        a == (Cm { ctxhash: a.ctxhash, above_byte: a.above_byte, ind_pred: a.ind_pred, ..b }),
    ensures
        forall|i: int| 0 <= i < NCTX ==> #[trigger] a.spec_ctxhash(i) == b.spec_ctxhash(i),
        a.spec_above_byte() == b.spec_above_byte(),
{
    assert forall|i: int| 0 <= i < NCTX implies #[trigger] a.spec_ctxhash(i) == b.spec_ctxhash(i) by {
    }
}

/// Match hashes depend only on the history.
pub proof fn lemma_hash_frame(a: Cm, b: Cm, n: int)
    requires
        a.c4 == b.c4,
        a.buf@ == b.buf@,
        a.bufmask == b.bufmask,
        a.pos == b.pos,
    ensures
        a.mm_hash(n) == b.mm_hash(n),
    decreases n,
{
    if n > 4 {
        lemma_hash_frame(a, b, n - 1);
    }
}

/// Match extents depend only on the history.
pub proof fn lemma_extent_frame(a: Cm, b: Cm, cand: u32, l: int)
    requires
        a.buf@ == b.buf@,
        a.bufmask == b.bufmask,
        a.pos == b.pos,
    ensures
        a.extent_from(cand, l) == b.extent_from(cand, l),
    decreases 0x3ff - l,
{
    if 0 <= l < 0x3ff {
        lemma_extent_frame(a, b, cand, l + 1);
    }
}
impl Cm {
    /// Every match model files the current position and looks for a match.
    pub(crate) fn search_matches(&mut self)
        requires
            old(self).wf(),
        ensures
            final(self).wf(),
            final(self).mm@.len() == 6,
            forall|j: int|
                0 <= j < 6 ==> {
                    let m = old(self).mm@[j];
                    let key = old(self).mm_key(j);
                    let cand = m.tab@[key];
                    &&& (#[trigger] final(self).mm@[j]).tab@ == if old(self).pos >= MM_NEED[j] {
                        m.tab@.update(key, old(self).pos)
                    } else {
                        m.tab@
                    }
                    &&& final(self).mm@[j].ptr == if old(self).mm_found(m, j) {
                        cand
                    } else {
                        m.ptr
                    }
                    &&& final(self).mm@[j].len == if old(self).mm_found(m, j) {
                        kept_len(j, old(self).extent_from(cand, 0)) as i32
                    } else {
                        m.len
                    }
                    &&& final(self).mm@[j] == (MatchModel {
                        tab: final(self).mm@[j].tab,
                        ptr: final(self).mm@[j].ptr,
                        len: final(self).mm@[j].len,
                        ..m
                    })
                },
            *final(self) == (Cm { mm: final(self).mm, ..*old(self) }),
    {
        let mut j: usize = 0;
        while j < 6
            invariant
                j <= 6,
                self.wf(),
                old(self).wf(),
                self.mm@.len() == 6,
                *self == (Cm { mm: self.mm, ..*old(self) }),
                forall|k: int| j <= k < 6 ==> #[trigger] self.mm@[k] == old(self).mm@[k],
                forall|k: int|
                    0 <= k < j ==> {
                        let m = old(self).mm@[k];
                        let key = old(self).mm_key(k);
                        let cand = m.tab@[key];
                        &&& (#[trigger] self.mm@[k]).tab@ == if old(self).pos >= MM_NEED[k] {
                            m.tab@.update(key, old(self).pos)
                        } else {
                            m.tab@
                        }
                        &&& self.mm@[k].ptr == if old(self).mm_found(m, k) {
                            cand
                        } else {
                            m.ptr
                        }
                        &&& self.mm@[k].len == if old(self).mm_found(m, k) {
                            kept_len(k, old(self).extent_from(cand, 0)) as i32
                        } else {
                            m.len
                        }
                        &&& self.mm@[k] == (MatchModel {
                            tab: self.mm@[k].tab,
                            ptr: self.mm@[k].ptr,
                            len: self.mm@[k].len,
                            ..m
                        })
                    },
            decreases 6 - j,
        {
            let ghost s0 = *self;
            proof {
                lemma_hash_frame(s0, *old(self), MM_NEED[j as int] as int);
                let m = old(self).mm@[j as int];
                lemma_extent_frame(s0, *old(self), m.tab@[old(self).mm_key(j as int)], 0);
                assert(s0.mm_key(j as int) == old(self).mm_key(j as int));
                assert(s0.mm_found(s0.mm@[j as int], j as int) == old(self).mm_found(m, j as int));
            }
            self.search_match(j);
            j += 1;
        }
    }

}

} // verus!
