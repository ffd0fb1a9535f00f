use vstd::prelude::*;
use crate::follow::recorded;
use crate::hashing::spec_cls4;
use crate::history::{is_close, is_open, is_word_byte, lemma_invariant_frame};
use crate::matching::{
    kept_len, lemma_ctxhash_frame, lemma_extent_frame, lemma_hash_frame, mm_extended, run_slot_after,
    MM_NEED,
};
use crate::model::{Cm, MatchModel, NCTX, NRUN, RUN_CTX};

verus! {

/// The history side of coding `byte`, from state `o` to state `n`: each
/// follow history records `byte` under its context, the byte joins the
/// history buffer, the last bytes and the run length, bracket nesting,
/// column and line starts, the record detector and the word state follow.
#[verifier::opaque]
pub open spec fn history_advanced(o: Cm, n: Cm, byte: u8) -> bool {
    &&& n.follow1@ == recorded(o.follow1@, (o.c4 & 0xff) as int, byte)
    &&& n.follow2@ == recorded(o.follow2@, (o.c4 & 0xffff) as int, byte)
    &&& n.follow3@ == recorded(o.follow3@, o.key3(), byte)
    &&& n.follow4@ == recorded(o.follow4@, o.key4(), byte)
    &&& n.follow5@ == if o.pos >= 5 {
        recorded(o.follow5@, (o.m5() >> 9u32) as int, byte)
    } else {
        o.follow5@
    }
    &&& n.follow6@ == if o.pos >= 6 {
        recorded(o.follow6@, (o.m6() >> 9u32) as int, byte)
    } else {
        o.follow6@
    }
    &&& n.followhn@ == recorded(o.followhn@, (o.hnm() >> 9u32) as int, byte)
    &&& n.followd@ == recorded(o.followd@, (o.dm() >> 9u32) as int, byte)
    &&& n.followc@ == recorded(o.followc@, spec_cls4(o.c4), byte)
    &&& n.followln@ == recorded(o.followln@, (o.lnm() >> 9u32) as int, byte)
    &&& n.followg@ == recorded(o.followg@, o.gap_key(3), byte)
    &&& n.follows2@ == recorded(o.follows2@, o.pair_key(2, 4, 4), byte)
    &&& n.follows3@ == recorded(o.follows3@, o.pair_key(3, 6, 6), byte)
    &&& n.followg2@ == recorded(o.followg2@, o.gap_key(5), byte)
    &&& n.followhn8@ == recorded(o.followhn8@, (o.hn8() >> 9u32) as int, byte)
    &&& n.follows4@ == recorded(o.follows4@, o.pair_key(4, 8, 8), byte)
    &&& n.followln8@ == recorded(o.followln8@, (o.ln8() >> 9u32) as int, byte)
    &&& n.followg14@ == recorded(o.followg14@, o.gap_key(4), byte)
    &&& n.followcc8@ == recorded(o.followcc8@, o.cc8(), byte)
    &&& n.follows5@ == recorded(o.follows5@, o.pair_key(5, 10, 10), byte)
    &&& n.followg16@ == recorded(o.followg16@, o.gap_key(6), byte)
    &&& n.buf@ == o.buf@.update((o.pos & o.bufmask) as int, byte)
    &&& n.pos == o.pos + 1
    &&& n.c4 == (o.c4 << 8u32) | (byte as u32)
    &&& n.run_len == if byte as i32 == o.c1 {
        if o.run_len < 65535 {
            (o.run_len + 1) as u32
        } else {
            o.run_len
        }
    } else {
        1u32
    }
    &&& n.c1 == byte as i32
    &&& n.nest_depth == if is_open(byte) && o.nest_depth < 64 {
        (o.nest_depth + 1) as usize
    } else if is_close(byte) && o.nest_depth > 0 {
        (o.nest_depth - 1) as usize
    } else {
        o.nest_depth
    }
    &&& n.nest_stack@ == if is_open(byte) && o.nest_depth < 64 {
        o.nest_stack@.update(o.nest_depth as int, byte)
    } else {
        o.nest_stack@
    }
    &&& n.col == if byte == 10 || byte == 13 {
        0u32
    } else if o.col < 255 {
        (o.col + 1) as u32
    } else {
        o.col
    }
    &&& byte == 10 ==> n.line_start == o.pos + 1 && n.prev_line_start
        == o.line_start && n.prev2_line_start == o.prev_line_start
    &&& byte != 10 ==> n.line_start == o.line_start && n.prev_line_start
        == o.prev_line_start && n.prev2_line_start == o.prev2_line_start
    &&& n.rpos@ == o.rpos@.update(byte as int, (o.pos + 1) as u32)
    &&& ({
        let d = (o.pos + 1 - o.rpos[byte as int]) as u32;
        &&& n.rlen == if d == o.rlen || o.rcount > 0 {
            o.rlen
        } else {
            d
        }
        &&& n.rcount == if d == o.rlen {
            if o.rcount < 1024 {
                o.rcount + 1
            } else {
                o.rcount as int
            }
        } else if o.rcount > 0 {
            o.rcount - 1
        } else {
            1
        }
    })
    &&& n.followw@ == recorded(o.followw@, o.wkey(), byte)
    &&& n.wordhash == if is_word_byte(byte) {
        crate::hashing::spec_hashk(o.wordhash, (byte | 0x20u8) as u32)
    } else {
        0u32
    }
    &&& !is_word_byte(byte) && o.wordhash != 0 ==> n.prevword
        == o.wordhash && n.prevword2 == o.prevword
        && n.prevword3 == o.prevword2
    &&& is_word_byte(byte) || o.wordhash == 0 ==> n.prevword
        == o.prevword && n.prevword2 == o.prevword2
        && n.prevword3 == o.prevword3
}

/// The model side of coding `byte`, from state `o` to state `n`: each match
/// is extended or dropped, files the new position and may take up a new
/// candidate, and predicts its next byte; each run map records `byte`; the
/// next byte starts (`c0 == 1`) with its contexts computed from `n`.
#[verifier::opaque]
pub open spec fn models_advanced(o: Cm, n: Cm, byte: u8) -> bool {
    &&& n.mm@.len() == 6
    &&& forall|j: int|
        0 <= j < 6 ==> {
            let e = mm_extended(o.mm@[j], byte);
            let key = n.mm_key(j);
            let cand = e.tab@[key];
            &&& (#[trigger] n.mm@[j]).tab@ == if n.pos >= MM_NEED[j] {
                e.tab@.update(key, n.pos)
            } else {
                e.tab@
            }
            &&& n.mm@[j].ptr == if n.mm_found(e, j) {
                cand
            } else {
                e.ptr
            }
            &&& n.mm@[j].len == if n.mm_found(e, j) {
                kept_len(j, n.extent_from(cand, 0)) as i32
            } else {
                e.len
            }
            &&& n.mm@[j].pbyte == if n.mm@[j].len > 0 && n.mm@[j].ptr < n.pos {
                n.byte_at(n.mm@[j].ptr) as i32
            } else {
                -1i32
            }
            &&& n.mm@[j].used == o.mm@[j].used
            &&& n.mm@[j].idx == o.mm@[j].idx
        }
    &&& n.runtab@.len() == o.runtab@.len()
    &&& forall|j: int, c: int|
        0 <= j < NRUN && 0 <= c < o.run_size() ==> #[trigger] n.runtab@[j
            * o.run_size() + c] == if c == (o.ctxhash[RUN_CTX[j] as int]
            & o.runmask) {
            run_slot_after(
                o.runtab@[j * o.run_size() + c],
                o.ctxhash[RUN_CTX[j] as int],
                o.runbits,
                byte,
            )
        } else {
            o.runtab@[j * o.run_size() + c]
        }
    &&& n.c0 == 1
    &&& n.bitcount == 0
    &&& forall|i: int|
        0 <= i < NCTX ==> #[trigger] n.ctxhash[i] == n.spec_ctxhash(i)
    &&& n.above_byte == n.spec_above_byte()
    &&& n.ind_pred == n.follow2@[(n.c4 & 0xffff) as int] & 0xff
}

impl Cm {
    /// The history side of a completed byte: follow histories, the history
    /// itself, layout and record trackers, and words.
    pub(crate) fn finish_history(&mut self, byte: u8)
        requires
            old(self).wf(),
            old(self).pos < 0xffff_ffff,
        ensures
            final(self).wf(),
            history_advanced(*old(self), *final(self), byte),
            final(self).pos == old(self).pos + 1,
            *final(self) == (Cm {
                follow1: final(self).follow1,
                follow2: final(self).follow2,
                follow3: final(self).follow3,
                follow4: final(self).follow4,
                follow5: final(self).follow5,
                follow6: final(self).follow6,
                followhn: final(self).followhn,
                followd: final(self).followd,
                followc: final(self).followc,
                followln: final(self).followln,
                followg: final(self).followg,
                follows2: final(self).follows2,
                follows3: final(self).follows3,
                followg2: final(self).followg2,
                followhn8: final(self).followhn8,
                follows4: final(self).follows4,
                followln8: final(self).followln8,
                followg14: final(self).followg14,
                followcc8: final(self).followcc8,
                follows5: final(self).follows5,
                followg16: final(self).followg16,
                followw: final(self).followw,
                buf: final(self).buf,
                pos: final(self).pos,
                c4: final(self).c4,
                run_len: final(self).run_len,
                c1: final(self).c1,
                nest_depth: final(self).nest_depth,
                nest_stack: final(self).nest_stack,
                col: final(self).col,
                line_start: final(self).line_start,
                prev_line_start: final(self).prev_line_start,
                prev2_line_start: final(self).prev2_line_start,
                rpos: final(self).rpos,
                rlen: final(self).rlen,
                rcount: final(self).rcount,
                wordhash: final(self).wordhash,
                prevword: final(self).prevword,
                prevword2: final(self).prevword2,
                prevword3: final(self).prevword3,
                ..*old(self)
            }),
    {
        reveal(history_advanced);
        self.record_follow(byte);
        self.push_byte(byte);
        self.track_layout(byte);
        self.track_record(byte);
        self.track_words(byte);
    }

    /// The model side of a completed byte: matches, run maps and the next
    /// byte's contexts.
    pub(crate) fn finish_models(&mut self, byte: u8)
        requires
            old(self).wf(),
            forall|j: int| 0 <= j < 6 ==> (#[trigger] old(self).mm@[j]).ptr < old(self).pos,
        ensures
            final(self).wf(),
            models_advanced(*old(self), *final(self), byte),
            forall|j: int| 0 <= j < 6 ==> #[trigger] final(self).mm@[j].sm == old(self).mm@[j].sm,
            *final(self) == (Cm {
                mm: final(self).mm,
                runtab: final(self).runtab,
                c0: final(self).c0,
                bitcount: final(self).bitcount,
                ctxhash: final(self).ctxhash,
                above_byte: final(self).above_byte,
                ind_pred: final(self).ind_pred,
                ..*old(self)
            }),
    {
        reveal(models_advanced);
        self.extend_matches(byte);
        let ghost s6 = *self;
        self.search_matches();
        let ghost s7 = *self;
        self.predict_bytes();
        let ghost s8 = *self;
        self.record_runs(byte);
        let ghost s9 = *self;
        self.c0 = 1;
        self.bitcount = 0;
        proof {
            vstd::arithmetic::power2::lemma2_to64();
            lemma_invariant_frame(*self, s9);
        }
        let ghost s10 = *self;
        self.byte_start();
        proof {
            lemma_ctxhash_frame(*self, s10);
            assert forall|j: int| 0 <= j < 6 implies {
                let e = mm_extended(old(self).mm@[j], byte);
                let key = self.mm_key(j);
                let cand = e.tab@[key];
                &&& (#[trigger] self.mm@[j]).tab@ == if self.pos >= MM_NEED[j] {
                    e.tab@.update(key, self.pos)
                } else {
                    e.tab@
                }
                &&& self.mm@[j].ptr == if self.mm_found(e, j) {
                    cand
                } else {
                    e.ptr
                }
                &&& self.mm@[j].len == if self.mm_found(e, j) {
                    kept_len(j, self.extent_from(cand, 0)) as i32
                } else {
                    e.len
                }
                &&& self.mm@[j].pbyte == if self.mm@[j].len > 0 && self.mm@[j].ptr < self.pos {
                    self.byte_at(self.mm@[j].ptr) as i32
                } else {
                    -1i32
                }
                &&& self.mm@[j] == (MatchModel {
                    tab: self.mm@[j].tab,
                    ptr: self.mm@[j].ptr,
                    len: self.mm@[j].len,
                    pbyte: self.mm@[j].pbyte,
                    ..old(self).mm@[j]
                })
            } by {
                lemma_hash_frame(s6, *self, MM_NEED[j] as int);
                assert(s6.mm_key(j) == self.mm_key(j));
                let e = mm_extended(old(self).mm@[j], byte);
                assert(s6.mm@[j] == e);
                lemma_extent_frame(s6, *self, e.tab@[self.mm_key(j)], 0);
                assert(self.mm@[j] == s8.mm@[j]);
                assert(s7.mm@[j].tab == s8.mm@[j].tab);
            }
            assert forall|j: int, c: int|
                0 <= j < NRUN && 0 <= c < old(self).run_size() implies #[trigger] self.runtab@[j
                    * old(self).run_size() + c] == if c == (old(self).ctxhash[RUN_CTX[j] as int]
                    & old(self).runmask) {
                    run_slot_after(
                        old(self).runtab@[j * old(self).run_size() + c],
                        old(self).ctxhash[RUN_CTX[j] as int],
                        old(self).runbits,
                        byte,
                    )
                } else {
                    old(self).runtab@[j * old(self).run_size() + c]
                } by {
                assert(s8.run_size() == old(self).run_size());
                assert(s9.runtab@[j * s8.run_size() + c] == self.runtab@[j * old(self).run_size() + c]);
                assert(s8.runtab@[j * s8.run_size() + c] == old(self).runtab@[j * old(self).run_size() + c]);
            }
        }
    }
}


/// `history_advanced` reads only the history fields of both states.
pub proof fn lemma_history_frame(o1: Cm, o2: Cm, n1: Cm, n2: Cm, byte: u8)
    requires
        history_advanced(o1, n1, byte),
        o2.follow1 == o1.follow1,
        o2.follow2 == o1.follow2,
        o2.follow3 == o1.follow3,
        o2.follow4 == o1.follow4,
        o2.follow5 == o1.follow5,
        o2.follow6 == o1.follow6,
        o2.followhn == o1.followhn,
        o2.followd == o1.followd,
        o2.followc == o1.followc,
        o2.followln == o1.followln,
        o2.followg == o1.followg,
        o2.follows2 == o1.follows2,
        o2.follows3 == o1.follows3,
        o2.followg2 == o1.followg2,
        o2.followhn8 == o1.followhn8,
        o2.follows4 == o1.follows4,
        o2.followln8 == o1.followln8,
        o2.followg14 == o1.followg14,
        o2.followcc8 == o1.followcc8,
        o2.follows5 == o1.follows5,
        o2.followg16 == o1.followg16,
        o2.followw == o1.followw,
        o2.buf == o1.buf,
        o2.bufmask == o1.bufmask,
        o2.pos == o1.pos,
        o2.c4 == o1.c4,
        o2.run_len == o1.run_len,
        o2.c1 == o1.c1,
        o2.nest_depth == o1.nest_depth,
        o2.nest_stack == o1.nest_stack,
        o2.col == o1.col,
        o2.line_start == o1.line_start,
        o2.prev_line_start == o1.prev_line_start,
        o2.prev2_line_start == o1.prev2_line_start,
        o2.rpos == o1.rpos,
        o2.rlen == o1.rlen,
        o2.rcount == o1.rcount,
        o2.wordhash == o1.wordhash,
        o2.prevword == o1.prevword,
        o2.prevword2 == o1.prevword2,
        o2.prevword3 == o1.prevword3,
        n2.follow1 == n1.follow1,
        n2.follow2 == n1.follow2,
        n2.follow3 == n1.follow3,
        n2.follow4 == n1.follow4,
        n2.follow5 == n1.follow5,
        n2.follow6 == n1.follow6,
        n2.followhn == n1.followhn,
        n2.followd == n1.followd,
        n2.followc == n1.followc,
        n2.followln == n1.followln,
        n2.followg == n1.followg,
        n2.follows2 == n1.follows2,
        n2.follows3 == n1.follows3,
        n2.followg2 == n1.followg2,
        n2.followhn8 == n1.followhn8,
        n2.follows4 == n1.follows4,
        n2.followln8 == n1.followln8,
        n2.followg14 == n1.followg14,
        n2.followcc8 == n1.followcc8,
        n2.follows5 == n1.follows5,
        n2.followg16 == n1.followg16,
        n2.followw == n1.followw,
        n2.buf == n1.buf,
        n2.bufmask == n1.bufmask,
        n2.pos == n1.pos,
        n2.c4 == n1.c4,
        n2.run_len == n1.run_len,
        n2.c1 == n1.c1,
        n2.nest_depth == n1.nest_depth,
        n2.nest_stack == n1.nest_stack,
        n2.col == n1.col,
        n2.line_start == n1.line_start,
        n2.prev_line_start == n1.prev_line_start,
        n2.prev2_line_start == n1.prev2_line_start,
        n2.rpos == n1.rpos,
        n2.rlen == n1.rlen,
        n2.rcount == n1.rcount,
        n2.wordhash == n1.wordhash,
        n2.prevword == n1.prevword,
        n2.prevword2 == n1.prevword2,
        n2.prevword3 == n1.prevword3,
    ensures
        history_advanced(o2, n2, byte),
{
    reveal(history_advanced);
}

/// `models_advanced` reads, of the earlier state, only the match models'
/// positions and predictions, the run tables and the context hashes.
pub proof fn lemma_models_frame(o1: Cm, o2: Cm, n: Cm, byte: u8)
    requires
        models_advanced(o1, n, byte),
        o1.mm@.len() == 6,
        o2.mm@.len() == 6,
        forall|j: int|
            0 <= j < 6 ==> {
                &&& (#[trigger] o2.mm@[j]).tab == o1.mm@[j].tab
                &&& o2.mm@[j].ptr == o1.mm@[j].ptr
                &&& o2.mm@[j].len == o1.mm@[j].len
                &&& o2.mm@[j].pbyte == o1.mm@[j].pbyte
                &&& o2.mm@[j].used == o1.mm@[j].used
                &&& o2.mm@[j].idx == o1.mm@[j].idx
            },
        o2.runtab == o1.runtab,
        o2.ctxhash == o1.ctxhash,
        o2.runmask == o1.runmask,
        o2.runbits == o1.runbits,
    ensures
        models_advanced(o2, n, byte),
{
    reveal(models_advanced);
    assert forall|j: int| 0 <= j < 6 implies #[trigger] mm_extended(o2.mm@[j], byte).tab
        == mm_extended(o1.mm@[j], byte).tab && mm_extended(o2.mm@[j], byte).ptr == mm_extended(
        o1.mm@[j],
        byte,
    ).ptr && mm_extended(o2.mm@[j], byte).len == mm_extended(o1.mm@[j], byte).len by {}
    assert(o2.run_size() == o1.run_size());
    assert forall|j: int, c: int|
        0 <= j < NRUN && 0 <= c < o2.run_size() implies #[trigger] n.runtab@[j * o2.run_size() + c]
            == if c == (o2.ctxhash[RUN_CTX[j] as int] & o2.runmask) {
            run_slot_after(o2.runtab@[j * o2.run_size() + c], o2.ctxhash[RUN_CTX[j] as int], o2.runbits, byte)
        } else {
            o2.runtab@[j * o2.run_size() + c]
        } by {
        assert(n.runtab@[j * o1.run_size() + c] == n.runtab@[j * o2.run_size() + c]);
    }
}

} // verus!
