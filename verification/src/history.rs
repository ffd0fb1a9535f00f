use vstd::prelude::*;
use crate::follow::{record, recorded};
use crate::model::Cm;

verus! {

/// Opening brackets `(`, `[`, `{`.
pub open spec fn is_open(b: u8) -> bool {
    b == 40 || b == 91 || b == 123
}

/// Closing brackets `)`, `]`, `}`.
pub open spec fn is_close(b: u8) -> bool {
    b == 41 || b == 93 || b == 125
}

/// Letters and digits.
pub open spec fn is_word_byte(b: u8) -> bool {
    (97 <= b <= 122) || (65 <= b <= 90) || (48 <= b <= 57)
}

impl Cm {
    /// Appends `byte` to the history: buffer, position, last bytes, run
    /// length.
    pub(crate) fn push_byte(&mut self, byte: u8)
        requires
            old(self).wf(),
            old(self).pos < 0xffff_ffff,
        ensures
            final(self).wf(),
            final(self).buf@ == old(self).buf@.update((old(self).pos & old(self).bufmask) as int, byte),
            final(self).pos == old(self).pos + 1,
            final(self).c4 == (old(self).c4 << 8u32) | (byte as u32),
            final(self).run_len == if byte as i32 == old(self).c1 {
                if old(self).run_len < 65535 {
                    (old(self).run_len + 1) as u32
                } else {
                    old(self).run_len
                }
            } else {
                1u32
            },
            final(self).c1 == byte as i32,
            *final(self) == (Cm {
                buf: final(self).buf,
                pos: final(self).pos,
                c4: final(self).c4,
                run_len: final(self).run_len,
                c1: final(self).c1,
                ..*old(self)
            }),
    {
        let m = self.bufmask;
        let bp = self.pos & m;
        proof {
            crate::bits::lemma_mask_bounds();
        }
        let ghost s0 = *self;
        self.buf.set(bp as usize, byte);
        self.pos = self.pos + 1;
        self.c4 = (self.c4 << 8) | (byte as u32);
        if byte as i32 == self.c1 {
            if self.run_len < 65535 {
                self.run_len = self.run_len + 1;
            }
        } else {
            self.run_len = 1;
        }
        self.c1 = byte as i32;
        proof {
            assert forall|j: int| 0 <= j < 6 implies (#[trigger] self.mm@[j]).ptr <= self.pos by {
                assert(s0.mm@[j].ptr <= s0.pos);
            }
            assert forall|b: int| 0 <= b < 256 implies #[trigger] self.rpos[b] <= self.pos by {
                assert(s0.rpos[b] <= s0.pos);
            }
            assert(self.positions_wf());
            assert(self.history_wf());
            assert(self.tables_wf() == s0.tables_wf());
            assert(self.mixers_wf() == s0.mixers_wf());
            assert(self.models_wf() == s0.models_wf());
        }
    }

    /// Tracks bracket nesting, the column and the line starts after `byte`
    /// (the position already counts it).
    pub(crate) fn track_layout(&mut self, byte: u8)
        requires
            old(self).wf(),
        ensures
            final(self).wf(),
            final(self).nest_depth == if is_open(byte) && old(self).nest_depth < 64 {
                (old(self).nest_depth + 1) as usize
            } else if is_close(byte) && old(self).nest_depth > 0 {
                (old(self).nest_depth - 1) as usize
            } else {
                old(self).nest_depth
            },
            final(self).nest_stack@ == if is_open(byte) && old(self).nest_depth < 64 {
                old(self).nest_stack@.update(old(self).nest_depth as int, byte)
            } else {
                old(self).nest_stack@
            },
            final(self).col == if byte == 10 || byte == 13 {
                0u32
            } else if old(self).col < 255 {
                (old(self).col + 1) as u32
            } else {
                old(self).col
            },
            byte == 10 ==> final(self).line_start == old(self).pos && final(self).prev_line_start
                == old(self).line_start && final(self).prev2_line_start == old(self).prev_line_start,
            byte != 10 ==> final(self).line_start == old(self).line_start && final(self).prev_line_start
                == old(self).prev_line_start && final(self).prev2_line_start == old(self).prev2_line_start,
            *final(self) == (Cm {
                nest_depth: final(self).nest_depth,
                nest_stack: final(self).nest_stack,
                col: final(self).col,
                line_start: final(self).line_start,
                prev_line_start: final(self).prev_line_start,
                prev2_line_start: final(self).prev2_line_start,
                ..*old(self)
            }),
    {
        let ghost s0 = *self;
        if byte == 40 || byte == 91 || byte == 123 {
            if self.nest_depth < 64 {
                self.nest_stack[self.nest_depth] = byte;
                self.nest_depth = self.nest_depth + 1;
            }
        } else if byte == 41 || byte == 93 || byte == 125 {
            if self.nest_depth > 0 {
                self.nest_depth = self.nest_depth - 1;
            }
        }
        if byte == 10 || byte == 13 {
            self.col = 0;
        } else if self.col < 255 {
            self.col = self.col + 1;
        }
        if byte == 10 {
            self.prev2_line_start = self.prev_line_start;
            self.prev_line_start = self.line_start;
            self.line_start = self.pos;
        }
        proof {
            assert(self.nest_stack@ =~= if is_open(byte) && s0.nest_depth < 64 {
                s0.nest_stack@.update(s0.nest_depth as int, byte)
            } else {
                s0.nest_stack@
            });
            assert(self.positions_wf() == s0.positions_wf());
            assert(self.history_wf());
            assert(self.tables_wf() == s0.tables_wf());
            assert(self.mixers_wf() == s0.mixers_wf());
            assert(self.models_wf() == s0.models_wf());
        }
    }
}


impl Cm {
    /// Record-length detector: the distance since `byte` last occurred votes
    /// for the dominant period (the position already counts `byte`).
    pub(crate) fn track_record(&mut self, byte: u8)
        requires
            old(self).wf(),
        ensures
            final(self).wf(),
            final(self).rpos@ == old(self).rpos@.update(byte as int, old(self).pos),
            ({
                let d = (old(self).pos - old(self).rpos[byte as int]) as u32;
                &&& final(self).rlen == if d == old(self).rlen || old(self).rcount > 0 {
                    old(self).rlen
                } else {
                    d
                }
                &&& final(self).rcount == if d == old(self).rlen {
                    if old(self).rcount < 1024 {
                        old(self).rcount + 1
                    } else {
                        old(self).rcount as int
                    }
                } else if old(self).rcount > 0 {
                    old(self).rcount - 1
                } else {
                    1
                }
            }),
            *final(self) == (Cm {
                rpos: final(self).rpos,
                rlen: final(self).rlen,
                rcount: final(self).rcount,
                ..*old(self)
            }),
    {
        let ghost s0 = *self;
        let bi = byte as usize;
        proof {
            assert(self.rpos[bi as int] <= self.pos);
        }
        let d = self.pos - self.rpos[bi];
        self.rpos[bi] = self.pos;
        if d == self.rlen {
            if self.rcount < 1024 {
                self.rcount = self.rcount + 1;
            }
        } else if self.rcount > 0 {
            self.rcount = self.rcount - 1;
        } else {
            self.rlen = d;
            self.rcount = 1;
        }
        proof {
            assert(self.rpos@ =~= s0.rpos@.update(byte as int, s0.pos));
            assert forall|b: int| 0 <= b < 256 implies #[trigger] self.rpos[b] <= self.pos by {
                assert(s0.rpos[b] <= s0.pos);
            }
            assert(self.positions_wf());
            assert(self.history_wf());
            assert(self.tables_wf() == s0.tables_wf());
            assert(self.mixers_wf() == s0.mixers_wf());
            assert(self.models_wf() == s0.models_wf());
        }
    }

    /// Records that `byte` followed the current word prefix, then extends the
    /// word or, at a word boundary, shifts it into the word history.
    pub(crate) fn track_words(&mut self, byte: u8)
        requires
            old(self).wf(),
        ensures
            final(self).wf(),
            final(self).followw@ == recorded(old(self).followw@, old(self).wkey(), byte),
            final(self).wordhash == if is_word_byte(byte) {
                crate::hashing::spec_hashk(old(self).wordhash, (byte | 0x20u8) as u32)
            } else {
                0u32
            },
            !is_word_byte(byte) && old(self).wordhash != 0 ==> final(self).prevword
                == old(self).wordhash && final(self).prevword2 == old(self).prevword
                && final(self).prevword3 == old(self).prevword2,
            is_word_byte(byte) || old(self).wordhash == 0 ==> final(self).prevword
                == old(self).prevword && final(self).prevword2 == old(self).prevword2
                && final(self).prevword3 == old(self).prevword3,
            *final(self) == (Cm {
                followw: final(self).followw,
                wordhash: final(self).wordhash,
                prevword: final(self).prevword,
                prevword2: final(self).prevword2,
                prevword3: final(self).prevword3,
                ..*old(self)
            }),
    {
        let ghost s0 = *self;
        let wk = self.wkey_exec();
        record(&mut self.followw, wk, byte);
        if (byte >= 97 && byte <= 122) || (byte >= 65 && byte <= 90) || (byte >= 48 && byte <= 57) {
            self.wordhash = crate::hashing::hashk(self.wordhash, (byte | 0x20) as u32);
        } else {
            if self.wordhash != 0 {
                self.prevword3 = self.prevword2;
                self.prevword2 = self.prevword;
                self.prevword = self.wordhash;
            }
            self.wordhash = 0;
        }
        proof {
            assert(self.positions_wf() == s0.positions_wf());
            assert(self.history_wf());
            assert forall|j: int| 0 <= j < 6 implies (#[trigger] self.mm@[j]).wf(j) by {
                assert(s0.mm@[j].wf(j));
            }
            lemma_invariant_frame(*self, s0);
        }
    }
}


/// The parts of the invariant that do not mention the history carry over
/// between states that agree on their fields.
pub proof fn lemma_invariant_frame(a: Cm, b: Cm)
    requires
        b.wf(),
        a.tables == b.tables,
        a.gln_hp == b.gln_hp,
        a.rate_tab == b.rate_tab,
        a.tab == b.tab,
        a.sm == b.sm,
        a.tmask == b.tmask,
        a.assoc == b.assoc,
        a.bmask == b.bmask,
        a.cshift == b.cshift,
        a.idx == b.idx,
        a.sm_idx == b.sm_idx,
        a.l1 == b.l1,
        a.l2 == b.l2,
        a.mix_in == b.mix_in,
        a.l2_in == b.l2_in,
        a.mm@.len() == 6,
        forall|j: int| 0 <= j < 6 ==> (#[trigger] a.mm@[j]).wf(j),
        a.apm1 == b.apm1,
        a.apm2 == b.apm2,
        a.apm3 == b.apm3,
        a.apm4 == b.apm4,
        a.runbits == b.runbits,
        a.runmask == b.runmask,
        a.runtab@.len() == b.runtab@.len(),
        a.run_sm@.len() == b.run_sm@.len(),
        a.run_idx == b.run_idx,
        a.run_pbyte == b.run_pbyte,
        a.run_cnt == b.run_cnt,
    ensures
        a.tables.wf(),
        a.gln_hp@.len() == crate::model::GLN_BITS * crate::model::GLN_NSEL,
        forall|n: int| 0 <= n < 256 ==> 16 <= #[trigger] a.rate_tab[n] <= 2048,
        a.tables_wf(),
        a.mixers_wf(),
        a.models_wf(),
{
}

} // verus!
