use vstd::prelude::*;
use crate::hashing::{cls4, hashk, spec_cls4, spec_hashk, byte_class};
use crate::model::{Cm, FBITS, FSIZE, NCTX};

verus! {

/// Character class used by the word-shape contexts: 1 letter, 2 digit,
/// 3 whitespace, 4 anything else.
pub open spec fn class4(b: int) -> u32 {
    if byte_class(b) == 0 {
        4
    } else {
        byte_class(b) as u32
    }
}

pub open spec fn min_u32(a: u32, b: u32) -> u32 {
    if a < b {
        a
    } else {
        b
    }
}

fn class4_of(b: u32) -> (r: u32)
    requires
        b < 256,
    ensures
        r == class4(b as int),
{
    if (b >= 97 && b <= 122) || (b >= 65 && b <= 90) {
        1
    } else if b >= 48 && b <= 57 {
        2
    } else if b == 32 || b == 10 || b == 9 || b == 13 {
        3
    } else {
        4
    }
}

impl Cm {
    /// The history byte at absolute position `p` (modulo the buffer).
    pub open spec fn byte_at(&self, p: u32) -> u32 {
        self.buf@[(p & self.bufmask) as int] as u32
    }

    /// The byte `k` positions back from the current position.
    pub open spec fn back(&self, k: int) -> u32 {
        self.byte_at((self.pos - k) as u32)
    }

    /// Byte `j` (0 = most recent) of the last-four-bytes word.
    pub open spec fn c4b(&self, j: int) -> u32 {
        if j == 0 {
            self.c4 & 0xff
        } else if j == 1 {
            (self.c4 >> 8u32) & 0xff
        } else if j == 2 {
            (self.c4 >> 16u32) & 0xff
        } else {
            (self.c4 >> 24u32) & 0xff
        }
    }

    pub fn b(&self, p: u32) -> (r: u8)
        requires
            self.buf@.len() == self.bufmask as int + 1,
        ensures
            r as u32 == self.byte_at(p),
    {
        let m = self.bufmask;
        let i = p & m;
        assert(i <= m) by (bit_vector)
            requires
                i == p & m,
        ;
        self.buf[i as usize]
    }

    pub fn bk(&self, k: u32) -> (r: u32)
        requires
            self.buf@.len() == self.bufmask as int + 1,
            k <= self.pos,
        ensures
            r == self.back(k as int),
            r < 256,
    {
        self.b(self.pos - k) as u32
    }

    // ---- direct byte-order contexts ----
    /// Order-1..4 contexts, `i` in 1..=4.
    pub open spec fn h_order(&self, i: int) -> u32 {
        if i == 1 {
            spec_hashk(0x100, self.c4 & 0xff)
        } else if i == 2 {
            spec_hashk(0x200, self.c4 & 0xffff)
        } else if i == 3 {
            spec_hashk(0x300, self.c4 & 0xff_ffff)
        } else {
            spec_hashk(0x400, self.c4)
        }
    }

    pub open spec fn h5(&self) -> u32 {
        spec_hashk(0x500, self.c4.wrapping_mul(0x9E37_79B1) ^ ((self.c1 as u32) << 3u32))
    }

    pub open spec fn h6(&self) -> u32 {
        if self.pos >= 6 {
            spec_hashk(
                0x600,
                self.c4.wrapping_mul(2654435761) ^ (self.back(5) << 7u32) ^ (self.back(6) << 15u32),
            )
        } else {
            spec_hashk(0x600, self.c4)
        }
    }

    pub open spec fn h7(&self) -> u32 {
        if self.wordhash != 0 {
            spec_hashk(0x700, self.wordhash)
        } else {
            0
        }
    }

    pub open spec fn h8(&self) -> u32 {
        spec_hashk(0x800, ((self.c4 >> 8u32) & 0xff) | (((self.c4 >> 16u32) & 0xff) << 8u32))
    }

    pub open spec fn h9(&self) -> u32 {
        if self.pos >= 7 {
            spec_hashk(
                0x900,
                self.c4.wrapping_mul(0x9E37_79B1) ^ self.back(5).wrapping_mul(0x85eb_ca6b)
                    ^ self.back(6).wrapping_mul(0xc2b2_ae35) ^ self.back(7).wrapping_mul(
                    0x27d4_eb2f,
                ),
            )
        } else {
            spec_hashk(0x900, self.c4)
        }
    }

    pub open spec fn h10(&self) -> u32 {
        if self.pos >= 8 {
            spec_hashk(
                0xA00,
                self.c4.wrapping_mul(0x85eb_ca6b) ^ self.back(5).wrapping_mul(0xc2b2_ae35)
                    ^ self.back(6).wrapping_mul(0x27d4_eb2f) ^ self.back(7).wrapping_mul(
                    0x1656_67b1,
                ) ^ self.back(8).wrapping_mul(0x9E37_79B1),
            )
        } else {
            spec_hashk(0xA00, self.c4)
        }
    }

    pub open spec fn h11(&self) -> u32 {
        if self.pos >= 9 {
            spec_hashk(
                0xB00,
                self.c4.wrapping_mul(0xc2b2_ae35) ^ self.back(5).wrapping_mul(0x27d4_eb2f)
                    ^ self.back(6).wrapping_mul(0x1656_67b1) ^ self.back(7).wrapping_mul(
                    0x85eb_ca6b,
                ) ^ self.back(8).wrapping_mul(0x9E37_79B1) ^ self.back(9).wrapping_mul(
                    0xff51_afd7,
                ),
            )
        } else {
            spec_hashk(0xB00, self.c4)
        }
    }

    pub open spec fn h12(&self) -> u32 {
        if self.wordhash != 0 {
            spec_hashk(0xC00, self.wordhash ^ ((self.c1 as u32) << 8u32))
        } else {
            spec_hashk(0xC00, self.c4b(0) | (self.c4b(1) << 8u32) | ((self.c4b(2) & 0x1f) << 16u32))
        }
    }

    /// Word-shape signature of the last four bytes, 3 bits per byte, the most
    /// recent byte in the highest bits.
    pub open spec fn shape4(&self) -> u32 {
        (class4(self.c4b(0) as int) << 9u32) | (class4(self.c4b(1) as int) << 6u32) | (class4(
            self.c4b(2) as int,
        ) << 3u32) | class4(self.c4b(3) as int)
    }

    pub open spec fn h13(&self) -> u32 {
        if self.wordhash != 0 {
            spec_hashk(0xD00, self.wordhash.wrapping_mul(0x85eb_ca6b) ^ (self.c4 & 0xffff))
        } else {
            spec_hashk(0xD00, self.shape4() ^ (self.c4 & 0xff))
        }
    }

    pub open spec fn h14(&self) -> u32 {
        if self.wordhash != 0 {
            spec_hashk(
                0xE00,
                self.wordhash.wrapping_mul(0xc2b2_ae35) ^ (self.c4 & 0xdfdf_dfdf).wrapping_mul(
                    0x27d4_eb2f,
                ),
            )
        } else {
            spec_hashk(
                0xE00,
                self.c4b(0).wrapping_mul(3) ^ self.c4b(1).wrapping_mul(5) ^ self.c4b(
                    2,
                ).wrapping_mul(7) ^ self.c4b(3).wrapping_mul(11),
            )
        }
    }

    pub open spec fn h15(&self) -> u32 {
        spec_hashk(0xF00, (min_u32(self.col, 255) << 16u32) ^ (self.c4 & 0xffff))
    }

    pub open spec fn h16(&self) -> u32 {
        spec_hashk(
            0x1000,
            ((self.col & 63) << 8u32) ^ class4(self.c4b(0) as int) ^ self.wordhash.wrapping_mul(
                0x9e37_79b1,
            ),
        )
    }

    pub open spec fn h17(&self) -> u32 {
        if self.pos >= 5 {
            spec_hashk(
                0x1100,
                self.c4.wrapping_mul(0x2545_f491) ^ self.back(5).wrapping_mul(0x9e37_79b1),
            )
        } else {
            spec_hashk(0x1100, self.c4)
        }
    }

    pub open spec fn h18(&self) -> u32 {
        if self.pos >= 11 {
            spec_hashk(
                0x1200,
                self.c4.wrapping_mul(0x9e37_79b1) ^ self.back(5).wrapping_mul(0x85eb_ca6b)
                    ^ self.back(6).wrapping_mul(0xc2b2_ae35) ^ self.back(7).wrapping_mul(
                    0x27d4_eb2f,
                ) ^ self.back(8).wrapping_mul(0x1656_67b1) ^ self.back(9).wrapping_mul(
                    0xff51_afd7,
                ) ^ self.back(10).wrapping_mul(0xc4ce_b9fe) ^ self.back(11).wrapping_mul(
                    0x2545_f491,
                ),
            )
        } else {
            spec_hashk(0x1200, self.c4)
        }
    }

    pub open spec fn h26(&self) -> u32 {
        if self.pos >= 10 {
            spec_hashk(
                0x1A00,
                self.c4.wrapping_mul(0x2545_f491) ^ self.back(5).wrapping_mul(0x85eb_ca6b)
                    ^ self.back(6).wrapping_mul(0xc2b2_ae35) ^ self.back(7).wrapping_mul(
                    0x27d4_eb2f,
                ) ^ self.back(8).wrapping_mul(0x1656_67b1) ^ self.back(9).wrapping_mul(
                    0xff51_afd7,
                ) ^ self.back(10).wrapping_mul(0xc4ce_b9fe),
            )
        } else {
            spec_hashk(0x1A00, self.c4)
        }
    }

    pub open spec fn h27(&self) -> u32 {
        if self.pos >= 13 {
            spec_hashk(
                0x1B00,
                self.c4.wrapping_mul(0xc2b2_ae35) ^ self.back(5).wrapping_mul(0x85eb_ca6b)
                    ^ self.back(6).wrapping_mul(0xc2b2_ae35) ^ self.back(7).wrapping_mul(
                    0x27d4_eb2f,
                ) ^ self.back(8).wrapping_mul(0x1656_67b1) ^ self.back(9).wrapping_mul(
                    0xff51_afd7,
                ) ^ self.back(10).wrapping_mul(0xc4ce_b9fe) ^ self.back(11).wrapping_mul(
                    0x2545_f491,
                ) ^ self.back(12).wrapping_mul(0x9e37_79b9) ^ self.back(13).wrapping_mul(
                    0x7f4a_7c15,
                ),
            )
        } else {
            spec_hashk(0x1B00, self.c4)
        }
    }

    pub open spec fn h28(&self) -> u32 {
        if self.pos >= 16 {
            spec_hashk(
                0x1C00,
                self.c4.wrapping_mul(0x9e37_79b1) ^ self.back(5).wrapping_mul(0x85eb_ca6b)
                    ^ self.back(6).wrapping_mul(0xc2b2_ae35) ^ self.back(7).wrapping_mul(
                    0x27d4_eb2f,
                ) ^ self.back(8).wrapping_mul(0x1656_67b1) ^ self.back(9).wrapping_mul(
                    0xff51_afd7,
                ) ^ self.back(10).wrapping_mul(0xc4ce_b9fe) ^ self.back(11).wrapping_mul(
                    0x2545_f491,
                ) ^ self.back(12).wrapping_mul(0x9e37_79b9) ^ self.back(13).wrapping_mul(
                    0x7f4a_7c15,
                ) ^ self.back(14).wrapping_mul(0x94d0_49bb) ^ self.back(15).wrapping_mul(
                    0xd6e8_feb8,
                ) ^ self.back(16).wrapping_mul(0xa548_1ad7),
            )
        } else {
            spec_hashk(0x1C00, self.c4)
        }
    }

    /// Three bytes sampled at distance `s`, `2s`, `3s`.
    pub open spec fn h_stride3(&self, s: int, tag: u32) -> u32 {
        if self.pos >= s * 3 {
            spec_hashk(
                tag,
                self.back(s) | (self.back(s * 2) << 8u32) | (self.back(s * 3) << 16u32),
            )
        } else {
            spec_hashk(tag, self.c4)
        }
    }

    /// The last byte paired with the byte at distance `k`.
    pub open spec fn h_gap(&self, k: int, tag: u32) -> u32 {
        if self.pos >= k {
            spec_hashk(tag, (self.c4 & 0xff) | (self.back(k) << 8u32))
        } else {
            spec_hashk(tag, self.c4)
        }
    }

    /// Four bytes sampled at distance `k`, `2k`, `3k`, `4k`.
    pub open spec fn h_stride4(&self, k: int, tag: u32) -> u32 {
        if self.pos >= k * 4 {
            spec_hashk(
                tag,
                self.back(k) ^ self.back(k * 2).wrapping_mul(0x85eb_ca6b) ^ self.back(
                    k * 3,
                ).wrapping_mul(0xc2b2_ae35) ^ self.back(k * 4).wrapping_mul(0x27d4_eb2f),
            )
        } else {
            spec_hashk(tag, self.c4)
        }
    }

    // ---- word n-gram contexts ----
    pub open spec fn h23(&self) -> u32 {
        if self.prevword != 0 {
            spec_hashk(
                0x1700,
                self.prevword.wrapping_mul(0x9e37_79b1).wrapping_add(
                    self.wordhash.wrapping_mul(0x85eb_ca6b),
                ),
            )
        } else {
            0
        }
    }

    pub open spec fn h24(&self) -> u32 {
        if self.prevword != 0 {
            spec_hashk(0x1800, self.prevword.wrapping_mul(0xc2b2_ae35) ^ (self.c4 & 0xffff))
        } else {
            0
        }
    }

    pub open spec fn h25(&self) -> u32 {
        if self.prevword2 != 0 {
            spec_hashk(
                0x1900,
                self.prevword2.wrapping_mul(0x27d4_eb2f).wrapping_add(
                    self.prevword.wrapping_mul(0x9e37_79b1),
                ).wrapping_add(self.wordhash.wrapping_mul(0x85eb_ca6b)),
            )
        } else {
            0
        }
    }

    pub open spec fn h66(&self) -> u32 {
        if self.prevword3 != 0 {
            spec_hashk(
                0x6000,
                self.prevword3.wrapping_mul(0x1656_67b1).wrapping_add(
                    self.prevword2.wrapping_mul(0x27d4_eb2f),
                ).wrapping_add(self.prevword.wrapping_mul(0x9e37_79b1)).wrapping_add(
                    self.wordhash.wrapping_mul(0x85eb_ca6b),
                ),
            )
        } else {
            0
        }
    }

    pub open spec fn h67(&self) -> u32 {
        if self.prevword2 != 0 {
            spec_hashk(
                0x6100,
                self.prevword2.wrapping_mul(0xc2b2_ae35).wrapping_add(
                    self.wordhash.wrapping_mul(0x9e37_79b1),
                ),
            )
        } else {
            0
        }
    }

    pub open spec fn h68(&self) -> u32 {
        if self.prevword3 != 0 {
            spec_hashk(
                0x6200,
                self.prevword3.wrapping_mul(0x1656_67b1).wrapping_add(
                    self.wordhash.wrapping_mul(0x9e37_79b1),
                ),
            )
        } else {
            0
        }
    }

    // ---- two-dimensional (previous line) contexts ----
    /// Column within the current line.
    pub open spec fn col2d(&self) -> u32 {
        self.pos.wrapping_sub(self.line_start)
    }

    /// Position of the byte directly above (same column, previous line).
    pub open spec fn above_pos(&self) -> u32 {
        self.prev_line_start.wrapping_add(self.col2d())
    }

    pub open spec fn have_above(&self) -> bool {
        self.prev_line_start != 0 && self.above_pos() < self.line_start
    }

    pub open spec fn above(&self) -> u32 {
        if self.have_above() {
            self.byte_at(self.above_pos())
        } else {
            0
        }
    }

    /// The byte above, or 256 when there is none.
    pub open spec fn spec_above_byte(&self) -> u32 {
        if self.have_above() {
            self.above()
        } else {
            256
        }
    }

    pub open spec fn h69(&self) -> u32 {
        if self.have_above() {
            spec_hashk(0x6300, self.above() | (min_u32(self.col2d(), 1023) << 9u32))
        } else {
            0
        }
    }

    pub open spec fn h70(&self) -> u32 {
        if self.have_above() {
            spec_hashk(0x6400, self.above() | ((self.c1 as u32) << 8u32))
        } else {
            0
        }
    }

    pub open spec fn h71(&self) -> u32 {
        if self.have_above() && self.above_pos() > self.prev_line_start {
            spec_hashk(0x6500, self.above() | (self.byte_at((self.above_pos() - 1) as u32) << 8u32))
        } else {
            0
        }
    }

    pub open spec fn h74(&self) -> u32 {
        let above2_pos = self.prev2_line_start.wrapping_add(self.col2d());
        if self.prev2_line_start != 0 && above2_pos < self.prev_line_start && self.have_above() {
            spec_hashk(0x6800, self.above() | (self.byte_at(above2_pos) << 8u32))
        } else {
            0
        }
    }

    pub open spec fn h79(&self) -> u32 {
        if self.have_above() && self.above_pos() + 1 < self.line_start {
            spec_hashk(0x6D00, self.above() | (self.byte_at((self.above_pos() + 1) as u32) << 8u32))
        } else {
            0
        }
    }

    pub open spec fn h80(&self) -> u32 {
        if self.have_above() && self.above_pos() > self.prev_line_start && self.above_pos() + 1
            < self.line_start {
            spec_hashk(
                0x6E00,
                self.above() ^ (self.byte_at((self.above_pos() - 1) as u32) << 8u32) ^ (
                self.byte_at((self.above_pos() + 1) as u32) << 16u32),
            )
        } else {
            0
        }
    }

    // ---- record (period) contexts ----
    pub open spec fn rec_ok(&self) -> bool {
        self.rcount > 8 && self.rlen >= 2 && self.rlen < self.pos
    }

    pub open spec fn h72(&self) -> u32 {
        if self.rec_ok() {
            spec_hashk(0x6600, self.back(self.rlen as int) | ((self.c1 as u32) << 8u32))
        } else {
            0
        }
    }

    pub open spec fn h73(&self) -> u32 {
        if self.rec_ok() && self.pos > self.rlen + 1 {
            spec_hashk(
                0x6700,
                self.back(self.rlen as int) | (self.back(self.rlen + 1) << 8u32),
            )
        } else {
            0
        }
    }

    // ---- keys of the follow-history tables ----
    pub open spec fn key3(&self) -> int {
        ((self.c4 & 0x00ff_ffff).wrapping_mul(0x9e37_79b1) >> 9u32) as int
    }

    pub open spec fn key4(&self) -> int {
        (self.c4.wrapping_mul(0x85eb_ca6b) >> 9u32) as int
    }

    pub open spec fn m5(&self) -> u32 {
        self.c4.wrapping_mul(0x9e37_79b1) ^ self.back(5).wrapping_mul(0x85eb_ca6b)
    }

    pub open spec fn m6(&self) -> u32 {
        self.c4.wrapping_mul(0x85eb_ca6b) ^ self.back(5).wrapping_mul(0xc2b2_ae35) ^ self.back(
            6,
        ).wrapping_mul(0x27d4_eb2f)
    }

    pub open spec fn hnm(&self) -> u32 {
        (self.c4 & 0xf0f0_f0f0).wrapping_mul(0x9e37_79b1)
    }

    /// Differences of consecutive recent bytes, one per byte.
    pub open spec fn delta(&self, j: int) -> u32 {
        self.c4b(j).wrapping_sub(self.c4b(j + 1)) & 0xff
    }

    pub open spec fn dpat(&self) -> u32 {
        self.delta(0) | (self.delta(1) << 8u32) | (self.delta(2) << 16u32)
    }

    pub open spec fn dm(&self) -> u32 {
        self.dpat().wrapping_mul(0x85eb_ca6b)
    }

    pub open spec fn lnm(&self) -> u32 {
        (self.c4 & 0x0f0f_0f0f).wrapping_mul(0xc2b2_ae35)
    }

    /// A pair of sampled bytes `(back(a), back(b))`, or the order-2 context
    /// while the history is shorter than `need`.
    pub open spec fn pair_key(&self, a: int, b: int, need: int) -> int {
        if self.pos >= need {
            (self.back(a) | (self.back(b) << 8u32)) as int
        } else {
            (self.c4 & 0xffff) as int
        }
    }

    /// The last byte paired with the byte at distance `k`, or the order-2
    /// context while the history is shorter than `k`.
    pub open spec fn gap_key(&self, k: int) -> int {
        if self.pos >= k {
            ((self.c4 & 0xff) | (self.back(k) << 8u32)) as int
        } else {
            (self.c4 & 0xffff) as int
        }
    }

    pub open spec fn hn8(&self) -> u32 {
        if self.pos >= 8 {
            self.hnm() ^ ((self.back(5) & 0xf0) << 4u32) ^ ((self.back(6) & 0xf0) << 12u32) ^ ((
            self.back(7) & 0xf0) << 20u32) ^ (self.back(8) & 0xf0).wrapping_mul(0x85eb_ca6b)
        } else {
            self.hnm()
        }
    }

    pub open spec fn ln8(&self) -> u32 {
        if self.pos >= 8 {
            self.lnm() ^ ((self.back(5) & 0x0f) << 4u32) ^ ((self.back(6) & 0x0f) << 12u32) ^ ((
            self.back(7) & 0x0f) << 20u32) ^ (self.back(8) & 0x0f).wrapping_mul(0x9e37_79b1)
        } else {
            self.lnm()
        }
    }

    /// The bytes five to eight back packed as a word (most recent lowest).
    pub open spec fn w8(&self) -> u32 {
        self.back(5) | (self.back(6) << 8u32) | (self.back(7) << 16u32) | (self.back(8) << 24u32)
    }

    pub open spec fn cc8(&self) -> int {
        if self.pos >= 8 {
            spec_cls4(self.c4) + 256 * spec_cls4(self.w8())
        } else {
            spec_cls4(self.c4)
        }
    }

    pub open spec fn wkey(&self) -> int {
        (self.wordhash.wrapping_mul(0x9e37_79b1) >> 16u32) as int
    }

    // ---- indirect contexts ----
    pub open spec fn h75(&self) -> u32 {
        spec_hashk(
            0x6900,
            (self.c4 & 0xff) ^ self.follow1@[(self.c4 & 0xff) as int].wrapping_mul(0x9e37_79b1),
        )
    }

    pub open spec fn h76(&self) -> u32 {
        spec_hashk(
            0x6A00,
            (self.c4 & 0xffff) ^ self.follow2@[(self.c4 & 0xffff) as int].wrapping_mul(
                0x85eb_ca6b,
            ),
        )
    }

    pub open spec fn h77(&self) -> u32 {
        spec_hashk(
            0x6B00,
            (self.c4 & 0x00ff_ffff) ^ self.follow3@[self.key3()].wrapping_mul(0xc2b2_ae35),
        )
    }

    pub open spec fn h78(&self) -> u32 {
        spec_hashk(0x6C00, self.c4 ^ self.follow4@[self.key4()].wrapping_mul(0x27d4_eb2f))
    }

    pub open spec fn h81(&self) -> u32 {
        if self.wordhash != 0 {
            spec_hashk(0x7000, self.wordhash ^ self.followw@[self.wkey()].wrapping_mul(0xc2b2_ae35))
        } else {
            0
        }
    }

    pub open spec fn h82(&self) -> u32 {
        spec_hashk(0x7100, (self.c4 & 0xff) | (min_u32(self.run_len, 255) << 8u32))
    }

    /// The innermost open bracket, or 0 outside any.
    pub open spec fn last_open(&self) -> u32 {
        if self.nest_depth > 0 {
            self.nest_stack[self.nest_depth - 1] as u32
        } else {
            0
        }
    }

    pub open spec fn h83(&self) -> u32 {
        spec_hashk(0x7200, (self.nest_depth as u32 & 31) | ((self.c4 & 0xff) << 5u32))
    }

    pub open spec fn h84(&self) -> u32 {
        spec_hashk(0x7300, self.last_open() | ((self.c4 & 0xff) << 8u32))
    }

    pub open spec fn h85(&self) -> u32 {
        spec_hashk(
            0x7400,
            self.last_open().wrapping_mul(0x9e37_79b1) ^ ((self.nest_depth as u32 & 31) << 16u32)
                ^ (self.c4 & 0xffff),
        )
    }

    /// High nibbles of the last five bytes.
    pub open spec fn hn(&self) -> u32 {
        (self.c4 & 0xf0f0_f0f0) ^ (if self.pos >= 5 {
            (self.back(5) & 0xf0) << 24u32
        } else {
            0
        })
    }

    pub open spec fn h86(&self) -> u32 {
        spec_hashk(0x7700, self.hn())
    }

    pub open spec fn h87(&self) -> u32 {
        if self.pos >= 8 {
            spec_hashk(
                0x7800,
                self.hn().wrapping_mul(0x9e37_79b1) ^ ((self.back(6) & 0xf0) << 4u32) ^ ((
                self.back(7) & 0xf0) << 12u32) ^ ((self.back(8) & 0xf0) << 20u32),
            )
        } else {
            spec_hashk(0x7800, self.hn())
        }
    }

    pub open spec fn h88(&self) -> u32 {
        spec_hashk(0x7900, self.dpat())
    }

    pub open spec fn h89(&self) -> u32 {
        if self.pos >= 5 {
            spec_hashk(
                0x7A00,
                self.m5() ^ self.follow5@[(self.m5() >> 9u32) as int].wrapping_mul(0xc2b2_ae35),
            )
        } else {
            0
        }
    }

    pub open spec fn h90(&self) -> u32 {
        if self.pos >= 6 {
            spec_hashk(
                0x7B00,
                self.m6() ^ self.follow6@[(self.m6() >> 9u32) as int].wrapping_mul(0x9e37_79b1),
            )
        } else {
            0
        }
    }

    pub open spec fn h91(&self) -> u32 {
        spec_hashk(
            0x7C00,
            self.hnm() ^ self.followhn@[(self.hnm() >> 9u32) as int].wrapping_mul(0xc2b2_ae35),
        )
    }

    pub open spec fn h92(&self) -> u32 {
        spec_hashk(
            0x7D00,
            self.dm() ^ self.followd@[(self.dm() >> 9u32) as int].wrapping_mul(0x27d4_eb2f),
        )
    }

    pub open spec fn h93(&self) -> u32 {
        spec_hashk(
            0x7E00,
            (spec_cls4(self.c4) as u32) ^ self.followc@[spec_cls4(self.c4)].wrapping_mul(
                0x9e37_79b1,
            ),
        )
    }

    pub open spec fn h94(&self) -> u32 {
        spec_hashk(
            0x7F00,
            self.lnm() ^ self.followln@[(self.lnm() >> 9u32) as int].wrapping_mul(0x85eb_ca6b),
        )
    }

    pub open spec fn h95(&self) -> u32 {
        spec_hashk(
            0x8000,
            (self.gap_key(3) as u32) ^ self.followg@[self.gap_key(3)].wrapping_mul(0x27d4_eb2f),
        )
    }

    pub open spec fn h96(&self) -> u32 {
        spec_hashk(
            0x8100,
            (self.pair_key(2, 4, 4) as u32) ^ self.follows2@[self.pair_key(2, 4, 4)].wrapping_mul(
                0x9e37_79b1,
            ),
        )
    }

    pub open spec fn h97(&self) -> u32 {
        spec_hashk(
            0x8200,
            (self.pair_key(3, 6, 6) as u32) ^ self.follows3@[self.pair_key(3, 6, 6)].wrapping_mul(
                0x85eb_ca6b,
            ),
        )
    }

    pub open spec fn h98(&self) -> u32 {
        spec_hashk(
            0x8300,
            (self.gap_key(5) as u32) ^ self.followg2@[self.gap_key(5)].wrapping_mul(0xc2b2_ae35),
        )
    }

    pub open spec fn h99(&self) -> u32 {
        spec_hashk(
            0x8500,
            self.hn8() ^ self.followhn8@[(self.hn8() >> 9u32) as int].wrapping_mul(0x27d4_eb2f),
        )
    }

    pub open spec fn h100(&self) -> u32 {
        spec_hashk(
            0x8600,
            (self.pair_key(4, 8, 8) as u32) ^ self.follows4@[self.pair_key(4, 8, 8)].wrapping_mul(
                0x9e37_79b1,
            ),
        )
    }

    pub open spec fn h101(&self) -> u32 {
        spec_hashk(
            0x8700,
            self.ln8() ^ self.followln8@[(self.ln8() >> 9u32) as int].wrapping_mul(0x27d4_eb2f),
        )
    }

    pub open spec fn h102(&self) -> u32 {
        spec_hashk(
            0x8800,
            (self.gap_key(4) as u32) ^ self.followg14@[self.gap_key(4)].wrapping_mul(0x85eb_ca6b),
        )
    }

    pub open spec fn h103(&self) -> u32 {
        spec_hashk(
            0x8900,
            (self.cc8() as u32) ^ self.followcc8@[self.cc8()].wrapping_mul(0xc2b2_ae35),
        )
    }

    pub open spec fn h104(&self) -> u32 {
        spec_hashk(
            0x8A00,
            (self.pair_key(5, 10, 10) as u32) ^ self.follows5@[self.pair_key(
                5,
                10,
                10,
            )].wrapping_mul(0x27d4_eb2f),
        )
    }

    pub open spec fn h105(&self) -> u32 {
        spec_hashk(
            0x8B00,
            (self.gap_key(6) as u32) ^ self.followg16@[self.gap_key(6)].wrapping_mul(0x9e37_79b1),
        )
    }

    /// The hash that selects context model `i`'s statistics for the byte
    /// about to be coded.
    pub open spec fn spec_ctxhash(&self, i: int) -> u32 {
        if i == 0 {
            0
        } else if i <= 4 {
            self.h_order(i)
        } else if i == 5 {
            self.h5()
        } else if i == 6 {
            self.h6()
        } else if i == 7 {
            self.h7()
        } else if i == 8 {
            self.h8()
        } else if i == 9 {
            self.h9()
        } else if i == 10 {
            self.h10()
        } else if i == 11 {
            self.h11()
        } else if i == 12 {
            self.h12()
        } else if i == 13 {
            self.h13()
        } else if i == 14 {
            self.h14()
        } else if i == 15 {
            self.h15()
        } else if i == 16 {
            self.h16()
        } else if i == 17 {
            self.h17()
        } else if i == 18 {
            self.h18()
        } else if i == 19 {
            self.h_stride3(2, 0x1300)
        } else if 20 <= i <= 22 {
            self.h_gap(i - 17, (0x1400 + (i - 20) * 0x100) as u32)
        } else if i == 23 {
            self.h23()
        } else if i == 24 {
            self.h24()
        } else if i == 25 {
            self.h25()
        } else if i == 26 {
            self.h26()
        } else if i == 27 {
            self.h27()
        } else if i == 28 {
            self.h28()
        } else if 29 <= i <= 46 {
            self.h_stride3(i - 26, (0x1D00 + (i - 29) * 0x100) as u32)
        } else if 47 <= i <= 54 {
            self.h_gap(i - 41, (0x3000 + (i - 47) * 0x100) as u32)
        } else if 55 <= i <= 65 {
            self.h_stride4(i - 53, (0x4000 + (i - 55) * 0x100) as u32)
        } else if i == 66 {
            self.h66()
        } else if i == 67 {
            self.h67()
        } else if i == 68 {
            self.h68()
        } else if i == 69 {
            self.h69()
        } else if i == 70 {
            self.h70()
        } else if i == 71 {
            self.h71()
        } else if i == 72 {
            self.h72()
        } else if i == 73 {
            self.h73()
        } else if i == 74 {
            self.h74()
        } else if i == 75 {
            self.h75()
        } else if i == 76 {
            self.h76()
        } else if i == 77 {
            self.h77()
        } else if i == 78 {
            self.h78()
        } else if i == 79 {
            self.h79()
        } else if i == 80 {
            self.h80()
        } else if i == 81 {
            self.h81()
        } else if i == 82 {
            self.h82()
        } else if i == 83 {
            self.h83()
        } else if i == 84 {
            self.h84()
        } else if i == 85 {
            self.h85()
        } else if i == 86 {
            self.h86()
        } else if i == 87 {
            self.h87()
        } else if i == 88 {
            self.h88()
        } else if i == 89 {
            self.h89()
        } else if i == 90 {
            self.h90()
        } else if i == 91 {
            self.h91()
        } else if i == 92 {
            self.h92()
        } else if i == 93 {
            self.h93()
        } else if i == 94 {
            self.h94()
        } else if i == 95 {
            self.h95()
        } else if i == 96 {
            self.h96()
        } else if i == 97 {
            self.h97()
        } else if i == 98 {
            self.h98()
        } else if i == 99 {
            self.h99()
        } else if i == 100 {
            self.h100()
        } else if i == 101 {
            self.h101()
        } else if i == 102 {
            self.h102()
        } else if i == 103 {
            self.h103()
        } else if i == 104 {
            self.h104()
        } else {
            self.h105()
        }
    }

    // ---- executable context hashes ----
    fn ctx_order(&self, i: usize) -> (r: u32)
        requires
            1 <= i <= 4,
        ensures
            r == self.h_order(i as int),
    {
        let c4 = self.c4;
        if i == 1 {
            hashk(0x100, c4 & 0xff)
        } else if i == 2 {
            hashk(0x200, c4 & 0xffff)
        } else if i == 3 {
            hashk(0x300, c4 & 0xffffff)
        } else {
            hashk(0x400, c4)
        }
    }

    fn ctx_5_to_8(&self) -> (r: (u32, u32, u32, u32))
        requires
            self.history_wf(),
        ensures
            r.0 == self.h5(),
            r.1 == self.h6(),
            r.2 == self.h7(),
            r.3 == self.h8(),
    {
        let c4 = self.c4;
        let h5 = hashk(0x500, c4.wrapping_mul(0x9E37_79B1) ^ ((self.c1 as u32) << 3));
        let h6 = if self.pos >= 6 {
            hashk(0x600, c4.wrapping_mul(2654435761) ^ (self.bk(5) << 7) ^ (self.bk(6) << 15))
        } else {
            hashk(0x600, c4)
        };
        let h7 = if self.wordhash != 0 {
            hashk(0x700, self.wordhash)
        } else {
            0
        };
        let h8 = hashk(0x800, ((c4 >> 8) & 0xff) | (((c4 >> 16) & 0xff) << 8));
        (h5, h6, h7, h8)
    }

    fn ctx_9_to_11(&self) -> (r: (u32, u32, u32))
        requires
            self.history_wf(),
        ensures
            r.0 == self.h9(),
            r.1 == self.h10(),
            r.2 == self.h11(),
    {
        let c4 = self.c4;
        let h9 = if self.pos >= 7 {
            hashk(
                0x900,
                c4.wrapping_mul(0x9E37_79B1) ^ self.bk(5).wrapping_mul(0x85eb_ca6b) ^ self.bk(
                    6,
                ).wrapping_mul(0xc2b2_ae35) ^ self.bk(7).wrapping_mul(0x27d4_eb2f),
            )
        } else {
            hashk(0x900, c4)
        };
        let h10 = if self.pos >= 8 {
            hashk(
                0xA00,
                c4.wrapping_mul(0x85eb_ca6b) ^ self.bk(5).wrapping_mul(0xc2b2_ae35) ^ self.bk(
                    6,
                ).wrapping_mul(0x27d4_eb2f) ^ self.bk(7).wrapping_mul(0x1656_67b1) ^ self.bk(
                    8,
                ).wrapping_mul(0x9E37_79B1),
            )
        } else {
            hashk(0xA00, c4)
        };
        let h11 = if self.pos >= 9 {
            hashk(
                0xB00,
                c4.wrapping_mul(0xc2b2_ae35) ^ self.bk(5).wrapping_mul(0x27d4_eb2f) ^ self.bk(
                    6,
                ).wrapping_mul(0x1656_67b1) ^ self.bk(7).wrapping_mul(0x85eb_ca6b) ^ self.bk(
                    8,
                ).wrapping_mul(0x9E37_79B1) ^ self.bk(9).wrapping_mul(0xff51_afd7),
            )
        } else {
            hashk(0xB00, c4)
        };
        (h9, h10, h11)
    }

    fn ctx_12_to_16(&self) -> (r: (u32, u32, u32, u32, u32))
        requires
            self.history_wf(),
        ensures
            r.0 == self.h12(),
            r.1 == self.h13(),
            r.2 == self.h14(),
            r.3 == self.h15(),
            r.4 == self.h16(),
    {
        let c4 = self.c4;
        let b1 = c4 & 0xff;
        let b2 = (c4 >> 8) & 0xff;
        let b3 = (c4 >> 16) & 0xff;
        let b4 = (c4 >> 24) & 0xff;
        assert(b1 < 256 && b2 < 256 && b3 < 256 && b4 < 256) by (bit_vector)
            requires
                b1 == c4 & 0xff,
                b2 == (c4 >> 8) & 0xff,
                b3 == (c4 >> 16) & 0xff,
                b4 == (c4 >> 24) & 0xff,
        ;
        let h12 = if self.wordhash != 0 {
            hashk(0xC00, self.wordhash ^ ((self.c1 as u32) << 8))
        } else {
            hashk(0xC00, b1 | (b2 << 8) | ((b3 & 0x1f) << 16))
        };
        let h13 = if self.wordhash != 0 {
            hashk(0xD00, self.wordhash.wrapping_mul(0x85eb_ca6b) ^ (c4 & 0xffff))
        } else {
            let h = (class4_of(b1) << 9) | (class4_of(b2) << 6) | (class4_of(b3) << 3) | class4_of(
                b4,
            );
            hashk(0xD00, h ^ (c4 & 0xff))
        };
        let h14 = if self.wordhash != 0 {
            let folded = (c4 & 0xdfdf_dfdf).wrapping_mul(0x27d4_eb2f);
            hashk(0xE00, self.wordhash.wrapping_mul(0xc2b2_ae35) ^ folded)
        } else {
            hashk(
                0xE00,
                b1.wrapping_mul(3) ^ b2.wrapping_mul(5) ^ b3.wrapping_mul(7) ^ b4.wrapping_mul(11),
            )
        };
        let colc = if self.col < 255 {
            self.col
        } else {
            255
        };
        let h15 = hashk(0xF00, (colc << 16) ^ (c4 & 0xffff));
        let h16 = hashk(
            0x1000,
            ((self.col & 63) << 8) ^ class4_of(b1) ^ self.wordhash.wrapping_mul(0x9e37_79b1),
        );
        (h12, h13, h14, h15, h16)
    }

    fn ctx_17_18(&self) -> (r: (u32, u32))
        requires
            self.history_wf(),
        ensures
            r.0 == self.h17(),
            r.1 == self.h18(),
    {
        let c4 = self.c4;
        let h17 = if self.pos >= 5 {
            hashk(0x1100, c4.wrapping_mul(0x2545_f491) ^ self.bk(5).wrapping_mul(0x9e37_79b1))
        } else {
            hashk(0x1100, c4)
        };
        let h18 = if self.pos >= 11 {
            hashk(
                0x1200,
                c4.wrapping_mul(0x9e37_79b1) ^ self.bk(5).wrapping_mul(0x85eb_ca6b) ^ self.bk(
                    6,
                ).wrapping_mul(0xc2b2_ae35) ^ self.bk(7).wrapping_mul(0x27d4_eb2f) ^ self.bk(
                    8,
                ).wrapping_mul(0x1656_67b1) ^ self.bk(9).wrapping_mul(0xff51_afd7) ^ self.bk(
                    10,
                ).wrapping_mul(0xc4ce_b9fe) ^ self.bk(11).wrapping_mul(0x2545_f491),
            )
        } else {
            hashk(0x1200, c4)
        };
        (h17, h18)
    }

    fn ctx_26_to_28(&self) -> (r: (u32, u32, u32))
        requires
            self.history_wf(),
        ensures
            r.0 == self.h26(),
            r.1 == self.h27(),
            r.2 == self.h28(),
    {
        let c4 = self.c4;
        let h26 = if self.pos >= 10 {
            hashk(
                0x1A00,
                c4.wrapping_mul(0x2545_f491) ^ self.bk(5).wrapping_mul(0x85eb_ca6b) ^ self.bk(
                    6,
                ).wrapping_mul(0xc2b2_ae35) ^ self.bk(7).wrapping_mul(0x27d4_eb2f) ^ self.bk(
                    8,
                ).wrapping_mul(0x1656_67b1) ^ self.bk(9).wrapping_mul(0xff51_afd7) ^ self.bk(
                    10,
                ).wrapping_mul(0xc4ce_b9fe),
            )
        } else {
            hashk(0x1A00, c4)
        };
        let h27 = if self.pos >= 13 {
            hashk(
                0x1B00,
                c4.wrapping_mul(0xc2b2_ae35) ^ self.bk(5).wrapping_mul(0x85eb_ca6b) ^ self.bk(
                    6,
                ).wrapping_mul(0xc2b2_ae35) ^ self.bk(7).wrapping_mul(0x27d4_eb2f) ^ self.bk(
                    8,
                ).wrapping_mul(0x1656_67b1) ^ self.bk(9).wrapping_mul(0xff51_afd7) ^ self.bk(
                    10,
                ).wrapping_mul(0xc4ce_b9fe) ^ self.bk(11).wrapping_mul(0x2545_f491) ^ self.bk(
                    12,
                ).wrapping_mul(0x9e37_79b9) ^ self.bk(13).wrapping_mul(0x7f4a_7c15),
            )
        } else {
            hashk(0x1B00, c4)
        };
        let h28 = if self.pos >= 16 {
            hashk(
                0x1C00,
                c4.wrapping_mul(0x9e37_79b1) ^ self.bk(5).wrapping_mul(0x85eb_ca6b) ^ self.bk(
                    6,
                ).wrapping_mul(0xc2b2_ae35) ^ self.bk(7).wrapping_mul(0x27d4_eb2f) ^ self.bk(
                    8,
                ).wrapping_mul(0x1656_67b1) ^ self.bk(9).wrapping_mul(0xff51_afd7) ^ self.bk(
                    10,
                ).wrapping_mul(0xc4ce_b9fe) ^ self.bk(11).wrapping_mul(0x2545_f491) ^ self.bk(
                    12,
                ).wrapping_mul(0x9e37_79b9) ^ self.bk(13).wrapping_mul(0x7f4a_7c15) ^ self.bk(
                    14,
                ).wrapping_mul(0x94d0_49bb) ^ self.bk(15).wrapping_mul(0xd6e8_feb8) ^ self.bk(
                    16,
                ).wrapping_mul(0xa548_1ad7),
            )
        } else {
            hashk(0x1C00, c4)
        };
        (h26, h27, h28)
    }

    fn ctx_stride3(&self, st: u32, tag: u32) -> (r: u32)
        requires
            self.history_wf(),
            1 <= st <= 20,
        ensures
            r == self.h_stride3(st as int, tag),
    {
        if self.pos >= st * 3 {
            hashk(tag, self.bk(st) | (self.bk(st * 2) << 8) | (self.bk(st * 3) << 16))
        } else {
            hashk(tag, self.c4)
        }
    }

    fn ctx_gap(&self, k: u32, tag: u32) -> (r: u32)
        requires
            self.history_wf(),
            1 <= k <= 20,
        ensures
            r == self.h_gap(k as int, tag),
    {
        if self.pos >= k {
            hashk(tag, (self.c4 & 0xff) | (self.bk(k) << 8))
        } else {
            hashk(tag, self.c4)
        }
    }

    fn ctx_stride4(&self, k: u32, tag: u32) -> (r: u32)
        requires
            self.history_wf(),
            1 <= k <= 20,
        ensures
            r == self.h_stride4(k as int, tag),
    {
        if self.pos >= k * 4 {
            hashk(
                tag,
                self.bk(k) ^ self.bk(k * 2).wrapping_mul(0x85eb_ca6b) ^ self.bk(k * 3).wrapping_mul(
                    0xc2b2_ae35,
                ) ^ self.bk(k * 4).wrapping_mul(0x27d4_eb2f),
            )
        } else {
            hashk(tag, self.c4)
        }
    }

    fn ctx_words(&self) -> (r: (u32, u32, u32, u32, u32, u32))
        ensures
            r.0 == self.h23(),
            r.1 == self.h24(),
            r.2 == self.h25(),
            r.3 == self.h66(),
            r.4 == self.h67(),
            r.5 == self.h68(),
    {
        let w = self.wordhash;
        let p1 = self.prevword;
        let p2 = self.prevword2;
        let p3 = self.prevword3;
        let h23 = if p1 != 0 {
            hashk(0x1700, p1.wrapping_mul(0x9e37_79b1).wrapping_add(w.wrapping_mul(0x85eb_ca6b)))
        } else {
            0
        };
        let h24 = if p1 != 0 {
            hashk(0x1800, p1.wrapping_mul(0xc2b2_ae35) ^ (self.c4 & 0xffff))
        } else {
            0
        };
        let h25 = if p2 != 0 {
            hashk(
                0x1900,
                p2.wrapping_mul(0x27d4_eb2f).wrapping_add(p1.wrapping_mul(0x9e37_79b1)).wrapping_add(
                    w.wrapping_mul(0x85eb_ca6b),
                ),
            )
        } else {
            0
        };
        let h66 = if p3 != 0 {
            hashk(
                0x6000,
                p3.wrapping_mul(0x1656_67b1).wrapping_add(p2.wrapping_mul(0x27d4_eb2f)).wrapping_add(
                    p1.wrapping_mul(0x9e37_79b1),
                ).wrapping_add(w.wrapping_mul(0x85eb_ca6b)),
            )
        } else {
            0
        };
        let h67 = if p2 != 0 {
            hashk(0x6100, p2.wrapping_mul(0xc2b2_ae35).wrapping_add(w.wrapping_mul(0x9e37_79b1)))
        } else {
            0
        };
        let h68 = if p3 != 0 {
            hashk(0x6200, p3.wrapping_mul(0x1656_67b1).wrapping_add(w.wrapping_mul(0x9e37_79b1)))
        } else {
            0
        };
        (h23, h24, h25, h66, h67, h68)
    }

    fn ctx_2d(&self) -> (r: (u32, u32, u32, u32, u32, u32, u32))
        requires
            self.history_wf(),
        ensures
            r.0 == self.h69(),
            r.1 == self.h70(),
            r.2 == self.h71(),
            r.3 == self.h74(),
            r.4 == self.h79(),
            r.5 == self.h80(),
            r.6 == self.spec_above_byte(),
    {
        let col2d = self.pos.wrapping_sub(self.line_start);
        let above_pos = self.prev_line_start.wrapping_add(col2d);
        let have_above = self.prev_line_start != 0 && above_pos < self.line_start;
        let above = if have_above {
            self.b(above_pos) as u32
        } else {
            0
        };
        let above_byte = if have_above {
            above
        } else {
            256
        };
        let colc = if col2d < 1023 {
            col2d
        } else {
            1023
        };
        let h69 = if have_above {
            hashk(0x6300, above | (colc << 9))
        } else {
            0
        };
        let h70 = if have_above {
            hashk(0x6400, above | ((self.c1 as u32) << 8))
        } else {
            0
        };
        let h71 = if have_above && above_pos > self.prev_line_start {
            let above_left = self.b(above_pos - 1) as u32;
            hashk(0x6500, above | (above_left << 8))
        } else {
            0
        };
        let above2_pos = self.prev2_line_start.wrapping_add(col2d);
        let h74 = if self.prev2_line_start != 0 && above2_pos < self.prev_line_start && have_above {
            let above2 = self.b(above2_pos) as u32;
            hashk(0x6800, above | (above2 << 8))
        } else {
            0
        };
        let h79 = if have_above && above_pos + 1 < self.line_start {
            let above_r = self.b(above_pos + 1) as u32;
            hashk(0x6D00, above | (above_r << 8))
        } else {
            0
        };
        let h80 = if have_above && above_pos > self.prev_line_start && above_pos + 1
            < self.line_start {
            let al = self.b(above_pos - 1) as u32;
            let ar = self.b(above_pos + 1) as u32;
            hashk(0x6E00, above ^ (al << 8) ^ (ar << 16))
        } else {
            0
        };
        (h69, h70, h71, h74, h79, h80, above_byte)
    }

    fn ctx_record(&self) -> (r: (u32, u32))
        requires
            self.history_wf(),
        ensures
            r.0 == self.h72(),
            r.1 == self.h73(),
    {
        let r = self.rlen;
        let rec_ok = self.rcount > 8 && r >= 2 && r < self.pos;
        let recb = if rec_ok {
            self.bk(r)
        } else {
            0
        };
        let h72 = if rec_ok {
            hashk(0x6600, recb | ((self.c1 as u32) << 8))
        } else {
            0
        };
        let h73 = if rec_ok && self.pos > r + 1 {
            let recb1 = self.bk(r + 1);
            hashk(0x6700, recb | (recb1 << 8))
        } else {
            0
        };
        (h72, h73)
    }

    // ---- follow-history table keys ----
    pub fn key_f3(&self) -> (r: usize)
        ensures
            r as int == self.key3(),
            r < FSIZE,
    {
        Self::shr9((self.c4 & 0x00ff_ffff).wrapping_mul(0x9e37_79b1))
    }

    pub fn key_f4(&self) -> (r: usize)
        ensures
            r as int == self.key4(),
            r < FSIZE,
    {
        Self::shr9(self.c4.wrapping_mul(0x85eb_ca6b))
    }

    pub fn shr9(x: u32) -> (r: usize)
        ensures
            r as int == (x >> 9u32) as int,
            r < FSIZE,
    {
        let y = x >> (32 - FBITS);
        assert(y < 0x80_0000) by (bit_vector)
            requires
                y == x >> 9u32,
        ;
        y as usize
    }

    pub fn spec_m5_exec(&self) -> (r: u32)
        requires
            self.history_wf(),
            self.pos >= 5,
        ensures
            r == self.m5(),
    {
        self.c4.wrapping_mul(0x9e37_79b1) ^ self.bk(5).wrapping_mul(0x85eb_ca6b)
    }

    pub fn spec_m6_exec(&self) -> (r: u32)
        requires
            self.history_wf(),
            self.pos >= 6,
        ensures
            r == self.m6(),
    {
        self.c4.wrapping_mul(0x85eb_ca6b) ^ self.bk(5).wrapping_mul(0xc2b2_ae35) ^ self.bk(
            6,
        ).wrapping_mul(0x27d4_eb2f)
    }

    pub fn hnm_exec(&self) -> (r: u32)
        ensures
            r == self.hnm(),
    {
        (self.c4 & 0xf0f0_f0f0).wrapping_mul(0x9e37_79b1)
    }

    pub fn dpat_exec(&self) -> (r: u32)
        ensures
            r == self.dpat(),
    {
        let c4 = self.c4;
        let d1 = (c4 & 0xff).wrapping_sub((c4 >> 8) & 0xff) & 0xff;
        let d2 = ((c4 >> 8) & 0xff).wrapping_sub((c4 >> 16) & 0xff) & 0xff;
        let d3 = ((c4 >> 16) & 0xff).wrapping_sub((c4 >> 24) & 0xff) & 0xff;
        d1 | (d2 << 8) | (d3 << 16)
    }

    pub fn lnm_exec(&self) -> (r: u32)
        ensures
            r == self.lnm(),
    {
        (self.c4 & 0x0f0f_0f0f).wrapping_mul(0xc2b2_ae35)
    }

    pub fn pair_key_exec(&self, a: u32, b: u32, need: u32) -> (r: usize)
        requires
            self.history_wf(),
            a <= need,
            b <= need,
        ensures
            r as int == self.pair_key(a as int, b as int, need as int),
            r < 0x1_0000,
    {
        if self.pos >= need {
            let x = self.bk(a);
            let y = self.bk(b);
            assert(x | (y << 8) < 0x1_0000) by (bit_vector)
                requires
                    x < 256,
                    y < 256,
            ;
            (x | (y << 8)) as usize
        } else {
            let c = self.c4;
            assert(c & 0xffff < 0x1_0000) by (bit_vector);
            (c & 0xffff) as usize
        }
    }

    pub fn gap_key_exec(&self, k: u32) -> (r: usize)
        requires
            self.history_wf(),
        ensures
            r as int == self.gap_key(k as int),
            r < 0x1_0000,
    {
        if self.pos >= k {
            let y = self.bk(k);
            let c = self.c4;
            let x = c & 0xff;
            assert(x | (y << 8) < 0x1_0000) by (bit_vector)
                requires
                    x == c & 0xff,
                    y < 256,
            ;
            (x | (y << 8)) as usize
        } else {
            let c = self.c4;
            assert(c & 0xffff < 0x1_0000) by (bit_vector);
            (c & 0xffff) as usize
        }
    }

    pub fn hn8_exec(&self) -> (r: u32)
        requires
            self.history_wf(),
        ensures
            r == self.hn8(),
    {
        let hnm = self.hnm_exec();
        if self.pos >= 8 {
            hnm ^ ((self.bk(5) & 0xf0) << 4) ^ ((self.bk(6) & 0xf0) << 12) ^ ((self.bk(7) & 0xf0)
                << 20) ^ (self.bk(8) & 0xf0).wrapping_mul(0x85eb_ca6b)
        } else {
            hnm
        }
    }

    pub fn ln8_exec(&self) -> (r: u32)
        requires
            self.history_wf(),
        ensures
            r == self.ln8(),
    {
        let lnm = self.lnm_exec();
        if self.pos >= 8 {
            lnm ^ ((self.bk(5) & 0x0f) << 4) ^ ((self.bk(6) & 0x0f) << 12) ^ ((self.bk(7) & 0x0f)
                << 20) ^ (self.bk(8) & 0x0f).wrapping_mul(0x9e37_79b1)
        } else {
            lnm
        }
    }

    pub fn cc8_exec(&self) -> (r: usize)
        requires
            self.history_wf(),
        ensures
            r as int == self.cc8(),
            r < 0x1_0000,
    {
        let a = cls4(self.c4);
        if self.pos >= 8 {
            let w = self.bk(5) | (self.bk(6) << 8) | (self.bk(7) << 16) | (self.bk(8) << 24);
            let b = cls4(w);
            assert(a | (b << 8) == a + 256 * b) by (bit_vector)
                requires
                    a < 256,
                    b < 256,
            ;
            (a | (b << 8)) as usize
        } else {
            a as usize
        }
    }

    pub fn wkey_exec(&self) -> (r: usize)
        ensures
            r as int == self.wkey(),
            r < 0x1_0000,
    {
        let t = self.wordhash.wrapping_mul(0x9e37_79b1);
        let x = t >> 16;
        assert(x < 0x1_0000) by (bit_vector)
            requires
                x == t >> 16u32,
        ;
        x as usize
    }

    fn ctx_indirect_low(&self) -> (r: (u32, u32, u32, u32, u32, u32))
        requires
            self.history_wf(),
        ensures
            r.0 == self.h75(),
            r.1 == self.h76(),
            r.2 == self.h77(),
            r.3 == self.h78(),
            r.4 == self.h81(),
            r.5 == self.follow2@[(self.c4 & 0xffff) as int] & 0xff,
    {
        let c4 = self.c4;
        assert(c4 & 0xff < 256 && c4 & 0xffff < 0x1_0000) by (bit_vector);
        let f1 = self.follow1[(c4 & 0xff) as usize];
        let h75 = hashk(0x6900, (c4 & 0xff) ^ f1.wrapping_mul(0x9e37_79b1));
        let f2 = self.follow2[(c4 & 0xffff) as usize];
        let h76 = hashk(0x6A00, (c4 & 0xffff) ^ f2.wrapping_mul(0x85eb_ca6b));
        let j3 = self.key_f3();
        let h77 = hashk(0x6B00, (c4 & 0x00ff_ffff) ^ self.follow3[j3].wrapping_mul(0xc2b2_ae35));
        let j4 = self.key_f4();
        let h78 = hashk(0x6C00, c4 ^ self.follow4[j4].wrapping_mul(0x27d4_eb2f));
        let h81 = if self.wordhash != 0 {
            let wk = self.wkey_exec();
            hashk(0x7000, self.wordhash ^ self.followw[wk].wrapping_mul(0xc2b2_ae35))
        } else {
            0
        };
        (h75, h76, h77, h78, h81, f2 & 0xff)
    }

    fn ctx_structure(&self) -> (r: (u32, u32, u32, u32, u32, u32, u32))
        requires
            self.history_wf(),
        ensures
            r.0 == self.h82(),
            r.1 == self.h83(),
            r.2 == self.h84(),
            r.3 == self.h85(),
            r.4 == self.h86(),
            r.5 == self.h87(),
            r.6 == self.h88(),
    {
        let c4 = self.c4;
        let rl = if self.run_len < 255 {
            self.run_len
        } else {
            255
        };
        let h82 = hashk(0x7100, (c4 & 0xff) | (rl << 8));
        let last_open = if self.nest_depth > 0 {
            self.nest_stack[self.nest_depth - 1] as u32
        } else {
            0
        };
        let h83 = hashk(0x7200, (self.nest_depth as u32 & 31) | ((c4 & 0xff) << 5));
        let h84 = hashk(0x7300, last_open | ((c4 & 0xff) << 8));
        let h85 = hashk(
            0x7400,
            last_open.wrapping_mul(0x9e37_79b1) ^ ((self.nest_depth as u32 & 31) << 16) ^ (c4
                & 0xffff),
        );
        let hn = (c4 & 0xf0f0_f0f0) ^ if self.pos >= 5 {
            (self.bk(5) & 0xf0) << 24
        } else {
            0
        };
        let h86 = hashk(0x7700, hn);
        let h87 = if self.pos >= 8 {
            hashk(
                0x7800,
                hn.wrapping_mul(0x9e37_79b1) ^ ((self.bk(6) & 0xf0) << 4) ^ ((self.bk(7) & 0xf0)
                    << 12) ^ ((self.bk(8) & 0xf0) << 20),
            )
        } else {
            hashk(0x7800, hn)
        };
        let h88 = hashk(0x7900, self.dpat_exec());
        (h82, h83, h84, h85, h86, h87, h88)
    }

    fn ctx_indirect_high(&self) -> (r: (u32, u32, u32, u32, u32, u32))
        requires
            self.history_wf(),
        ensures
            r.0 == self.h89(),
            r.1 == self.h90(),
            r.2 == self.h91(),
            r.3 == self.h92(),
            r.4 == self.h93(),
            r.5 == self.h94(),
    {
        let h89 = if self.pos >= 5 {
            let m5 = self.spec_m5_exec();
            let k5 = Self::shr9(m5);
            hashk(0x7A00, m5 ^ self.follow5[k5].wrapping_mul(0xc2b2_ae35))
        } else {
            0
        };
        let h90 = if self.pos >= 6 {
            let m6 = self.spec_m6_exec();
            let k6 = Self::shr9(m6);
            hashk(0x7B00, m6 ^ self.follow6[k6].wrapping_mul(0x9e37_79b1))
        } else {
            0
        };
        let hnm = self.hnm_exec();
        let khn = Self::shr9(hnm);
        let h91 = hashk(0x7C00, hnm ^ self.followhn[khn].wrapping_mul(0xc2b2_ae35));
        let dm = self.dpat_exec().wrapping_mul(0x85eb_ca6b);
        let kd = Self::shr9(dm);
        let h92 = hashk(0x7D00, dm ^ self.followd[kd].wrapping_mul(0x27d4_eb2f));
        let cck = cls4(self.c4);
        let h93 = hashk(0x7E00, cck ^ self.followc[cck as usize].wrapping_mul(0x9e37_79b1));
        let lnm = self.lnm_exec();
        let kln = Self::shr9(lnm);
        let h94 = hashk(0x7F00, lnm ^ self.followln[kln].wrapping_mul(0x85eb_ca6b));
        (h89, h90, h91, h92, h93, h94)
    }

    fn ctx_indirect_sparse(&self) -> (r: (u32, u32, u32, u32, u32, u32, u32, u32, u32, u32, u32))
        requires
            self.history_wf(),
        ensures
            r.0 == self.h95(),
            r.1 == self.h96(),
            r.2 == self.h97(),
            r.3 == self.h98(),
            r.4 == self.h99(),
            r.5 == self.h100(),
            r.6 == self.h101(),
            r.7 == self.h102(),
            r.8 == self.h103(),
            r.9 == self.h104(),
            r.10 == self.h105(),
    {
        let gk = self.gap_key_exec(3);
        let h95 = hashk(0x8000, (gk as u32) ^ self.followg[gk].wrapping_mul(0x27d4_eb2f));
        let sk = self.pair_key_exec(2, 4, 4);
        let h96 = hashk(0x8100, (sk as u32) ^ self.follows2[sk].wrapping_mul(0x9e37_79b1));
        let s3k = self.pair_key_exec(3, 6, 6);
        let h97 = hashk(0x8200, (s3k as u32) ^ self.follows3[s3k].wrapping_mul(0x85eb_ca6b));
        let g2k = self.gap_key_exec(5);
        let h98 = hashk(0x8300, (g2k as u32) ^ self.followg2[g2k].wrapping_mul(0xc2b2_ae35));
        let hn8 = self.hn8_exec();
        let khn8 = Self::shr9(hn8);
        let h99 = hashk(0x8500, hn8 ^ self.followhn8[khn8].wrapping_mul(0x27d4_eb2f));
        let s4k = self.pair_key_exec(4, 8, 8);
        let h100 = hashk(0x8600, (s4k as u32) ^ self.follows4[s4k].wrapping_mul(0x9e37_79b1));
        let ln8 = self.ln8_exec();
        let kln8 = Self::shr9(ln8);
        let h101 = hashk(0x8700, ln8 ^ self.followln8[kln8].wrapping_mul(0x27d4_eb2f));
        let g14k = self.gap_key_exec(4);
        let h102 = hashk(0x8800, (g14k as u32) ^ self.followg14[g14k].wrapping_mul(0x85eb_ca6b));
        let cc8 = self.cc8_exec();
        let h103 = hashk(0x8900, (cc8 as u32) ^ self.followcc8[cc8].wrapping_mul(0xc2b2_ae35));
        let s5k = self.pair_key_exec(5, 10, 10);
        let h104 = hashk(0x8A00, (s5k as u32) ^ self.follows5[s5k].wrapping_mul(0x27d4_eb2f));
        let g16k = self.gap_key_exec(6);
        let h105 = hashk(0x8B00, (g16k as u32) ^ self.followg16[g16k].wrapping_mul(0x9e37_79b1));
        (h95, h96, h97, h98, h99, h100, h101, h102, h103, h104, h105)
    }


    fn ctx_stage1(&self, h: &mut [u32; NCTX])
        requires
            self.history_wf(),
        ensures
            forall|i: int| 0 <= i < 19 ==> #[trigger] final(h)[i] == self.spec_ctxhash(i),
            forall|i: int|
                0 <= i < NCTX && !(0 <= i < 19) ==> #[trigger] final(h)[i] == old(h)[i],
    {
        h[0] = 0;
        h[1] = self.ctx_order(1);
        h[2] = self.ctx_order(2);
        h[3] = self.ctx_order(3);
        h[4] = self.ctx_order(4);
        let (a5, a6, a7, a8) = self.ctx_5_to_8();
        h[5] = a5;
        h[6] = a6;
        h[7] = a7;
        h[8] = a8;
        let (a9, a10, a11) = self.ctx_9_to_11();
        h[9] = a9;
        h[10] = a10;
        h[11] = a11;
        let (a12, a13, a14, a15, a16) = self.ctx_12_to_16();
        h[12] = a12;
        h[13] = a13;
        h[14] = a14;
        h[15] = a15;
        h[16] = a16;
        let (a17, a18) = self.ctx_17_18();
        h[17] = a17;
        h[18] = a18;
        assert forall|i: int| 0 <= i < 19 implies #[trigger] h[i] == self.spec_ctxhash(i) by {}
    }

    fn ctx_stage2(&self, h: &mut [u32; NCTX])
        requires
            self.history_wf(),
        ensures
            forall|i: int| 19 <= i < 29 ==> #[trigger] final(h)[i] == self.spec_ctxhash(i),
            forall|i: int|
                0 <= i < NCTX && !(19 <= i < 29) ==> #[trigger] final(h)[i] == old(h)[i],
    {
        h[19] = self.ctx_stride3(2, 0x1300);
        h[20] = self.ctx_gap(3, 0x1400);
        h[21] = self.ctx_gap(4, 0x1500);
        h[22] = self.ctx_gap(5, 0x1600);
        let (a23, a24, a25, _, _, _) = self.ctx_words();
        h[23] = a23;
        h[24] = a24;
        h[25] = a25;
        let (a26, a27, a28) = self.ctx_26_to_28();
        h[26] = a26;
        h[27] = a27;
        h[28] = a28;
        assert forall|i: int| 19 <= i < 29 implies #[trigger] h[i] == self.spec_ctxhash(i) by {}
    }

    fn ctx_stage3(&self, h: &mut [u32; NCTX])
        requires
            self.history_wf(),
        ensures
            forall|i: int| 29 <= i < 47 ==> #[trigger] final(h)[i] == self.spec_ctxhash(i),
            forall|i: int|
                0 <= i < NCTX && !(29 <= i < 47) ==> #[trigger] final(h)[i] == old(h)[i],
    {
        h[29] = self.ctx_stride3(3, 0x1D00);
        h[30] = self.ctx_stride3(4, 0x1E00);
        h[31] = self.ctx_stride3(5, 0x1F00);
        h[32] = self.ctx_stride3(6, 0x2000);
        h[33] = self.ctx_stride3(7, 0x2100);
        h[34] = self.ctx_stride3(8, 0x2200);
        h[35] = self.ctx_stride3(9, 0x2300);
        h[36] = self.ctx_stride3(10, 0x2400);
        h[37] = self.ctx_stride3(11, 0x2500);
        h[38] = self.ctx_stride3(12, 0x2600);
        h[39] = self.ctx_stride3(13, 0x2700);
        h[40] = self.ctx_stride3(14, 0x2800);
        h[41] = self.ctx_stride3(15, 0x2900);
        h[42] = self.ctx_stride3(16, 0x2A00);
        h[43] = self.ctx_stride3(17, 0x2B00);
        h[44] = self.ctx_stride3(18, 0x2C00);
        h[45] = self.ctx_stride3(19, 0x2D00);
        h[46] = self.ctx_stride3(20, 0x2E00);

        assert forall|i: int| 29 <= i < 47 implies #[trigger] h[i] == self.spec_ctxhash(i) by {}
    }

    fn ctx_stage4(&self, h: &mut [u32; NCTX])
        requires
            self.history_wf(),
        ensures
            forall|i: int| 47 <= i < 66 ==> #[trigger] final(h)[i] == self.spec_ctxhash(i),
            forall|i: int|
                0 <= i < NCTX && !(47 <= i < 66) ==> #[trigger] final(h)[i] == old(h)[i],
    {
        h[47] = self.ctx_gap(6, 0x3000);
        h[48] = self.ctx_gap(7, 0x3100);
        h[49] = self.ctx_gap(8, 0x3200);
        h[50] = self.ctx_gap(9, 0x3300);
        h[51] = self.ctx_gap(10, 0x3400);
        h[52] = self.ctx_gap(11, 0x3500);
        h[53] = self.ctx_gap(12, 0x3600);
        h[54] = self.ctx_gap(13, 0x3700);
        h[55] = self.ctx_stride4(2, 0x4000);
        h[56] = self.ctx_stride4(3, 0x4100);
        h[57] = self.ctx_stride4(4, 0x4200);
        h[58] = self.ctx_stride4(5, 0x4300);
        h[59] = self.ctx_stride4(6, 0x4400);
        h[60] = self.ctx_stride4(7, 0x4500);
        h[61] = self.ctx_stride4(8, 0x4600);
        h[62] = self.ctx_stride4(9, 0x4700);
        h[63] = self.ctx_stride4(10, 0x4800);
        h[64] = self.ctx_stride4(11, 0x4900);
        h[65] = self.ctx_stride4(12, 0x4A00);

        assert forall|i: int| 47 <= i < 66 implies #[trigger] h[i] == self.spec_ctxhash(i) by {}
    }

    fn ctx_stage5(&self, h: &mut [u32; NCTX])
        requires
            self.history_wf(),
        ensures
            forall|i: int| 66 <= i < 75 ==> #[trigger] final(h)[i] == self.spec_ctxhash(i),
            forall|i: int|
                0 <= i < NCTX && !(66 <= i < 75) ==> #[trigger] final(h)[i] == old(h)[i],
    {
        let (_, _, _, a66, a67, a68) = self.ctx_words();
        h[66] = a66;
        h[67] = a67;
        h[68] = a68;
        let (a69, a70, a71, a74, _, _, _) = self.ctx_2d();
        h[69] = a69;
        h[70] = a70;
        h[71] = a71;
        h[74] = a74;
        let (a72, a73) = self.ctx_record();
        h[72] = a72;
        h[73] = a73;
        assert forall|i: int| 66 <= i < 75 implies #[trigger] h[i] == self.spec_ctxhash(i) by {}
    }

    fn ctx_stage6(&self, h: &mut [u32; NCTX]) -> (r: (u32, u32))
        requires
            self.history_wf(),
        ensures
            forall|i: int| 75 <= i < 89 ==> #[trigger] final(h)[i] == self.spec_ctxhash(i),
            forall|i: int|
                0 <= i < NCTX && !(75 <= i < 89) ==> #[trigger] final(h)[i] == old(h)[i],
            r.0 == self.spec_above_byte(),
            r.1 == self.follow2@[(self.c4 & 0xffff) as int] & 0xff,
    {
        let (_, _, _, _, a79, a80, above_byte) = self.ctx_2d();
        h[79] = a79;
        h[80] = a80;
        let (a75, a76, a77, a78, a81, ind_pred) = self.ctx_indirect_low();
        h[75] = a75;
        h[76] = a76;
        h[77] = a77;
        h[78] = a78;
        h[81] = a81;
        let (a82, a83, a84, a85, a86, a87, a88) = self.ctx_structure();
        h[82] = a82;
        h[83] = a83;
        h[84] = a84;
        h[85] = a85;
        h[86] = a86;
        h[87] = a87;
        h[88] = a88;
        assert forall|i: int| 75 <= i < 89 implies #[trigger] h[i] == self.spec_ctxhash(i) by {}
        (above_byte, ind_pred)
    }

    fn ctx_stage7(&self, h: &mut [u32; NCTX])
        requires
            self.history_wf(),
        ensures
            forall|i: int| 89 <= i < 106 ==> #[trigger] final(h)[i] == self.spec_ctxhash(i),
            forall|i: int|
                0 <= i < NCTX && !(89 <= i < 106) ==> #[trigger] final(h)[i] == old(h)[i],
    {
        let (a89, a90, a91, a92, a93, a94) = self.ctx_indirect_high();
        h[89] = a89;
        h[90] = a90;
        h[91] = a91;
        h[92] = a92;
        h[93] = a93;
        h[94] = a94;
        let (a95, a96, a97, a98, a99, a100, a101, a102, a103, a104, a105) = self.ctx_indirect_sparse();
        h[95] = a95;
        h[96] = a96;
        h[97] = a97;
        h[98] = a98;
        h[99] = a99;
        h[100] = a100;
        h[101] = a101;
        h[102] = a102;
        h[103] = a103;
        h[104] = a104;
        h[105] = a105;
        assert forall|i: int| 89 <= i < 106 implies #[trigger] h[i] == self.spec_ctxhash(i) by {}
    }

    /// Recomputes every context hash for the byte about to be coded (and the
    /// byte-above and indirect-prediction side values); nothing else changes.
    pub fn byte_start(&mut self)
        requires
            old(self).wf(),
        ensures
            final(self).wf(),
            forall|i: int|
                0 <= i < NCTX ==> #[trigger] final(self).ctxhash[i] == old(self).spec_ctxhash(i),
            final(self).above_byte == old(self).spec_above_byte(),
            final(self).ind_pred == old(self).follow2@[(old(self).c4 & 0xffff) as int] & 0xff,
            *final(self) == (Cm {
                ctxhash: final(self).ctxhash,
                above_byte: final(self).above_byte,
                ind_pred: final(self).ind_pred,
                ..*old(self)
            }),
    {
        let mut h = [0u32; NCTX];
        self.ctx_stage1(&mut h);
        self.ctx_stage2(&mut h);
        self.ctx_stage3(&mut h);
        self.ctx_stage4(&mut h);
        self.ctx_stage5(&mut h);
        let (above_byte, ind_pred) = self.ctx_stage6(&mut h);
        self.ctx_stage7(&mut h);
        self.ctxhash = h;
        self.above_byte = above_byte;
        self.ind_pred = ind_pred;
    }
}

} // verus!
