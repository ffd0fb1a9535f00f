use vstd::prelude::*;
use crate::tables::{squash_d, logit_index};

verus! {

/// Interpolation points per APM context.
pub const APM_S: usize = 33;

/// Adaptive probability map (SSE): per context, 33 calibration points over
/// the logit axis, interpolated and trained toward the coded bit.
pub struct Apm {
    pub t: Vec<u16>,
    pub idx: usize,
}

/// Initial calibration value of point `j`: the squashed logit `(j - 16) * 128`
/// scaled to 16 bits.
pub open spec fn apm_init_value(squash: Seq<i32>, j: int) -> int {
    (squash[logit_index((j - 16) * 128)] * 16) as u16 as int
}

/// Clamps a probability to `1..=65534`.
pub open spec fn clamp16(p: int) -> int {
    if p < 1 {
        1
    } else if p > 65534 {
        65534
    } else {
        p
    }
}

/// The interpolation point pair used for probability `p` in context `ctx`.
pub open spec fn apm_pos(stretch16: Seq<i32>, ctx: int, p: int) -> int {
    ctx * 33 + (stretch16[p] + 2048) / 128
}

/// Interpolated calibration of probability `p` in context `ctx`.
pub open spec fn apm_value(t: Seq<u16>, stretch16: Seq<i32>, ctx: int, p: int) -> int {
    let s = stretch16[p] + 2048;
    let w = s % 128;
    let i = apm_pos(stretch16, ctx, p);
    clamp16((t[i] * (128 - w) + t[i + 1] * w) / 128)
}

/// Target of an APM point after coding `bit`.
pub open spec fn apm_target(bit: int) -> int {
    65550 * bit
}

/// A point value moved 1/128 of the way toward the target (step rounded down).
pub open spec fn apm_step(a: int, bit: int) -> int {
    a + (apm_target(bit) - a) / 128
}

impl Apm {
    /// Number of contexts.
    pub open spec fn contexts(&self) -> int {
        (self.t@.len() / 33) as int
    }

    pub open spec fn wf(&self) -> bool {
        &&& self.t@.len() % 33 == 0
        &&& self.t@.len() >= 33
        &&& self.idx + 1 < self.t@.len()
    }

    /// An APM with `n` contexts, each point initialised to its squashed logit.
    pub fn new(n: usize, squash: &Vec<i32>) -> (r: Apm)
        requires
            n * 33 <= usize::MAX,
            squash@.len() == 4096,
            forall|i: int| 0 <= i < 4096 ==> 0 <= #[trigger] squash@[i] <= 4095,
        ensures
            n >= 1 ==> r.wf(),
            r.contexts() == n,
            r.t@.len() == n * 33,
            r.idx == 0,
            forall|c: int, j: int|
                0 <= c < n && 0 <= j < 33 ==> #[trigger] r.t@[c * 33 + j] as int == apm_init_value(
                    squash@,
                    j,
                ),
    {
        let mut row: Vec<u16> = Vec::new();
        let mut j: usize = 0;
        while j < APM_S
            invariant
                j <= 33,
                row@.len() == j,
                squash@.len() == 4096,
                forall|i: int| 0 <= i < 4096 ==> 0 <= #[trigger] squash@[i] <= 4095,
                forall|k: int| 0 <= k < j ==> #[trigger] row@[k] as int == apm_init_value(squash@, k),
            decreases 33 - j,
        {
            let v = squash_d(squash, (j as i32 - 16) * 128);
            row.push((v * 16) as u16);
            j += 1;
        }
        let mut t: Vec<u16> = Vec::new();
        let mut c: usize = 0;
        while c < n
            invariant
                c <= n,
                n * 33 <= usize::MAX,
                row@.len() == 33,
                t@.len() == c * 33,
                forall|k: int| 0 <= k < 33 ==> #[trigger] row@[k] as int == apm_init_value(squash@, k),
                forall|c2: int, j2: int|
                    0 <= c2 < c && 0 <= j2 < 33 ==> #[trigger] t@[c2 * 33 + j2] as int
                        == apm_init_value(squash@, j2),
            decreases n - c,
        {
            let ghost old_t = t@;
            let mut k: usize = 0;
            while k < APM_S
                invariant
                    k <= 33,
                    c < n,
                    n * 33 <= usize::MAX,
                    row@.len() == 33,
                    t@.len() == c * 33 + k,
                    t@.subrange(0, c * 33) == old_t,
                    old_t.len() == c * 33,
                    forall|k2: int| 0 <= k2 < k ==> #[trigger] t@[c * 33 + k2] == row@[k2],
                decreases 33 - k,
            {
                t.push(row[k]);
                k += 1;
            }
            proof {
                assert forall|c2: int, j2: int| 0 <= c2 < c + 1 && 0 <= j2 < 33 implies #[trigger] t@[c2
                    * 33 + j2] as int == apm_init_value(squash@, j2) by {
                    if c2 < c {
                        assert(c2 * 33 + j2 < c * 33) by (nonlinear_arith)
                            requires
                                c2 < c,
                                j2 < 33,
                        ;
                        assert(t@[c2 * 33 + j2] == old_t[c2 * 33 + j2]) by {
                            assert(t@.subrange(0, c * 33)[c2 * 33 + j2] == t@[c2 * 33 + j2]);
                        }
                    } else {
                        assert(t@[c * 33 + j2] == row@[j2]);
                    }
                }
            }
            c += 1;
        }
        proof {
            assert(t@.len() / 33 == n as int) by (nonlinear_arith)
                requires
                    t@.len() == n * 33,
            ;
        }
        Apm { t, idx: 0 }
    }

    /// Calibrates the 16-bit probability `p` in context `ctx` and remembers the
    /// point pair used, for `update`.
    pub fn apply16(&mut self, stretch16: &Vec<i32>, ctx: usize, p: i32) -> (r: i32)
        requires
            old(self).wf(),
            0 <= ctx < old(self).contexts(),
            0 <= p < 65536,
            stretch16@.len() == 65536,
            forall|i: int| 0 <= i < 65536 ==> -2048 <= #[trigger] stretch16@[i] <= 2047,
        ensures
            final(self).wf(),
            final(self).t@ == old(self).t@,
            final(self).idx == apm_pos(stretch16@, ctx as int, p as int),
            r as int == apm_value(old(self).t@, stretch16@, ctx as int, p as int),
            1 <= r <= 65534,
    {
        let tl = self.t.len();
        let s = stretch16[p as usize] + 2048;
        let w = s & 127;
        let j = (s >> 7) as usize;
        proof {
            assert(w == s % 128 && j == s / 128) by (bit_vector)
                requires
                    0 <= s < 4096,
                    w == s & 127,
                    j == (s >> 7) as usize,
            ;
            assert(ctx * 33 + j + 1 < self.t@.len()) by (nonlinear_arith)
                requires
                    ctx < self.t@.len() / 33,
                    self.t@.len() % 33 == 0,
                    j <= 31,
            ;
        }
        self.idx = ctx * APM_S + j;
        let lo = self.t[self.idx] as i32;
        let hi = self.t[self.idx + 1] as i32;
        proof {
            assert(0 <= lo * (128 - w) + hi * w <= 65535 * 128) by (nonlinear_arith)
                requires
                    0 <= lo <= 65535,
                    0 <= hi <= 65535,
                    0 <= w < 128,
            ;
        }
        let sum = lo * (128 - w) + hi * w;
        let mut pp = sum >> 7;
        assert(pp == sum / 128) by (bit_vector)
            requires
                pp == sum >> 7,
                sum >= 0,
        ;
        if pp < 1 {
            pp = 1;
        }
        if pp > 65534 {
            pp = 65534;
        }
        pp
    }

    /// Trains the point pair chosen by the last `apply16` toward `bit`.
    pub fn update(&mut self, bit: i32)
        requires
            old(self).wf(),
            bit == 0 || bit == 1,
        ensures
            final(self).wf(),
            final(self).idx == old(self).idx,
            final(self).t@ == old(self).t@.update(
                old(self).idx as int,
                apm_step(old(self).t@[old(self).idx as int] as int, bit as int) as u16,
            ).update(
                old(self).idx + 1,
                apm_step(old(self).t@[old(self).idx + 1] as int, bit as int) as u16,
            ),
            0 <= apm_step(old(self).t@[old(self).idx as int] as int, bit as int) <= 65535,
            0 <= apm_step(old(self).t@[old(self).idx + 1] as int, bit as int) <= 65535,
    {
        assert((bit << 16) == 65536 * bit && (bit << 4) == 16 * bit) by (bit_vector)
            requires
                bit == 0 || bit == 1,
        ;
        let g = (bit << 16) + (bit << 4) - bit - bit;
        let tl = self.t.len();
        let i = self.idx;
        let a = self.t[i] as i32;
        let b = self.t[i + 1] as i32;
        let ga = g - a;
        let gb = g - b;
        let da = ga >> 7;
        let db = gb >> 7;
        assert(da as int == ga / 128 && db as int == gb / 128) by (bit_vector)
            requires
                da == ga >> 7,
                db == gb >> 7,
        ;
        assert(0 <= a + da <= 65535 && 0 <= b + db <= 65535) by (nonlinear_arith)
            requires
                0 <= a <= 65535,
                0 <= b <= 65535,
                g == 65550 * bit,
                bit == 0 || bit == 1,
                da == (g - a) / 128,
                db == (g - b) / 128,
        ;
        self.t.set(i, (a + da) as u16);
        self.t.set(i + 1, (b + db) as u16);
    }
}

} // verus!
