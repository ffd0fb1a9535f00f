use vstd::prelude::*;

verus! {

/// A context-selected logistic mixer: `nctx` weight rows of `n` inputs. A
/// step selects one row, dots it with the inputs and trains it online.
pub struct Mixer {
    pub nctx: usize,
    pub w: Vec<i32>,
    pub ctx: usize,
    pub pr: i32,
    pub lr: i32,
}

/// `sum_{i < k} w[base + i] * x[i]`.
pub open spec fn dot_prefix(w: Seq<i32>, base: int, x: Seq<i64>, k: int) -> int
    decreases k,
{
    if k <= 0 {
        0
    } else {
        dot_prefix(w, base, x, k - 1) + w[base + k - 1] * x[k - 1]
    }
}

/// Clamps a logit to `-2047..=2047`.
pub open spec fn clamp_logit(d: int) -> int {
    if d > 2047 {
        2047
    } else if d < -2047 {
        -2047
    } else {
        d
    }
}

/// Logit of a dot product: the product scaled down by 2^16 (rounding down),
/// truncated to 32 bits, then clamped.
pub open spec fn spec_logit(dot: int) -> int {
    clamp_logit((dot / 65536) as i32 as int)
}

/// Error times learning rate of a training step: `((bit << 12) - pr) * lr`.
pub open spec fn err_lr(bit: int, pr: int, lr: int) -> int {
    (4096 * bit - pr) * lr
}

/// A weight after one training step on input `x`.
pub open spec fn trained_weight(w: i32, x: i32, e: int) -> i32 {
    w.wrapping_add(((x * e) / 65536) as i32)
}

proof fn lemma_dot_bound(w: Seq<i32>, base: int, x: Seq<i64>, k: int)
    requires
        0 <= k <= x.len(),
        forall|i: int| 0 <= i < x.len() ==> -2048 <= #[trigger] x[i] <= 2048,
    ensures
        -k * 0x1_0000_0000_000 <= dot_prefix(w, base, x, k) <= k * 0x1_0000_0000_000,
    decreases k,
{
    if k > 0 {
        lemma_dot_bound(w, base, x, k - 1);
        let a = w[base + k - 1];
        let b = x[k - 1];
        assert(-0x1_0000_0000_000 <= a * b <= 0x1_0000_0000_000) by (nonlinear_arith)
            requires
                -0x8000_0000 <= a < 0x8000_0000,
                -2048 <= b <= 2048,
        ;
    }
}

/// `a / b` as `i32` division computes it for `a >= 0`: rounded toward zero.
pub open spec fn i32_quotient(a: int, b: i32) -> int {
    if b > 0 {
        a / (b as int)
    } else {
        -(a / (-(b as int)))
    }
}

impl Mixer {
    /// Well-formed for `n` inputs.
    pub open spec fn wf(&self, n: int) -> bool {
        &&& self.w@.len() == n * self.nctx
        &&& 0 <= self.ctx < self.nctx
        &&& 1 <= self.pr <= 4095
        &&& 0 <= self.lr <= 16
    }

    /// Row `ctx`'s first weight position.
    pub open spec fn row(&self, n: int) -> int {
        self.ctx * n
    }

    /// A mixer of `nctx` rows over `n` inputs, every weight `65536 / n` (with
    /// `n` taken as an `i32`), row 0 selected and prediction 2048.
    pub fn new(n: usize, nctx: usize, lr: i32) -> (m: Mixer)
        requires
            n as i32 != 0,
            n * nctx <= usize::MAX,
        ensures
            1 <= nctx && 0 <= lr <= 16 ==> m.wf(n as int),
            m.w@.len() == n * nctx,
            m.nctx == nctx,
            m.ctx == 0,
            m.pr == 2048,
            m.lr == lr,
            forall|i: int|
                0 <= i < n * nctx ==> #[trigger] m.w@[i] as int == i32_quotient(65536, n as i32),
            n <= 0x7fff_ffff ==> forall|i: int|
                0 <= i < n * nctx ==> #[trigger] m.w@[i] == 65536int / (n as int),
    {
        let d = n as i32;
        let v: i32 = if d > 0 {
            65536i32 / d
        } else {
            let a: u32 = (0i64 - d as i64) as u32;
            -((65536u32 / a) as i32)
        };
        proof {
            if n <= 0x7fff_ffff {
                assert(d as int == n as int) by (bit_vector)
                    requires
                        d == n as i32,
                        n <= 0x7fff_ffff,
                ;
            }
        }
        let w = vec![v; n * nctx];
        Mixer { nctx, w, ctx: 0, pr: 2048, lr }
    }

    /// Dot product of the selected row with the first `n` inputs; zero inputs
    /// are skipped (they add nothing).
    pub fn dot(&self, x: &[i64], n: usize) -> (d: i64)
        requires
            self.wf(n as int),
            x@.len() == n,
            n <= 1024,
            forall|i: int| 0 <= i < n ==> -2048 <= #[trigger] x@[i] <= 2048,
        ensures
            d as int == dot_prefix(self.w@, self.row(n as int), x@, n as int),
    {
        proof {
            assert(self.ctx * n + n <= self.w@.len()) by (nonlinear_arith)
                requires
                    self.ctx < self.nctx,
                    self.w@.len() == n * self.nctx,
            ;
        }
        let wl = self.w.len();
        let base = self.ctx * n;
        let mut acc: i64 = 0;
        let mut i: usize = 0;
        while i < n
            invariant
                i <= n,
                n <= 1024,
                base == self.ctx * n,
                base + n <= wl,
                wl == self.w@.len(),
                x@.len() == n,
                forall|j: int| 0 <= j < n ==> -2048 <= #[trigger] x@[j] <= 2048,
                acc as int == dot_prefix(self.w@, base as int, x@, i as int),
            decreases n - i,
        {
            proof {
                lemma_dot_bound(self.w@, base as int, x@, i as int + 1);
            }
            let xi = x[i];
            let wi = self.w[base + i];
            assert(dot_prefix(self.w@, base as int, x@, i as int + 1) == dot_prefix(
                self.w@,
                base as int,
                x@,
                i as int,
            ) + wi * xi);
            if xi != 0 {
                assert(-0x1_0000_0000_000 <= wi * xi <= 0x1_0000_0000_000) by (nonlinear_arith)
                    requires
                        -0x8000_0000 <= wi < 0x8000_0000,
                        -2048 <= xi <= 2048,
                ;
                acc = acc + wi as i64 * xi;
            } else {
                assert(wi * xi == 0) by (nonlinear_arith)
                    requires
                        xi == 0,
                ;
            }
            i += 1;
        }
        acc
    }

    /// Trains the selected row on inputs `x` toward `bit`:
    /// `w[i] += (x[i] * err * lr) >> 16`, wrapping; zero inputs leave their
    /// weights as they are.
    pub fn train(&mut self, x: &[i32], n: usize, bit: i32)
        requires
            old(self).wf(n as int),
            x@.len() == n,
            bit == 0 || bit == 1,
            forall|i: int| 0 <= i < n ==> -2048 <= #[trigger] x@[i] <= 2048,
        ensures
            final(self).wf(n as int),
            final(self).nctx == old(self).nctx,
            final(self).ctx == old(self).ctx,
            final(self).pr == old(self).pr,
            final(self).lr == old(self).lr,
            final(self).w@.len() == old(self).w@.len(),
            forall|i: int|
                0 <= i < n ==> #[trigger] final(self).w@[old(self).row(n as int) + i]
                    == trained_weight(
                    old(self).w@[old(self).row(n as int) + i],
                    x@[i],
                    err_lr(bit as int, old(self).pr as int, old(self).lr as int),
                ),
            forall|j: int|
                0 <= j < old(self).w@.len() && !(old(self).row(n as int) <= j < old(self).row(
                    n as int,
                ) + n) ==> #[trigger] final(self).w@[j] == old(self).w@[j],
    {
        assert(bit << 12 == 4096 * bit) by (bit_vector)
            requires
                bit == 0 || bit == 1,
        ;
        proof {
            assert(self.ctx * n + n <= self.w@.len()) by (nonlinear_arith)
                requires
                    self.ctx < self.nctx,
                    self.w@.len() == n * self.nctx,
            ;
            assert(-4095 * 16 <= ((bit << 12) - self.pr) * self.lr <= 4095 * 16) by (
            nonlinear_arith)
                requires
                    bit << 12 == 4096 * bit,
                    bit == 0 || bit == 1,
                    1 <= self.pr <= 4095,
                    0 <= self.lr <= 16,
            ;
        }
        let e = ((bit << 12) - self.pr) * self.lr;
        let wl = self.w.len();
        let base = self.ctx * n;
        let ghost w0 = self.w@;
        let mut i: usize = 0;
        while i < n
            invariant
                i <= n,
                self.nctx == old(self).nctx,
                self.ctx == old(self).ctx,
                self.pr == old(self).pr,
                self.lr == old(self).lr,
                w0 == old(self).w@,
                base == self.ctx * n,
                base + n <= wl,
                wl == self.w@.len(),
                w0.len() == wl,
                x@.len() == n,
                -4095 * 16 <= e <= 4095 * 16,
                forall|j: int| 0 <= j < n ==> -2048 <= #[trigger] x@[j] <= 2048,
                forall|j: int|
                    0 <= j < i ==> #[trigger] self.w@[base + j] == trained_weight(
                        w0[base + j],
                        x@[j],
                        e as int,
                    ),
                forall|j: int|
                    0 <= j < wl && !(base <= j < base + i) ==> #[trigger] self.w@[j] == w0[j],
            decreases n - i,
        {
            let xi = x[i];
            assert(-2048 * 65520 <= xi * e <= 2048 * 65520) by (nonlinear_arith)
                requires
                    -2048 <= xi <= 2048,
                    -65520 <= e <= 65520,
            ;
            let prod = xi * e;
            let step = prod >> 16;
            assert(step as int == prod as int / 65536) by (bit_vector)
                requires
                    step == prod >> 16,
            ;
            if xi != 0 {
                let old_w = self.w[base + i];
                self.w.set(base + i, old_w.wrapping_add(step));
            } else {
                assert(xi * e == 0) by (nonlinear_arith)
                    requires
                        xi == 0,
                ;
                assert(step == 0);
                assert(w0[base + i].wrapping_add(0) == w0[base + i]);
            }
            i += 1;
        }
    }
}

} // verus!
