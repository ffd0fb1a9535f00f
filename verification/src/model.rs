use vstd::prelude::*;
use crate::adaptive::{build_rate_table, spec_rate};
use crate::apm::Apm;
use crate::hashing::{hashk, spec_hashk};
use crate::mixer::Mixer;
use crate::tables::Tables;

verus! {

/// Number of context models.
pub const NCTX: usize = 106;
/// Mixer input layout: `[0, NCTX)` direct counters, `[SM_BASE, SM_BASE + NCTX)`
/// bit-history state maps, then six match models, the five variable-order
/// Markov and the context-tree predictions supplied by the caller, then the
/// run maps.
pub const SM_BASE: usize = 106;
pub const MM_BASE: usize = 212;
pub const DMC_IN: usize = 218;
pub const DMC2_IN: usize = 219;
pub const CTW_IN: usize = 220;
pub const DMC3_IN: usize = 221;
pub const DMC4_IN: usize = 222;
pub const DMC5_IN: usize = 223;
pub const RUN_BASE: usize = 224;
/// Number of run maps.
pub const NRUN: usize = 27;
/// The context model whose hash each run map shares.
pub const RUN_CTX: [usize; NRUN] = [
    2, 3, 4, 5, 6, 7, 9, 10, 11, 18, 26, 27, 28, 23, 25, 8, 19, 29, 30, 20, 21, 22, 24, 31, 32, 33,
    17,
];
pub const RUN_SM_K: u32 = 1;
pub const RUN_SM_CAP: u32 = 255;
pub const MM_SM_K: u32 = 1;
pub const MM_SM_CAP: u32 = 511;
/// Number of mixer inputs.
pub const NINPUT: usize = 251;
/// Default context-table size (bits).
pub const TBITS: u32 = 20;
pub const MIXCTX: usize = 16384;
pub const NGLN_HS: usize = 1;
/// Number of layer-1 specialist mixers.
pub const NL1: usize = 33;
/// Number of layer-2 combiners.
pub const NL2: usize = 16;
pub const GLN_BITS: u32 = 14;
pub const GLN_NSEL: usize = 22;
/// Base predictions that feed the halfspace gate.
pub const GLN_SEL: [usize; GLN_NSEL] = [
    0, 1, 2, 3, 4, 5, 6, 106, 107, 108, 109, 110, 111, 112, 212, 213, 214, 215, 216, 217, 218, 220,
];
pub const L1LR: i32 = 8;
pub const L2LR: i32 = 8;
pub const MIX3CTX: usize = 8192;
pub const MIX4CTX: usize = 8192;
/// Bits of the hashed follow-history tables.
pub const FBITS: u32 = 23;
pub const WAYS: usize = 8;
pub const WAYS_LOG: u32 = 3;
pub const FSIZE: usize = 0x80_0000;
pub const CNT_LIMIT: i32 = 254;
pub const RATE_FLOOR: i32 = 16;
/// Row counts of the layer-1 specialists.
pub const L1_NCTX: [usize; NL1] = [
    16384, 256, 256, 8192, 8192, 64, 4096, 8192, 8192, 4096, 4096, 512, 256, 1024, 4096, 256, 256,
    64, 32, 16, 64, 32, 16384, 16384, 256, 2048, 256, 256, 2048, 256, 256, 256, 256,
];
/// Row counts of the layer-2 combiners.
pub const L2_NCTX: [usize; NL2] = [
    256, 256, 256, 256, 256, 256, 256, 256, 512, 256, 256, 2048, 2048, 256, 256, 256,
];
/// Match models: hash-table bits, longest length a state-map cell
/// distinguishes, state-map cells, and shortest match that is kept.
pub const MM_BITS: [u32; 6] = [23, 23, 22, 23, 23, 23];
pub const MM_LCAP: [i32; 6] = [32, 32, 84, 72, 72, 32];
pub const MM_SMN: [usize; 6] = [80, 80, 184, 160, 160, 80];
pub const MM_MINLEN: [i32; 6] = [1, 8, 10, 12, 14, 2];
/// Length limit of a match.
pub const MAXLEN: i32 = 0x3ff;

/// One context table: per slot a 16-bit probability stored as `p - 32768`,
/// an update count, a bit-history state and a checksum (associative tables).
pub struct CtxTable {
    pub cp: Vec<i16>,
    pub cn: Vec<u8>,
    pub st: Vec<u8>,
    pub ck: Vec<u8>,
}

impl CtxTable {
    pub open spec fn len(&self) -> int {
        self.cp@.len() as int
    }

    pub open spec fn wf(&self) -> bool {
        &&& self.cn@.len() == self.cp@.len()
        &&& self.st@.len() == self.cp@.len()
        &&& self.ck@.len() == self.cp@.len()
    }

    /// All slots zero.
    pub open spec fn zeroed(&self) -> bool {
        forall|i: int|
            0 <= i < self.len() ==> #[trigger] self.cp@[i] == 0 && self.cn@[i] == 0
                && self.st@[i] == 0 && self.ck@[i] == 0
    }

    fn new(n: usize) -> (t: CtxTable)
        ensures
            t.wf(),
            t.len() == n,
            t.zeroed(),
    {
        CtxTable { cp: vec![0i16; n], cn: vec![0u8; n], st: vec![0u8; n], ck: vec![0u8; n] }
    }
}

/// A match model: a hash of the last few bytes indexes the position where
/// that context last occurred; while the match holds, the byte that followed
/// it there is predicted.
pub struct MatchModel {
    pub tab: Vec<u32>,
    pub ptr: u32,
    pub len: i32,
    pub pbyte: i32,
    pub sm: Vec<u32>,
    pub used: bool,
    pub idx: usize,
}

impl MatchModel {
    pub open spec fn wf(&self, j: int) -> bool {
        &&& self.tab@.len() == vstd::arithmetic::power2::pow2(MM_BITS[j] as nat)
        &&& self.sm@.len() == MM_SMN[j]
        &&& self.idx < self.sm@.len()
        &&& 0 <= self.len <= MAXLEN
        &&& -1 <= self.pbyte <= 255
    }

    fn new(j: usize) -> (m: MatchModel)
        requires
            j < 6,
        ensures
            m.wf(j as int),
            m.ptr == 0 && m.len == 0 && m.pbyte == -1 && !m.used && m.idx == 0,
            forall|i: int| 0 <= i < m.tab@.len() ==> #[trigger] m.tab@[i] == 0,
            forall|i: int| 0 <= i < m.sm@.len() ==> #[trigger] m.sm@[i] == 0x8000_0000u32,
    {
        let bits = MM_BITS[j];
        proof {
            vstd::arithmetic::power2::lemma2_to64();
            vstd::arithmetic::power2::lemma_pow2(bits as nat);
        }
        assert(1usize << bits == vstd::arithmetic::power2::pow2(bits as nat)) by {
            vstd::arithmetic::power2::lemma2_to64();
            assert(bits == 22 || bits == 23);
            assert(1usize << 22u32 == 0x40_0000usize) by (bit_vector);
            assert(1usize << 23u32 == 0x80_0000usize) by (bit_vector);
        }
        MatchModel {
            tab: vec![0u32; 1usize << bits],
            ptr: 0,
            len: 0,
            pbyte: -1,
            sm: vec![0x8000_0000u32; MM_SMN[j]],
            used: false,
            idx: 0,
        }
    }
}

/// Size (bits) of context table `i`: order 0 needs only 512 slots, the
/// associative tables grow to 2^22 for large inputs, the rest use 2^20.
pub open spec fn table_bits(i: int, big: bool) -> u32 {
    if i == 0 {
        9
    } else if is_assoc(i) {
        if big {
            22
        } else {
            20
        }
    } else {
        TBITS
    }
}

/// Context models whose tables are 8-way set-associative: all but order 0,
/// 1, 2, the bytes-2-3 model and the char-class indirect model.
pub open spec fn is_assoc(i: int) -> bool {
    !(i == 0 || i == 1 || i == 2 || i == 8 || i == 93)
}

/// History buffer size for an expected input length: the least power of two
/// not below `expected_len + 16`, at most 2^27 and at least 2^16.
pub open spec fn buf_size(expected_len: int) -> int {
    let p = pow2_at_least(expected_len + 16, 27);
    if p < 0x1_0000 {
        0x1_0000
    } else {
        p
    }
}

/// Least `2^k` (k at most `cap`) that is at least `n`; `2^cap` if none is.
pub open spec fn pow2_at_least(n: int, cap: nat) -> int {
    pow2_from(n, 0, cap)
}

pub open spec fn pow2_from(n: int, k: nat, cap: nat) -> int
    decreases cap - k,
{
    if k >= cap || vstd::arithmetic::power2::pow2(k) >= n {
        vstd::arithmetic::power2::pow2(k) as int
    } else {
        pow2_from(n, k + 1, cap)
    }
}

/// Sign (+1 / -1) of halfspace weight `i` of gate bit `k`.
pub open spec fn gln_weight(k: int, i: int) -> int {
    let seed = (k as u32).wrapping_mul(0x9E37_79B1u32) ^ 0x5bd1_e995u32;
    if (spec_hashk(seed, i as u32) >> 19) & 1 == 0 {
        1
    } else {
        -1
    }
}

/// The context-mixing predictor's state.
pub struct Cm {
    pub gln_hp: Vec<i8>,
    pub tables: Tables,
    pub tab: Vec<CtxTable>,
    pub sm: Vec<u32>,
    pub sm_idx: [usize; NCTX],
    pub tmask: [u32; NCTX],
    pub assoc: [bool; NCTX],
    pub bmask: [u32; NCTX],
    pub cshift: [u32; NCTX],
    pub rate_tab: [i32; 256],
    pub ctxhash: [u32; NCTX],
    pub idx: [usize; NCTX],
    pub mix_in: [i32; NINPUT],
    pub mix_in64: [i64; NINPUT],
    pub l1: Vec<Mixer>,
    pub l2: Vec<Mixer>,
    pub l2_in: [i32; NL1],
    pub l2_in64: [i64; NL1],
    pub buf: Vec<u8>,
    pub bufmask: u32,
    pub pos: u32,
    pub mm: Vec<MatchModel>,
    pub apm1: Apm,
    pub apm2: Apm,
    pub apm3: Apm,
    pub apm4: Apm,
    pub runtab: Vec<u32>,
    pub runbits: u32,
    pub runmask: u32,
    pub run_sm: Vec<u32>,
    pub run_pbyte: [i32; NRUN],
    pub run_cnt: [i32; NRUN],
    pub run_used: [bool; NRUN],
    pub run_idx: [usize; NRUN],
    pub c0: i32,
    pub bitcount: i32,
    pub hard: i32,
    pub hard_fast: i32,
    pub hard_slow: i32,
    pub c4: u32,
    pub wordhash: u32,
    pub prevword: u32,
    pub prevword2: u32,
    pub prevword3: u32,
    pub c1: i32,
    pub run_len: u32,
    pub nest_stack: [u8; 64],
    pub nest_depth: usize,
    pub col: u32,
    pub line_start: u32,
    pub prev_line_start: u32,
    pub prev2_line_start: u32,
    pub rpos: [u32; 256],
    pub rlen: u32,
    pub rcount: i32,
    pub above_byte: u32,
    pub ind_pred: u32,
    pub follow1: Vec<u32>,
    pub follow2: Vec<u32>,
    pub follow3: Vec<u32>,
    pub follow4: Vec<u32>,
    pub follow5: Vec<u32>,
    pub follow6: Vec<u32>,
    pub followhn: Vec<u32>,
    pub followd: Vec<u32>,
    pub followc: Vec<u32>,
    pub followln: Vec<u32>,
    pub followg: Vec<u32>,
    pub follows2: Vec<u32>,
    pub follows3: Vec<u32>,
    pub followg2: Vec<u32>,
    pub followhn8: Vec<u32>,
    pub follows4: Vec<u32>,
    pub followln8: Vec<u32>,
    pub followg14: Vec<u32>,
    pub followcc8: Vec<u32>,
    pub follows5: Vec<u32>,
    pub followg16: Vec<u32>,
    pub followw: Vec<u32>,
}


/// `2^b` for a bit position `0 <= b <= 8`.
pub open spec fn pow2_bit(b: int) -> int {
    vstd::arithmetic::power2::pow2(b as nat) as int
}

impl Cm {
    /// Slots in context table `i`.
    pub open spec fn tsize(&self, i: int) -> int {
        self.tmask[i] as int + 1
    }

    /// The context tables, their masks and the slot / state-map cell chosen
    /// for each model are consistent.
    pub open spec fn tables_wf(&self) -> bool {
        &&& self.tab@.len() == NCTX
        &&& self.sm@.len() == NCTX * 2048
        &&& forall|i: int|
            0 <= i < NCTX ==> {
                &&& (#[trigger] self.tab@[i]).wf()
                &&& self.tab@[i].len() == self.tsize(i)
                &&& (self.tmask[i] == 0x1ff || self.tmask[i] == 0xf_ffff || self.tmask[i]
                    == 0x3f_ffff)
                &&& self.assoc[i] ==> (self.bmask[i] as int + 1) * 8 == self.tsize(i)
                    && self.cshift[i] < 32
                &&& self.idx[i] < self.tsize(i)
                &&& self.sm_idx[i] < 2048
            }
    }

    /// Mixers have their fixed shapes.
    pub open spec fn mixers_wf(&self) -> bool {
        &&& self.l1@.len() == NL1
        &&& self.l2@.len() == NL2
        &&& forall|k: int|
            0 <= k < NL1 ==> (#[trigger] self.l1@[k]).wf(NINPUT as int) && self.l1@[k].nctx
                == L1_NCTX[k] && self.l1@[k].lr == L1LR
        &&& forall|k: int|
            0 <= k < NL2 ==> (#[trigger] self.l2@[k]).wf(NL1 as int) && self.l2@[k].nctx
                == L2_NCTX[k] && self.l2@[k].lr == L2LR
        &&& forall|i: int| 0 <= i < NINPUT ==> -2048 <= #[trigger] self.mix_in[i] <= 2048
        &&& forall|k: int| 0 <= k < NL1 ==> -2047 <= #[trigger] self.l2_in[k] <= 2047
    }

    /// Match models, run maps and APMs have their fixed shapes.
    pub open spec fn models_wf(&self) -> bool {
        &&& self.mm@.len() == 6
        &&& forall|j: int| 0 <= j < 6 ==> (#[trigger] self.mm@[j]).wf(j)
        &&& self.apm1.wf() && self.apm1.contexts() == 1024
        &&& self.apm2.wf() && self.apm2.contexts() == 16384
        &&& self.apm3.wf() && self.apm3.contexts() == 1024
        &&& self.apm4.wf() && self.apm4.contexts() == 1024
        &&& (self.runbits == 18 || self.runbits == 20)
        &&& self.runmask as int + 1 == vstd::arithmetic::power2::pow2(self.runbits as nat)
        &&& self.runtab@.len() == NRUN * (self.runmask as int + 1)
        &&& self.run_sm@.len() == NRUN * 128
        &&& forall|j: int|
            0 <= j < NRUN ==> {
                &&& #[trigger] self.run_idx[j] < 128
                &&& -1 <= self.run_pbyte[j] <= 255
                &&& 0 <= self.run_cnt[j] <= 255
            }
    }

    /// Byte history and the per-byte context state are in range.
    pub open spec fn history_wf(&self) -> bool {
        &&& self.buf@.len() == self.bufmask as int + 1
        &&& 0 <= self.bitcount < 8
        &&& pow2_bit(self.bitcount as int) <= self.c0 < 2 * pow2_bit(self.bitcount as int)
        &&& 0 <= self.c1 <= 255
        &&& self.nest_depth <= 64
        &&& 0 <= self.rcount <= 1024
        &&& 0 <= self.hard <= 65535
        &&& 0 <= self.hard_fast <= 65535
        &&& 0 <= self.hard_slow <= 65535
        &&& self.above_byte <= 256
        &&& self.col <= 255
        &&& self.follow1@.len() == 256
        &&& self.follow2@.len() == 0x1_0000
        &&& self.follow3@.len() == FSIZE
        &&& self.follow4@.len() == FSIZE
        &&& self.follow5@.len() == FSIZE
        &&& self.follow6@.len() == FSIZE
        &&& self.followhn@.len() == FSIZE
        &&& self.followd@.len() == FSIZE
        &&& self.followc@.len() == 256
        &&& self.followln@.len() == FSIZE
        &&& self.followg@.len() == 0x1_0000
        &&& self.follows2@.len() == 0x1_0000
        &&& self.follows3@.len() == 0x1_0000
        &&& self.followg2@.len() == 0x1_0000
        &&& self.followhn8@.len() == FSIZE
        &&& self.follows4@.len() == 0x1_0000
        &&& self.followln8@.len() == FSIZE
        &&& self.followg14@.len() == 0x1_0000
        &&& self.followcc8@.len() == 0x1_0000
        &&& self.follows5@.len() == 0x1_0000
        &&& self.followg16@.len() == 0x1_0000
        &&& self.followw@.len() == 0x1_0000
    }

    /// Match pointers and last-seen positions never run ahead of the
    /// current position.
    pub open spec fn positions_wf(&self) -> bool {
        &&& forall|j: int| 0 <= j < 6 ==> (#[trigger] self.mm@[j]).ptr <= self.pos
        &&& forall|b: int| 0 <= b < 256 ==> #[trigger] self.rpos[b] <= self.pos
    }

    /// The predictor's invariant.
    pub open spec fn wf(&self) -> bool {
        &&& self.tables.wf()
        &&& self.gln_hp@.len() == GLN_BITS * GLN_NSEL
        &&& forall|n: int| 0 <= n < 256 ==> 16 <= #[trigger] self.rate_tab[n] <= 2048
        &&& self.tables_wf()
        &&& self.mixers_wf()
        &&& self.models_wf()
        &&& self.history_wf()
        &&& self.positions_wf()
    }
}

/// Index mask of a table of `table_bits(i, big)` bits.
pub open spec fn spec_tmask(i: int, big: bool) -> int {
    vstd::arithmetic::power2::pow2(table_bits(i, big) as nat) - 1
}

/// Bucket mask of an associative table (0 for a direct-mapped one).
pub open spec fn spec_bmask(i: int, big: bool) -> int {
    if is_assoc(i) {
        vstd::arithmetic::power2::pow2((table_bits(i, big) - WAYS_LOG) as nat) - 1
    } else {
        0
    }
}

/// Checksum shift of an associative table (0 for a direct-mapped one).
pub open spec fn spec_cshift(i: int, big: bool) -> u32 {
    if is_assoc(i) {
        (table_bits(i, big) - WAYS_LOG) as u32
    } else {
        0u32
    }
}

/// Table layout: which models are associative and their index masks.
fn table_layout(big: bool) -> (r: ([bool; NCTX], [u32; NCTX], [u32; NCTX], [u32; NCTX]))
    ensures
        forall|i: int| 0 <= i < NCTX ==> #[trigger] r.0[i] == is_assoc(i),
        forall|i: int| 0 <= i < NCTX ==> #[trigger] r.1[i] as int == spec_tmask(i, big),
        forall|i: int| 0 <= i < NCTX ==> #[trigger] r.2[i] as int == spec_bmask(i, big),
        forall|i: int| 0 <= i < NCTX ==> #[trigger] r.3[i] == spec_cshift(i, big),
{
    let mut assoc = [false; NCTX];
    let mut tmask = [0u32; NCTX];
    let mut bmask = [0u32; NCTX];
    let mut cshift = [0u32; NCTX];
    let mut i: usize = 0;
    while i < NCTX
        invariant
            i <= NCTX,
            forall|j: int| i <= j < NCTX ==> #[trigger] bmask[j] == 0,
            forall|j: int| i <= j < NCTX ==> #[trigger] cshift[j] == 0,
            forall|j: int| 0 <= j < i ==> #[trigger] assoc[j] == is_assoc(j),
            forall|j: int| 0 <= j < i ==> #[trigger] tmask[j] as int == spec_tmask(j, big),
            forall|j: int| 0 <= j < i ==> #[trigger] bmask[j] as int == spec_bmask(j, big),
            forall|j: int| 0 <= j < i ==> #[trigger] cshift[j] == spec_cshift(j, big),
        decreases NCTX - i,
    {
        proof {
            vstd::arithmetic::power2::lemma2_to64();
        }
        assert(1u32 << 9u32 == 512 && 1u32 << 20u32 == 0x10_0000 && 1u32 << 22u32 == 0x40_0000
            && 1u32 << 17u32 == 0x2_0000 && 1u32 << 19u32 == 0x8_0000) by (bit_vector);
        let small = i == 0 || i == 1 || i == 2 || i == 8 || i == 93;
        assoc[i] = !small;
        let tb: u32 = if i == 0 {
            9
        } else if !small {
            if big {
                22
            } else {
                20
            }
        } else {
            TBITS
        };
        tmask[i] = (1u32 << tb) - 1;
        if !small {
            bmask[i] = (1u32 << (tb - WAYS_LOG)) - 1;
            cshift[i] = tb - WAYS_LOG;
        }
        proof {
            assert(tb == table_bits(i as int, big));
        }
        i += 1;
    }
    (assoc, tmask, bmask, cshift)
}

/// One zeroed context table per model, sized by `tmask`.
fn build_ctx_tables(tmask: &[u32; NCTX]) -> (t: Vec<CtxTable>)
    requires
        forall|i: int|
            0 <= i < NCTX ==> #[trigger] tmask[i] == 0x1ff || tmask[i] == 0xf_ffff || tmask[i]
                == 0x3f_ffff,
    ensures
        t@.len() == NCTX,
        forall|i: int|
            0 <= i < NCTX ==> (#[trigger] t@[i]).wf() && t@[i].len() == tmask[i] as int + 1
                && t@[i].zeroed(),
{
    let mut t: Vec<CtxTable> = Vec::new();
    let mut i: usize = 0;
    while i < NCTX
        invariant
            i <= NCTX,
            t@.len() == i,
            forall|j: int|
                0 <= j < NCTX ==> #[trigger] tmask[j] == 0x1ff || tmask[j] == 0xf_ffff || tmask[j]
                    == 0x3f_ffff,
            forall|j: int|
                0 <= j < i ==> (#[trigger] t@[j]).wf() && t@[j].len() == tmask[j] as int + 1
                    && t@[j].zeroed(),
        decreases NCTX - i,
    {
        t.push(CtxTable::new(tmask[i] as usize + 1));
        i += 1;
    }
    t
}

/// The layer-1 specialists: one mixer over all inputs per row count in
/// `L1_NCTX`.
fn build_l1() -> (l1: Vec<Mixer>)
    ensures
        l1@.len() == NL1,
        forall|k: int|
            0 <= k < NL1 ==> (#[trigger] l1@[k]).wf(NINPUT as int) && l1@[k].nctx == L1_NCTX[k]
                && l1@[k].lr == L1LR && l1@[k].ctx == 0 && l1@[k].pr == 2048 && forall|i: int|
                0 <= i < l1@[k].w@.len() ==> #[trigger] l1@[k].w@[i] == 65536int / (NINPUT as int),
{
    let mut l1: Vec<Mixer> = Vec::new();
    let mut k: usize = 0;
    while k < NL1
        invariant
            k <= NL1,
            l1@.len() == k,
            forall|j: int|
                0 <= j < k ==> (#[trigger] l1@[j]).wf(NINPUT as int) && l1@[j].nctx == L1_NCTX[j]
                    && l1@[j].lr == L1LR && l1@[j].ctx == 0 && l1@[j].pr == 2048 && forall|i: int|
                    0 <= i < l1@[j].w@.len() ==> #[trigger] l1@[j].w@[i] == 65536int / (
                    NINPUT as int),
        decreases NL1 - k,
    {
        let n = L1_NCTX[k];
        assert(n <= 16384);
        l1.push(Mixer::new(NINPUT, n, L1LR));
        k += 1;
    }
    l1
}

/// The layer-2 combiners: one mixer over the specialist logits per row count
/// in `L2_NCTX`.
fn build_l2() -> (l2: Vec<Mixer>)
    ensures
        l2@.len() == NL2,
        forall|k: int|
            0 <= k < NL2 ==> (#[trigger] l2@[k]).wf(NL1 as int) && l2@[k].nctx == L2_NCTX[k]
                && l2@[k].lr == L2LR && l2@[k].ctx == 0 && l2@[k].pr == 2048 && forall|i: int|
                0 <= i < l2@[k].w@.len() ==> #[trigger] l2@[k].w@[i] == 65536int / (NL1 as int),
{
    let mut l2: Vec<Mixer> = Vec::new();
    let mut k: usize = 0;
    while k < NL2
        invariant
            k <= NL2,
            l2@.len() == k,
            forall|j: int|
                0 <= j < k ==> (#[trigger] l2@[j]).wf(NL1 as int) && l2@[j].nctx == L2_NCTX[j]
                    && l2@[j].lr == L2LR && l2@[j].ctx == 0 && l2@[j].pr == 2048 && forall|i: int|
                    0 <= i < l2@[j].w@.len() ==> #[trigger] l2@[j].w@[i] == 65536int / (
                    NL1 as int),
        decreases NL2 - k,
    {
        let n = L2_NCTX[k];
        assert(n <= 2048);
        l2.push(Mixer::new(NL1, n, L2LR));
        k += 1;
    }
    l2
}

/// The six match models.
fn build_match_models() -> (mm: Vec<MatchModel>)
    ensures
        mm@.len() == 6,
        forall|j: int|
            0 <= j < 6 ==> {
                &&& (#[trigger] mm@[j]).wf(j)
                &&& mm@[j].ptr == 0 && mm@[j].len == 0 && mm@[j].pbyte == -1 && !mm@[j].used
                    && mm@[j].idx == 0
                &&& forall|i: int| 0 <= i < mm@[j].tab@.len() ==> #[trigger] mm@[j].tab@[i] == 0
                &&& forall|i: int|
                    0 <= i < mm@[j].sm@.len() ==> #[trigger] mm@[j].sm@[i] == 0x8000_0000u32
            },
{
    let mut mm: Vec<MatchModel> = Vec::new();
    let mut j: usize = 0;
    while j < 6
        invariant
            j <= 6,
            mm@.len() == j,
            forall|k: int|
                0 <= k < j ==> {
                    &&& (#[trigger] mm@[k]).wf(k)
                    &&& mm@[k].ptr == 0 && mm@[k].len == 0 && mm@[k].pbyte == -1 && !mm@[k].used
                        && mm@[k].idx == 0
                    &&& forall|i: int| 0 <= i < mm@[k].tab@.len() ==> #[trigger] mm@[k].tab@[i] == 0
                    &&& forall|i: int|
                        0 <= i < mm@[k].sm@.len() ==> #[trigger] mm@[k].sm@[i] == 0x8000_0000u32
                },
        decreases 6 - j,
    {
        mm.push(MatchModel::new(j));
        j += 1;
    }
    mm
}

/// History buffer size for an expected input length (see `buf_size`).
fn buffer_size(expected_len: usize) -> (r: u32)
    requires
        expected_len <= usize::MAX - 16,
    ensures
        r as int == buf_size(expected_len as int),
{
    let mut bufsize: u32 = 1;
    let ghost mut k: nat = 0;
    let ghost n = expected_len as int + 16;
    proof {
        vstd::arithmetic::power2::lemma2_to64();
    }
    while (bufsize as usize) < expected_len + 16 && bufsize < 0x800_0000
        invariant
            k <= 27,
            bufsize as int == vstd::arithmetic::power2::pow2(k),
            n == expected_len as int + 16,
            expected_len <= usize::MAX - 16,
            pow2_at_least(n, 27) == pow2_from(n, k, 27),
        decreases 27 - k,
    {
        proof {
            vstd::arithmetic::power2::lemma_pow2_unfold(k + 1);
            vstd::arithmetic::power2::lemma2_to64();
        }
        assert(bufsize << 1 == 2 * bufsize) by (bit_vector)
            requires
                bufsize < 0x800_0000,
        ;
        bufsize = bufsize << 1;
        proof {
            k = k + 1;
        }
    }
    proof {
        vstd::arithmetic::power2::lemma2_to64();
        if k < 27 {
            vstd::arithmetic::power2::lemma_pow2_strictly_increases(k, 27);
        }
    }
    if bufsize < 0x1_0000 {
        bufsize = 0x1_0000;
    }
    bufsize
}

/// Halfspace gate weights: entry `k * GLN_NSEL + i` is `gln_weight(k, i)`.
fn build_gln() -> (g: Vec<i8>)
    ensures
        g@.len() == GLN_BITS * GLN_NSEL,
        forall|k: int, i: int|
            0 <= k < GLN_BITS && 0 <= i < GLN_NSEL ==> #[trigger] g@[k * GLN_NSEL + i] as int
                == gln_weight(k, i),
{
    let mut g: Vec<i8> = Vec::new();
    let mut k: usize = 0;
    while k < GLN_BITS as usize
        invariant
            k <= GLN_BITS,
            g@.len() == k * GLN_NSEL,
            forall|k2: int, i: int|
                0 <= k2 < k && 0 <= i < GLN_NSEL ==> #[trigger] g@[k2 * GLN_NSEL + i] as int
                    == gln_weight(k2, i),
        decreases GLN_BITS - k,
    {
        let mut i: usize = 0;
        let ghost g0 = g@;
        while i < GLN_NSEL
            invariant
                i <= GLN_NSEL,
                k < GLN_BITS,
                g@.len() == k * GLN_NSEL + i,
                g@.subrange(0, k * GLN_NSEL) == g0,
                g0.len() == k * GLN_NSEL,
                forall|i2: int|
                    0 <= i2 < i ==> #[trigger] g@[k * GLN_NSEL + i2] as int == gln_weight(
                        k as int,
                        i2,
                    ),
            decreases GLN_NSEL - i,
        {
            let seed = ((0u32) << 24) ^ (k as u32).wrapping_mul(0x9E37_79B1) ^ 0x5bd1_e995;
            assert(((0u32) << 24) ^ (k as u32).wrapping_mul(0x9E37_79B1) == (k as u32).wrapping_mul(
                0x9E37_79B1,
            )) by (bit_vector);
            let h = hashk(seed, i as u32);
            let v: i8 = if (h >> 19) & 1 == 0 {
                1
            } else {
                -1
            };
            g.push(v);
            i += 1;
        }
        proof {
            assert forall|k2: int, i2: int|
                0 <= k2 < k + 1 && 0 <= i2 < GLN_NSEL implies #[trigger] g@[k2 * GLN_NSEL + i2] as int
                == gln_weight(k2, i2) by {
                if k2 < k {
                    assert(k2 * GLN_NSEL + i2 < k * GLN_NSEL) by (nonlinear_arith)
                        requires
                            k2 < k,
                            i2 < GLN_NSEL,
                    ;
                    assert(g@.subrange(0, k * GLN_NSEL)[k2 * GLN_NSEL + i2] == g@[k2 * GLN_NSEL
                        + i2]);
                }
            }
        }
        k += 1;
    }
    g
}

/// `n` copies of `v`.
fn filled(v: u32, n: usize) -> (r: Vec<u32>)
    ensures
        r@.len() == n,
        forall|i: int| 0 <= i < n ==> #[trigger] r@[i] == v,
{
    vec![v; n]
}

/// What `new` builds from `expected_len` and `tables`: the layout for that
/// input size, every table empty, every probability one half, the history
/// empty.
pub open spec fn built(expected_len: usize, tables: Tables, r: Cm) -> bool {
    &&& r.tables == tables
    &&& forall|i: int| 0 <= i < NCTX ==> #[trigger] r.assoc[i] == is_assoc(i)
    &&& forall|i: int|
        0 <= i < NCTX ==> #[trigger] r.tmask[i] as int == spec_tmask(
            i,
            expected_len >= 262_144,
        )
    &&& forall|i: int|
        0 <= i < NCTX ==> #[trigger] r.bmask[i] as int == spec_bmask(
            i,
            expected_len >= 262_144,
        )
    &&& forall|i: int|
        0 <= i < NCTX ==> #[trigger] r.cshift[i] == spec_cshift(
            i,
            expected_len >= 262_144,
        )
    &&& forall|i: int| 0 <= i < NCTX ==> (#[trigger] r.tab@[i]).zeroed()
    &&& forall|i: int| 0 <= i < NCTX * 2048 ==> #[trigger] r.sm@[i] == 0x8000_0000u32
    &&& forall|n: int| 0 <= n < 256 ==> #[trigger] r.rate_tab[n] as int == spec_rate(n)
    &&& forall|k: int, i: int|
        0 <= k < GLN_BITS && 0 <= i < GLN_NSEL ==> #[trigger] r.gln_hp@[k * GLN_NSEL + i]
            as int == gln_weight(k, i)
    &&& forall|k: int|
        0 <= k < NL1 ==> (#[trigger] r.l1@[k]).ctx == 0 && r.l1@[k].pr == 2048 && forall|
            i: int,
        |
            0 <= i < r.l1@[k].w@.len() ==> #[trigger] r.l1@[k].w@[i] == 65536int / (
            NINPUT as int)
    &&& forall|k: int|
        0 <= k < NL2 ==> (#[trigger] r.l2@[k]).ctx == 0 && r.l2@[k].pr == 2048 && forall|
            i: int,
        |
            0 <= i < r.l2@[k].w@.len() ==> #[trigger] r.l2@[k].w@[i] == 65536int / (
            NL1 as int)
    &&& r.buf@.len() == buf_size(expected_len as int)
    &&& forall|i: int| 0 <= i < r.buf@.len() ==> #[trigger] r.buf@[i] == 0
    &&& r.pos == 0
    &&& forall|j: int|
        0 <= j < 6 ==> {
            &&& (#[trigger] r.mm@[j]).ptr == 0 && r.mm@[j].len == 0 && r.mm@[j].pbyte
                == -1 && !r.mm@[j].used && r.mm@[j].idx == 0
            &&& forall|i: int| 0 <= i < r.mm@[j].tab@.len() ==> #[trigger] r.mm@[j].tab@[i] == 0
            &&& forall|i: int|
                0 <= i < r.mm@[j].sm@.len() ==> #[trigger] r.mm@[j].sm@[i] == 0x8000_0000u32
        }
    &&& r.apm1.idx == 0 && r.apm2.idx == 0 && r.apm3.idx == 0 && r.apm4.idx == 0
    &&& forall|c: int, j: int|
        0 <= c < 1024 && 0 <= j < 33 ==> #[trigger] r.apm1.t@[c * 33 + j] as int
            == crate::apm::apm_init_value(tables.squash@, j)
    &&& forall|c: int, j: int|
        0 <= c < 16384 && 0 <= j < 33 ==> #[trigger] r.apm2.t@[c * 33 + j] as int
            == crate::apm::apm_init_value(tables.squash@, j)
    &&& forall|c: int, j: int|
        0 <= c < 1024 && 0 <= j < 33 ==> #[trigger] r.apm3.t@[c * 33 + j] as int
            == crate::apm::apm_init_value(tables.squash@, j)
    &&& forall|c: int, j: int|
        0 <= c < 1024 && 0 <= j < 33 ==> #[trigger] r.apm4.t@[c * 33 + j] as int
            == crate::apm::apm_init_value(tables.squash@, j)
    &&& r.runbits == (if expected_len >= 262_144 {
        20u32
    } else {
        18u32
    })
    &&& forall|i: int| 0 <= i < r.runtab@.len() ==> #[trigger] r.runtab@[i] == 0
    &&& forall|i: int| 0 <= i < NRUN * 128 ==> #[trigger] r.run_sm@[i] == 0x8000_0000u32
    &&& forall|j: int|
        0 <= j < NRUN ==> #[trigger] r.run_pbyte[j] == -1 && r.run_cnt[j] == 0
            && !r.run_used[j] && r.run_idx[j] == 0
    &&& forall|i: int| 0 <= i < NCTX ==> #[trigger] r.ctxhash[i] == 0
    &&& forall|i: int| 0 <= i < NCTX ==> #[trigger] r.idx[i] == 0
    &&& forall|i: int| 0 <= i < NCTX ==> #[trigger] r.sm_idx[i] == 0
    &&& forall|i: int| 0 <= i < NINPUT ==> #[trigger] r.mix_in[i] == 0
    &&& forall|k: int| 0 <= k < NL1 ==> #[trigger] r.l2_in[k] == 0
    &&& r.c0 == 1 && r.bitcount == 0 && r.hard == 0 && r.hard_fast == 0 && r.hard_slow == 0
    &&& r.c4 == 0 && r.wordhash == 0 && r.prevword == 0 && r.prevword2 == 0 && r.prevword3
        == 0
    &&& r.c1 == 0 && r.run_len == 1 && r.nest_depth == 0 && r.col == 0
    &&& r.line_start == 0 && r.prev_line_start == 0 && r.prev2_line_start == 0
    &&& forall|b: int| 0 <= b < 256 ==> #[trigger] r.rpos[b] == 0
    &&& r.rlen == 0 && r.rcount == 0 && r.above_byte == 256 && r.ind_pred == 0
    &&& forall|i: int| 0 <= i < 256 ==> #[trigger] r.follow1@[i] == 0 && r.followc@[i] == 0
    &&& forall|i: int|
        0 <= i < 0x1_0000 ==> #[trigger] r.follow2@[i] == 0 && r.followg@[i] == 0
            && r.follows2@[i] == 0 && r.follows3@[i] == 0 && r.followg2@[i] == 0
            && r.follows4@[i] == 0 && r.followg14@[i] == 0 && r.followcc8@[i] == 0
            && r.follows5@[i] == 0 && r.followg16@[i] == 0 && r.followw@[i] == 0
    &&& forall|i: int|
        0 <= i < FSIZE ==> #[trigger] r.follow3@[i] == 0 && r.follow4@[i] == 0
            && r.follow5@[i] == 0 && r.follow6@[i] == 0 && r.followhn@[i] == 0
            && r.followd@[i] == 0 && r.followln@[i] == 0 && r.followhn8@[i] == 0
            && r.followln8@[i] == 0
    &&& forall|i: int| 0 <= i < NINPUT ==> #[trigger] r.mix_in64[i] == 0
    &&& forall|k: int| 0 <= k < NL1 ==> #[trigger] r.l2_in64[k] == 0
    &&& forall|i: int| 0 <= i < 64 ==> #[trigger] r.nest_stack[i] == 0
}

impl Cm {
    /// The model state before the first bit: all tables empty, every
    /// probability one half, the history empty. Context tables of the
    /// associative models, and the run maps, are larger for inputs of at least
    /// 256 KiB.
    pub fn new(expected_len: usize, tables: Tables) -> (r: Cm)
        requires
            tables.wf(),
            expected_len <= usize::MAX - 16,
        ensures
            r.wf(),
            built(expected_len, tables, r),
    {
        let rate_tab = build_rate_table();
        let big = expected_len >= 262_144;
        let (assoc, tmask, bmask, cshift) = table_layout(big);
        proof {
            vstd::arithmetic::power2::lemma2_to64();
            assert forall|i: int| 0 <= i < NCTX implies #[trigger] tmask[i] == 0x1ff || tmask[i]
                == 0xf_ffff || tmask[i] == 0x3f_ffff by {
                assert(tmask[i] as int == spec_tmask(i, big));
            }
        }
        let tab = build_ctx_tables(&tmask);
        let sm = filled(0x8000_0000u32, NCTX * 2048);
        let l1 = build_l1();
        let l2 = build_l2();
        let bufsize = buffer_size(expected_len);
        let apm1 = Apm::new(1024, &tables.squash);
        let apm2 = Apm::new(16384, &tables.squash);
        let apm3 = Apm::new(1024, &tables.squash);
        let apm4 = Apm::new(1024, &tables.squash);
        let gln_hp = build_gln();
        let mm = build_match_models();
        let runbits: u32 = if big {
            20
        } else {
            18
        };
        assert(1u32 << 20u32 == 0x10_0000 && 1u32 << 18u32 == 0x4_0000) by (bit_vector);
        let runsize: usize = if big {
            0x10_0000
        } else {
            0x4_0000
        };
        let runmask: u32 = (1u32 << runbits) - 1;
        let r = Cm {
            gln_hp,
            tables,
            tab,
            sm,
            sm_idx: [0; NCTX],
            tmask,
            assoc,
            bmask,
            cshift,
            rate_tab,
            ctxhash: [0; NCTX],
            idx: [0; NCTX],
            mix_in: [0; NINPUT],
            mix_in64: [0; NINPUT],
            l1,
            l2,
            l2_in: [0; NL1],
            l2_in64: [0; NL1],
            buf: vec![0u8; bufsize as usize],
            bufmask: bufsize - 1,
            pos: 0,
            mm,
            apm1,
            apm2,
            apm3,
            apm4,
            runtab: filled(0, NRUN * runsize),
            runbits,
            runmask,
            run_sm: filled(0x8000_0000u32, NRUN * 128),
            run_pbyte: [-1; NRUN],
            run_cnt: [0; NRUN],
            run_used: [false; NRUN],
            run_idx: [0; NRUN],
            c0: 1,
            bitcount: 0,
            hard: 0,
            hard_fast: 0,
            hard_slow: 0,
            c4: 0,
            wordhash: 0,
            prevword: 0,
            prevword2: 0,
            prevword3: 0,
            c1: 0,
            run_len: 1,
            nest_stack: [0u8; 64],
            nest_depth: 0,
            col: 0,
            line_start: 0,
            prev_line_start: 0,
            prev2_line_start: 0,
            rpos: [0; 256],
            rlen: 0,
            rcount: 0,
            above_byte: 256,
            ind_pred: 0,
            follow1: filled(0, 256),
            follow2: filled(0, 0x1_0000),
            follow3: filled(0, FSIZE),
            follow4: filled(0, FSIZE),
            follow5: filled(0, FSIZE),
            follow6: filled(0, FSIZE),
            followhn: filled(0, FSIZE),
            followd: filled(0, FSIZE),
            followc: filled(0, 256),
            followln: filled(0, FSIZE),
            followg: filled(0, 0x1_0000),
            follows2: filled(0, 0x1_0000),
            follows3: filled(0, 0x1_0000),
            followg2: filled(0, 0x1_0000),
            followhn8: filled(0, FSIZE),
            follows4: filled(0, 0x1_0000),
            followln8: filled(0, FSIZE),
            followg14: filled(0, 0x1_0000),
            followcc8: filled(0, 0x1_0000),
            follows5: filled(0, 0x1_0000),
            followg16: filled(0, 0x1_0000),
            followw: filled(0, 0x1_0000),
        };
        proof {
            assert forall|i: int| 0 <= i < NCTX && r.assoc[i] implies (r.bmask[i] as int + 1) * 8
                == r.tsize(i) && r.cshift[i] < 32 by {
                {
                    assert(r.bmask[i] as int == spec_bmask(i, big));
                    assert(r.tmask[i] as int == spec_tmask(i, big));
                    assert(r.cshift[i] == spec_cshift(i, big));
                }
            }
            assert(r.buf@.len() == r.bufmask as int + 1);
            assert(pow2_bit(0) == 1);
            assert(r.tables.wf());
            assert forall|n: int| 0 <= n < 256 implies 16 <= #[trigger] r.rate_tab[n] <= 2048 by {
                vstd::arithmetic::div_mod::lemma_div_is_ordered_by_denominator(4096, 2, n + 2);
                assert(rate_tab[n] as int == spec_rate(n));
                assert(r.rate_tab[n] == rate_tab[n]);
            }
            assert(r.tables_wf());
            assert(r.mixers_wf());
            assert(r.models_wf());
            assert(r.history_wf());
        }
        r
    }
}

} // verus!
