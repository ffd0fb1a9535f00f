use vstd::prelude::*;

verus! {

/// Cache line size in bytes.
pub const LINE: usize = 64;

pub const L1_BYTES: usize = 32 * 1024;
pub const L1_WAYS: usize = 8;
pub const L2_BYTES: usize = 1024 * 1024;
pub const L2_WAYS: usize = 8;
pub const L3_BYTES: usize = 32 * 1024 * 1024;
pub const L3_WAYS: usize = 16;

/// Cycle penalties charged per miss at each level.
pub const PEN_L1: u64 = 14;
pub const PEN_L2: u64 = 40;
pub const PEN_L3: u64 = 200;

pub open spec fn is_pow2(n: int) -> bool
    decreases n,
{
    if n <= 0 {
        false
    } else if n == 1 {
        true
    } else {
        n % 2 == 0 && is_pow2(n / 2)
    }
}

/// A set-associative cache with least-recently-used replacement. Each set
/// holds `ways` line tags with the clock of their last use.
pub struct Cache {
    pub set_mask: u64,
    pub ways: usize,
    pub tags: Vec<u64>,
    pub age: Vec<u64>,
}

/// Position of the first way of the set that `line` maps to.
pub open spec fn set_base(set_mask: u64, ways: usize, line: u64) -> int {
    (line & set_mask) as int * ways as int
}

/// One cache level as a value: geometry, tag and age of every way.
pub struct Level {
    pub set_mask: u64,
    pub ways: usize,
    pub tags: Seq<u64>,
    pub age: Seq<u64>,
}

impl Level {
    /// Geometry and contents agree.
    pub open spec fn wf(&self) -> bool {
        &&& self.ways >= 1
        &&& self.tags.len() == (self.set_mask + 1) * self.ways
        &&& self.age.len() == self.tags.len()
    }

    /// First way position of the set of `line`.
    pub open spec fn base(&self, line: u64) -> int {
        set_base(self.set_mask, self.ways, line)
    }

    /// `line` is held in its set.
    pub open spec fn holds(&self, line: u64) -> bool {
        exists|w: int| 0 <= w < self.ways && #[trigger] self.tags[self.base(line) + w] == line
    }

    /// Way of the first tag in the set of `line` equal to `line`.
    #[verifier::opaque]
    pub open spec fn first_match(&self, line: u64) -> int
        recommends
            self.holds(line),
    {
        choose|w: int|
            0 <= w < self.ways && #[trigger] self.tags[self.base(line) + w] == line && forall|v: int|
                0 <= v < w ==> #[trigger] self.tags[self.base(line) + v] != line
    }

    /// Among the first `n` ways of the set at `base`, the one with the
    /// smallest age (the first among equals).
    pub open spec fn min_way(&self, base: int, n: int) -> int
        decreases n,
    {
        if n <= 1 {
            0
        } else {
            let w = self.min_way(base, n - 1);
            if self.age[base + n - 1] < self.age[base + w] {
                n - 1
            } else {
                w
            }
        }
    }

    /// Looking `line` up at time `clock`: whether it hits, and the level
    /// after. A hit refreshes the line's age; a miss puts the line in the
    /// least recently used way of its set.
    pub open spec fn lookup(&self, line: u64, clock: u64) -> (bool, Level) {
        let base = self.base(line);
        if self.holds(line) {
            (true, Level { age: self.age.update(base + self.first_match(line), clock), ..*self })
        } else {
            let v = self.min_way(base, self.ways as int);
            (
                false,
                Level {
                    tags: self.tags.update(base + v, line),
                    age: self.age.update(base + v, clock),
                    ..*self
                },
            )
        }
    }
}

impl Cache {
    pub open spec fn sets(&self) -> int {
        self.set_mask as int + 1
    }

    pub open spec fn wf(&self) -> bool {
        &&& self.ways >= 1
        &&& self.set_mask < 0x8000_0000_0000_0000
        &&& self.set_mask & (self.set_mask + 1) as u64 == 0
        &&& self.tags@.len() == self.sets() * self.ways
        &&& self.age@.len() == self.tags@.len()
    }

    /// Holds no line: every tag invalid (`u64::MAX`) and every age zero.
    pub open spec fn empty(&self) -> bool {
        &&& forall|i: int| 0 <= i < self.tags@.len() ==> #[trigger] self.tags@[i] == u64::MAX
        &&& forall|i: int| 0 <= i < self.age@.len() ==> #[trigger] self.age@[i] == 0
    }

    /// The cache as a value.
    pub open spec fn level(&self) -> Level {
        Level { set_mask: self.set_mask, ways: self.ways, tags: self.tags@, age: self.age@ }
    }

    /// First way position of the set of `line`.
    pub open spec fn base(&self, line: u64) -> int {
        set_base(self.set_mask, self.ways, line)
    }

    /// `line` is held in its set.
    pub open spec fn holds(&self, line: u64) -> bool {
        self.level().holds(line)
    }

    /// A cache of `size` bytes and `ways` ways, all tags invalid.
    pub fn new(size: usize, ways: usize) -> (c: Cache)
        requires
            1 <= ways,
            ways as int * 64 <= usize::MAX,
            size as int / (ways as int * 64) * ways <= usize::MAX,
            is_pow2(size as int / (ways as int * 64)),
        ensures
            c.wf(),
            c.ways == ways,
            c.sets() == size as int / (ways as int * 64),
            forall|i: int| 0 <= i < c.tags@.len() ==> #[trigger] c.tags@[i] == u64::MAX,
            forall|i: int| 0 <= i < c.age@.len() ==> #[trigger] c.age@[i] == 0,
    {
        let sets = size / (ways * LINE);
        proof {
            assert(sets <= 0x8000_0000_0000_0000) by (nonlinear_arith)
                requires
                    sets as int == size as int / (ways as int * 64),
                    ways >= 1,
                    size <= 0xffff_ffff_ffff_ffff,
            ;
            lemma_pow2_mask(sets as int);
        }
        let set_mask = sets as u64 - 1;
        let tags = vec![u64::MAX; sets * ways];
        let age = vec![0u64; sets * ways];
        Cache { set_mask, ways, tags, age }
    }

    /// Looks `line` up at time `clock`. A hit refreshes the line's age; a miss
    /// replaces the least recently used way of its set.
    pub fn hit(&mut self, line: u64, clock: u64) -> (r: bool)
        requires
            old(self).wf(),
        ensures
            final(self).wf(),
            final(self).set_mask == old(self).set_mask,
            final(self).ways == old(self).ways,
            r == old(self).level().lookup(line, clock).0,
            final(self).level() == old(self).level().lookup(line, clock).1,
            final(self).holds(line),
    {
        let set = line & self.set_mask;
        proof {
            let m = self.set_mask;
            assert(set <= m) by (bit_vector)
                requires
                    set == line & m,
            ;
            assert(set as int * self.ways + self.ways <= self.tags@.len()) by (nonlinear_arith)
                requires
                    set <= self.set_mask,
                    self.tags@.len() == (self.set_mask + 1) * self.ways,
            ;
            assert(set as int <= self.tags@.len()) by (nonlinear_arith)
                requires
                    set <= self.set_mask,
                    self.ways >= 1,
                    self.tags@.len() == (self.set_mask + 1) * self.ways,
            ;
        }
        let tl = self.tags.len();
        let base = (set as usize) * self.ways;
        let ways = self.ways;
        let mut w: usize = 0;
        while w < ways
            invariant
                w <= ways,
                ways == self.ways,
                base == self.base(line),
                base + ways <= tl,
                tl == self.tags@.len(),
                self.wf(),
                *self == *old(self),
                forall|v: int| 0 <= v < w ==> #[trigger] self.tags@[base + v] != line,
            decreases ways - w,
        {
            if self.tags[base + w] == line {
                self.age.set(base + w, clock);
                proof {
                    let lv = old(self).level();
                    assert(lv.tags[lv.base(line) + w as int] == line);
                    assert(lv.holds(line));
                    let fm = lv.first_match(line);
                    assert(fm == w) by {
                        reveal(Level::first_match);
                        assert(0 <= fm < ways && lv.tags[base + fm] == line);
                        if fm < w {
                        } else if fm > w {
                        }
                    }
                    assert(self.level() =~= lv.lookup(line, clock).1);
                    assert(self.level().tags[self.level().base(line) + w as int] == line);
                }
                return true;
            }
            w += 1;
        }
        let mut victim: usize = 0;
        let mut u: usize = 1;
        while u < ways
            invariant
                1 <= u <= ways,
                victim < u,
                ways == self.ways,
                base == self.base(line),
                base + ways <= tl,
                tl == self.tags@.len(),
                self.wf(),
                *self == *old(self),
                forall|v: int| 0 <= v < ways ==> #[trigger] self.tags@[base + v] != line,
                victim == self.level().min_way(base as int, u as int),
            decreases ways - u,
        {
            if self.age[base + u] < self.age[base + victim] {
                victim = u;
            }
            u += 1;
        }
        self.tags.set(base + victim, line);
        self.age.set(base + victim, clock);
        proof {
            let lv = old(self).level();
            assert(!lv.holds(line)) by {
                if lv.holds(line) {
                    let w = choose|w: int| 0 <= w < ways && #[trigger] lv.tags[lv.base(line) + w] == line;
                    assert(self.tags@[base + w] != line);
                    assert(false);
                }
            }
            assert(self.level() =~= lv.lookup(line, clock).1);
            assert(self.level().tags[self.level().base(line) + victim as int] == line);
        }
        false
    }
}

/// The cache model as a value: the three levels, the clock and the miss
/// counters.
pub struct Meter {
    pub l1: Level,
    pub l2: Level,
    pub l3: Level,
    pub clock: u64,
    pub l1m: u64,
    pub l2m: u64,
    pub l3m: u64,
}

/// One lookup of `line`: the clock ticks, then L1, L2 and L3 are consulted
/// in turn until one holds the line; each level consulted takes the line
/// in, and each that missed counts a miss.
pub open spec fn touch(m: Meter, line: u64) -> Meter {
    let c = (m.clock + 1) as u64;
    let (h1, n1) = m.l1.lookup(line, c);
    let (h2, n2) = m.l2.lookup(line, c);
    let (h3, n3) = m.l3.lookup(line, c);
    if h1 {
        Meter { l1: n1, clock: c, ..m }
    } else if h2 {
        Meter { l1: n1, l2: n2, clock: c, l1m: (m.l1m + 1) as u64, ..m }
    } else if h3 {
        Meter { l1: n1, l2: n2, l3: n3, clock: c, l1m: (m.l1m + 1) as u64, l2m: (m.l2m + 1) as u64, ..m }
    } else {
        Meter {
            l1: n1,
            l2: n2,
            l3: n3,
            clock: c,
            l1m: (m.l1m + 1) as u64,
            l2m: (m.l2m + 1) as u64,
            l3m: (m.l3m + 1) as u64,
        }
    }
}

/// Lookups of the lines `line..=last`, in order.
pub open spec fn touch_lines(m: Meter, line: int, last: int) -> Meter
    decreases last - line + 1,
{
    if line > last {
        m
    } else {
        touch_lines(touch(m, line as u64), line + 1, last)
    }
}

/// Misses one lookup of `line` adds at each level: `(l1, l2, l3)`, given
/// which levels currently hold the line. A level is only consulted after a
/// miss at every level above it.
pub open spec fn level_misses(h1: bool, h2: bool, h3: bool) -> (int, int, int) {
    if h1 {
        (0, 0, 0)
    } else if h2 {
        (1, 0, 0)
    } else if h3 {
        (1, 1, 0)
    } else {
        (1, 1, 1)
    }
}

/// Cache-model state of the memory-cost meter: a three-level cache, a clock
/// ticking once per line lookup, and access and miss counters.
pub struct AccessTracker {
    pub l1: Cache,
    pub l2: Cache,
    pub l3: Cache,
    pub clock: u64,
    pub accesses: u64,
    pub l1m: u64,
    pub l2m: u64,
    pub l3m: u64,
}

impl AccessTracker {
    /// The caches are well formed, and a level only misses on lines the level
    /// above it missed: `l3m <= l2m <= l1m <= clock`.
    pub open spec fn wf(&self) -> bool {
        &&& self.l1.wf()
        &&& self.l2.wf()
        &&& self.l3.wf()
        &&& self.l3m <= self.l2m <= self.l1m <= self.clock
    }

    /// The model's state as a value.
    pub open spec fn meter(&self) -> Meter {
        Meter {
            l1: self.l1.level(),
            l2: self.l2.level(),
            l3: self.l3.level(),
            clock: self.clock,
            l1m: self.l1m,
            l2m: self.l2m,
            l3m: self.l3m,
        }
    }

    /// Lines of the range `[addr, addr + max(size, 1))`: first and last index.
    pub open spec fn first_line(addr: u32) -> int {
        addr as int / 64
    }

    pub open spec fn last_line(addr: u32, size: u32) -> int {
        (addr as int + (if size == 0 {
            1
        } else {
            size as int
        }) - 1) / 64
    }

    /// A tracker with empty 32 KiB 8-way, 1 MiB 8-way and 32 MiB 16-way caches
    /// and all counters zero.
    pub fn new() -> (t: AccessTracker)
        ensures
            t.wf(),
            t.clock == 0,
            t.accesses == 0,
            t.l1m == 0,
            t.l2m == 0,
            t.l3m == 0,
            t.l1.sets() == 64 && t.l1.ways == 8,
            t.l2.sets() == 2048 && t.l2.ways == 8,
            t.l3.sets() == 32768 && t.l3.ways == 16,
            t.l1.empty() && t.l2.empty() && t.l3.empty(),
    {
        assert(is_pow2(64) && is_pow2(2048) && is_pow2(32768)) by {
            reveal_with_fuel(is_pow2, 17);
        }
        AccessTracker {
            l1: Cache::new(L1_BYTES, L1_WAYS),
            l2: Cache::new(L2_BYTES, L2_WAYS),
            l3: Cache::new(L3_BYTES, L3_WAYS),
            clock: 0,
            accesses: 0,
            l1m: 0,
            l2m: 0,
            l3m: 0,
        }
    }

    /// One line lookup: tick the clock, then probe L1, L2, L3 in turn until
    /// one of them hits, counting a miss at each level that does not.
    fn touch_cache(&mut self, line: u64)
        requires
            old(self).wf(),
            old(self).clock < u64::MAX,
        ensures
            final(self).wf(),
            final(self).clock == old(self).clock + 1,
            final(self).accesses == old(self).accesses,
            final(self).meter() == touch(old(self).meter(), line),
            final(self).l1.holds(line),
            ({
                let (m1, m2, m3) = level_misses(
                    old(self).l1.holds(line),
                    old(self).l2.holds(line),
                    old(self).l3.holds(line),
                );
                &&& final(self).l1m == old(self).l1m + m1
                &&& final(self).l2m == old(self).l2m + m2
                &&& final(self).l3m == old(self).l3m + m3
            }),
    {
        self.clock += 1;
        let c = self.clock;
        if self.l1.hit(line, c) {
            return;
        }
        self.l1m += 1;
        if self.l2.hit(line, c) {
            return;
        }
        self.l2m += 1;
        if self.l3.hit(line, c) {
            return;
        }
        self.l3m += 1;
    }

    /// Records an access of `size` bytes at `addr` (a zero size counts as one
    /// byte): one lookup per 64-byte line the range touches.
    pub fn access(&mut self, addr: u32, size: u32)
        requires
            old(self).wf(),
            old(self).clock < u64::MAX - 0x400_0001,
            old(self).accesses < u64::MAX,
        ensures
            final(self).wf(),
            final(self).accesses == old(self).accesses + 1,
            final(self).clock == old(self).clock + Self::last_line(addr, size) - Self::first_line(
                addr,
            ) + 1,
            old(self).l1m <= final(self).l1m <= old(self).l1m + (final(self).clock - old(
                self,
            ).clock),
            old(self).l2m <= final(self).l2m,
            old(self).l3m <= final(self).l3m,
            final(self).meter() == touch_lines(
                old(self).meter(),
                Self::first_line(addr),
                Self::last_line(addr, size),
            ),
            final(self).l1.holds(Self::last_line(addr, size) as u64),
    {
        let ghost m0 = self.meter();
        self.accesses += 1;
        let sz: u64 = if size > 1 {
            size as u64
        } else {
            1
        };
        let first = (addr as u64) / (LINE as u64);
        let last = ((addr as u64) + sz - 1) / (LINE as u64);
        assert(last - first <= 0x400_0000) by (nonlinear_arith)
            requires
                first == addr as int / 64,
                last == (addr as int + sz - 1) / 64,
                1 <= sz <= 0xffff_ffff,
        ;
        let mut l = first;
        loop
            invariant_except_break
                touch_lines(m0, first as int, last as int) == touch_lines(
                    self.meter(),
                    l as int,
                    last as int,
                ),
                self.clock == old(self).clock + (l - first),
                old(self).l1m <= self.l1m <= old(self).l1m + (l - first),
            invariant
                self.wf(),
                first <= l <= last,
                last == Self::last_line(addr, size),
                first == Self::first_line(addr),
                last - first <= 0x400_0000,
                self.accesses == old(self).accesses + 1,
                old(self).clock < u64::MAX - 0x400_0001,
                old(self).l2m <= self.l2m,
                old(self).l3m <= self.l3m,
            ensures
                self.wf(),
                self.accesses == old(self).accesses + 1,
                self.clock == old(self).clock + (last - first) + 1,
                old(self).l1m <= self.l1m <= old(self).l1m + (last - first) + 1,
                old(self).l2m <= self.l2m,
                old(self).l3m <= self.l3m,
                self.l1.holds(last),
                self.meter() == touch_lines(m0, first as int, last as int),
            decreases last - l,
        {
            let ghost before = self.meter();
            self.touch_cache(l);
            assert(touch_lines(before, l as int, last as int) == touch_lines(
                self.meter(),
                l + 1,
                last as int,
            ));
            if l == last {
                assert(touch_lines(self.meter(), l + 1, last as int) == self.meter());
                break;
            }
            l += 1;
        }
    }

    /// Checks the invariant at run time.
    pub fn is_valid(&self) -> (r: bool)
        ensures
            r == self.wf(),
    {
        Self::level_valid(&self.l1) && Self::level_valid(&self.l2) && Self::level_valid(&self.l3)
            && self.l3m <= self.l2m && self.l2m <= self.l1m && self.l1m <= self.clock
    }

    fn level_valid(c: &Cache) -> (r: bool)
        ensures
            r == c.wf(),
    {
        if c.ways < 1 || c.set_mask >= 0x8000_0000_0000_0000 || c.set_mask & (c.set_mask + 1) != 0 {
            return false;
        }
        let sets: u128 = c.set_mask as u128 + 1;
        let ways: u128 = c.ways as u128;
        assert(sets * ways <= 0x8000_0000_0000_0000 * 0xffff_ffff_ffff_ffff) by (nonlinear_arith)
            requires
                sets <= 0x8000_0000_0000_0000,
                ways <= 0xffff_ffff_ffff_ffff,
        ;
        sets * ways == c.tags.len() as u128 && c.age.len() == c.tags.len()
    }

    /// Weighted miss penalty: `14 * l1m + 40 * l2m + 200 * l3m`.
    pub fn memcost(&self) -> (r: u64)
        requires
            self.l1m * 14 + self.l2m * 40 + self.l3m * 200 <= u64::MAX,
        ensures
            r == self.l1m * 14 + self.l2m * 40 + self.l3m * 200,
    {
        self.l1m * PEN_L1 + self.l2m * PEN_L2 + self.l3m * PEN_L3
    }
}

proof fn lemma_pow2_mask(n: int)
    requires
        is_pow2(n),
        n <= 0x8000_0000_0000_0000,
    ensures
        n >= 1,
        ((n - 1) as u64) & (((n - 1) as u64) + 1) as u64 == 0,
    decreases n,
{
    let m = (n - 1) as u64;
    if n > 1 {
        lemma_pow2_mask(n / 2);
        let hm = (n / 2 - 1) as u64;
        assert(m & (m + 1) as u64 == 0) by (bit_vector)
            requires
                hm & (hm + 1) as u64 == 0,
                m == 2 * hm + 1,
                hm < 0x4000_0000_0000_0000,
        ;
    } else {
        assert(m == 0);
        assert(m & (m + 1) as u64 == 0) by (bit_vector)
            requires
                m == 0,
        ;
    }
}

} // verus!
