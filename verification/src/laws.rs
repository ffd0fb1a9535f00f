use vstd::prelude::*;
use crate::adaptive::{adapt_toward, cell_count, cell_prob, spec_cell_update, spec_counter_step, P22_ONE};
use crate::apm::{apm_step, apm_target};
use crate::cache::{touch, Level, Meter};
use crate::mixer::trained_weight;
use crate::model::{Cm, CtxTable};
use crate::predict::{first_match_from, least_used};
use crate::byte_end::history_advanced;
use crate::hashing::spec_hashk;

verus! {

/// A state-map cell moves toward the coded bit: after a one its probability
/// does not fall, after a zero it does not rise, and its count advances up
/// to the cap. (Excluded: an update that would reach probability one
/// exactly, which the 22-bit field cannot hold.)
pub proof fn lemma_state_map_moves_toward_bit(e: u32, bit: i32, k: u32, cap: u32)
    requires
        bit == 0 || bit == 1,
        1 <= k <= 1024,
        cap < 1024,
        adapt_toward(cell_prob(e), bit, cell_count(e) + k) < P22_ONE,
    ensures
        bit == 1 ==> cell_prob(e) <= cell_prob(spec_cell_update(e, bit, k, cap) as u32),
        bit == 0 ==> cell_prob(spec_cell_update(e, bit, k, cap) as u32) <= cell_prob(e),
        cell_count(spec_cell_update(e, bit, k, cap) as u32) == if cell_count(e) < cap {
            cell_count(e) + 1
        } else {
            cap as int
        },
{
    let p = cell_prob(e);
    let c = cell_count(e);
    let d = c + k;
    let np = adapt_toward(p, bit, d);
    let nc = if c < cap {
        c + 1
    } else {
        cap as int
    };
    assert(0 <= p < P22_ONE) by {
        assert(e as int / 1024 < 0x40_0000);
    }
    assert(0 <= np) by {
        if bit == 0 {
            vstd::arithmetic::div_mod::lemma_div_is_ordered_by_denominator(p, 1, d);
        } else {
            vstd::arithmetic::div_mod::lemma_div_pos_is_pos(P22_ONE as int - p, d);
        }
    }
    assert(bit == 1 ==> p <= np) by {
        if bit == 1 {
            vstd::arithmetic::div_mod::lemma_div_pos_is_pos(P22_ONE as int - p, d);
        }
    }
    assert(bit == 0 ==> np <= p) by {
        if bit == 0 {
            vstd::arithmetic::div_mod::lemma_div_pos_is_pos(p, d);
        }
    }
    assert(np % (P22_ONE as int) == np) by {
        vstd::arithmetic::div_mod::lemma_small_mod(np as nat, P22_ONE as nat);
    }
    let v = np * 1024 + nc;
    assert(spec_cell_update(e, bit, k, cap) == v);
    assert(0 <= v < 0x1_0000_0000) by (nonlinear_arith)
        requires
            0 <= np < 0x40_0000,
            0 <= nc < 1024,
            v == np * 1024 + nc,
    ;
    assert(v / 1024 == np && v % 1024 == nc) by {
        vstd::arithmetic::div_mod::lemma_fundamental_div_mod_converse(v, 1024, np, nc);
    }
}

/// A direct counter moves toward its target without passing it.
pub proof fn lemma_counter_moves_toward_target(pr: int, t: int, rate: int)
    requires
        0 <= pr <= 65535,
        t == 0 || t == 65535,
        1 <= rate <= 4096,
    ensures
        t == 65535 ==> pr <= spec_counter_step(pr, t, rate) <= 65535,
        t == 0 ==> 0 <= spec_counter_step(pr, t, rate) <= pr,
{
    let prod = (t - pr) * rate;
    if t == 65535 {
        assert(0 <= prod <= (t - pr) * 4096) by (nonlinear_arith)
            requires
                prod == (t - pr) * rate,
                pr <= t,
                1 <= rate <= 4096,
        ;
        vstd::arithmetic::div_mod::lemma_div_pos_is_pos(prod, 4096);
        vstd::arithmetic::div_mod::lemma_div_is_ordered(prod, (t - pr) * 4096, 4096);
        vstd::arithmetic::div_mod::lemma_div_by_multiple(t - pr, 4096);
    } else {
        assert(-(pr * 4096) <= prod <= 0) by (nonlinear_arith)
            requires
                prod == (0 - pr) * rate,
                0 <= pr,
                1 <= rate <= 4096,
        ;
        vstd::arithmetic::div_mod::lemma_div_is_ordered(-(pr * 4096), prod, 4096);
        vstd::arithmetic::div_mod::lemma_div_multiples_vanish(-pr, 4096);
        assert(-(pr * 4096) == 4096 * (-pr)) by (nonlinear_arith);
        assert(prod / 4096 <= 0) by {
            vstd::arithmetic::div_mod::lemma_div_is_ordered(prod, 0, 4096);
        }
    }
}

/// A calibration point moves toward the coded bit and stays a 16-bit value.
pub proof fn lemma_apm_point_moves_toward_bit(a: int, bit: int)
    requires
        0 <= a <= 65535,
        bit == 0 || bit == 1,
    ensures
        bit == 1 ==> a <= apm_step(a, bit) <= 65535,
        bit == 0 ==> 0 <= apm_step(a, bit) <= a,
{
    if bit == 1 {
        assert(apm_target(1) == 65550);
        assert(a + (65550 - a) / 128 <= 65535) by {
            if a < 65535 {
                assert((65550 - a) / 128 <= 65535 - a) by {
                    vstd::arithmetic::div_mod::lemma_div_is_ordered(65550 - a, 128 * (65535 - a), 128);
                    vstd::arithmetic::div_mod::lemma_div_by_multiple(65535 - a, 128);
                    assert(65550 - a <= 128 * (65535 - a));
                }
            }
        }
    } else {
        assert(apm_target(0) == 0);
        assert(-a <= (0 - a) / 128 <= 0) by {
            vstd::arithmetic::div_mod::lemma_div_is_ordered(-a * 128, -a, 128);
            vstd::arithmetic::div_mod::lemma_div_multiples_vanish(-a, 128);
            assert(-a * 128 == 128 * (-a)) by (nonlinear_arith);
            assert(-a * 128 <= -a) by (nonlinear_arith)
                requires
                    0 <= a,
            ;
            vstd::arithmetic::div_mod::lemma_div_is_ordered(-a, 0, 128);
        }
    }
}

/// Training leaves the weight of a zero input unchanged, whatever the error.
pub proof fn lemma_zero_input_keeps_weight(w: i32, e: int)
    ensures
        trained_weight(w, 0, e) == w,
{
    assert(0 * e == 0);
    assert((0int / 65536) as i32 == 0i32);
    assert(w.wrapping_add(0) == w);
}


/// The least recently used way of a set is one of its ways.
proof fn lemma_min_way_range(lv: Level, base: int, n: int)
    requires
        n >= 1,
    ensures
        0 <= lv.min_way(base, n) < n,
    decreases n,
{
    if n > 1 {
        lemma_min_way_range(lv, base, n - 1);
    }
}

/// After a lookup the level holds the line.
pub proof fn lemma_lookup_holds(lv: Level, line: u64, clock: u64)
    requires
        lv.wf(),
    ensures
        lv.lookup(line, clock).1.holds(line),
        lv.lookup(line, clock).1.set_mask == lv.set_mask,
        lv.lookup(line, clock).1.ways == lv.ways,
{
    crate::bits::lemma_u64_mask();
    let base = lv.base(line);
    let set = line & lv.set_mask;
    assert(set <= lv.set_mask);
    assert(base + lv.ways <= lv.tags.len()) by (nonlinear_arith)
        requires
            base == set as int * lv.ways,
            set <= lv.set_mask,
            lv.tags.len() == (lv.set_mask + 1) * lv.ways,
    ;
    assert(base >= 0) by (nonlinear_arith)
        requires
            base == set as int * lv.ways,
    ;
    let n = lv.lookup(line, clock).1;
    assert(n.base(line) == base);
    if !lv.holds(line) {
        let v = lv.min_way(base, lv.ways as int);
        lemma_min_way_range(lv, base, lv.ways as int);
        assert(n.tags == lv.tags.update(base + v, line));
        assert(n.tags.len() == lv.tags.len());
        assert(n.tags[n.base(line) + v] == line);
        assert(n.holds(line));
    } else {
        let w = choose|w: int| 0 <= w < lv.ways && #[trigger] lv.tags[lv.base(line) + w] == line;
        assert(n.tags == lv.tags);
        assert(n.tags[n.base(line) + w] == line);
        assert(n.holds(line));
    }
}

/// A line that L1 holds is looked up without a miss at any level.
pub proof fn lemma_l1_hit_costs_nothing(m: Meter, line: u64)
    requires
        m.l1.holds(line),
    ensures
        touch(m, line).l1m == m.l1m,
        touch(m, line).l2m == m.l2m,
        touch(m, line).l3m == m.l3m,
{
}

/// Looking the same line up twice in a row: the second lookup misses
/// nowhere.
pub proof fn lemma_repeat_lookup_costs_nothing(m: Meter, line: u64)
    requires
        m.l1.wf(),
    ensures
        touch(touch(m, line), line).l1m == touch(m, line).l1m,
        touch(touch(m, line), line).l2m == touch(m, line).l2m,
        touch(touch(m, line), line).l3m == touch(m, line).l3m,
{
    lemma_lookup_holds(m.l1, line, (m.clock + 1) as u64);
    lemma_l1_hit_costs_nothing(touch(m, line), line);
}

proof fn lemma_least_used_is_least(t: CtxTable, base: int, k: int)
    requires
        k >= 0,
    ensures
        0 <= least_used(t, base, k) <= k,
        forall|w: int| 0 <= w <= k ==> t.cn@[base + least_used(t, base, k)] <= #[trigger] t.cn@[base + w],
        forall|w: int|
            0 <= w < least_used(t, base, k) ==> t.cn@[base + least_used(t, base, k)] < #[trigger] t.cn@[
                base + w],
    decreases k,
{
    if k > 0 {
        lemma_least_used_is_least(t, base, k - 1);
    }
}

proof fn lemma_first_match_is_first(t: CtxTable, base: int, chk: u8, k: int)
    requires
        0 <= k <= 8,
    ensures
        k <= first_match_from(t, base, chk, k) <= 8,
        first_match_from(t, base, chk, k) < 8 ==> t.ck@[base + first_match_from(t, base, chk, k)] == chk,
        forall|w: int| k <= w < first_match_from(t, base, chk, k) ==> #[trigger] t.ck@[base + w] != chk,
    decreases 8 - k,
{
    if k < 8 {
        lemma_first_match_is_first(t, base, chk, k + 1);
    }
}

/// Slot choice in an associative context table: the context's slot lies in
/// its bucket of 8 ways. When some way carries the context's checksum, the
/// slot is the first such way; when none does, the claimed way is one with
/// the smallest count of the bucket (the least trained context is evicted).
pub proof fn lemma_slot_choice(c: Cm, i: int)
    requires
        c.assoc[i],
    ensures
        c.bucket_base(i) <= c.chosen_slot(i) < c.bucket_base(i) + 8,
        !c.slot_claimed(i) ==> c.tab@[i].ck@[c.chosen_slot(i)] == c.bucket_chk(i),
        !c.slot_claimed(i) ==> forall|w: int|
            c.bucket_base(i) <= w < c.chosen_slot(i) ==> #[trigger] c.tab@[i].ck@[w] != c.bucket_chk(i),
        c.slot_claimed(i) ==> forall|w: int|
            0 <= w < 8 ==> #[trigger] c.tab@[i].ck@[c.bucket_base(i) + w] != c.bucket_chk(i),
        c.slot_claimed(i) ==> forall|w: int|
            0 <= w < 8 ==> c.tab@[i].cn@[c.chosen_slot(i)] <= #[trigger] c.tab@[i].cn@[
                c.bucket_base(i) + w],
        c.slot_claimed(i) ==> forall|w: int|
            c.bucket_base(i) <= w < c.chosen_slot(i) ==> c.tab@[i].cn@[c.chosen_slot(i)]
                < #[trigger] c.tab@[i].cn@[w],
{
    let t = c.tab@[i];
    let base = c.bucket_base(i);
    lemma_first_match_is_first(t, base, c.bucket_chk(i), 0);
    lemma_least_used_is_least(t, base, 7);
    if !c.slot_claimed(i) {
        assert forall|w: int| base <= w < c.chosen_slot(i) implies #[trigger] t.ck@[w] != c.bucket_chk(i) by {
            assert(t.ck@[base + (w - base)] != c.bucket_chk(i));
        }
    } else {
        assert forall|w: int| base <= w < c.chosen_slot(i) implies t.cn@[c.chosen_slot(i)]
            < #[trigger] t.cn@[w] by {
            assert(t.cn@[base + (w - base)] > t.cn@[c.chosen_slot(i)]);
        }
    }
}

/// How far a match candidate agrees: `extent_from(cand, l)` counts, from
/// `l`, the bytes before `cand` that equal the bytes before the current
/// position (byte `cand - 1 - i` against byte `pos - 1 - i`), and it stops
/// only at a disagreeing byte or at a limit (1023 bytes, or the start of
/// either context).
pub proof fn lemma_extent_counts_agreeing_bytes(c: Cm, cand: u32, l: int)
    requires
        0 <= l,
    ensures
        l <= c.extent_from(cand, l),
        forall|i: int|
            l <= i < c.extent_from(cand, l) ==> #[trigger] c.byte_at((cand - 1 - i) as u32) == c.byte_at(
                (c.pos - 1 - i) as u32,
            ),
        ({
            let e = c.extent_from(cand, l);
            e < 0x3ff && cand > e && c.pos > e + 1 ==> c.byte_at((cand - 1 - e) as u32) != c.byte_at(
                (c.pos - 1 - e) as u32,
            )
        }),
    decreases 0x3ff - l,
{
    if 0 <= l < 0x3ff && cand > l && c.pos > l + 1 && c.byte_at((cand - 1 - l) as u32) == c.byte_at(
        (c.pos - 1 - l) as u32,
    ) {
        lemma_extent_counts_agreeing_bytes(c, cand, l + 1);
    }
}

/// The order-n contexts (n = 1..4) hash exactly the last n bytes: the low
/// `8n` bits of the history word, tagged `n * 0x100`.
pub proof fn lemma_order_contexts(c: Cm)
    ensures
        c.spec_ctxhash(1) == spec_hashk(0x100, (c.c4 % 0x100) as u32),
        c.spec_ctxhash(2) == spec_hashk(0x200, (c.c4 % 0x1_0000) as u32),
        c.spec_ctxhash(3) == spec_hashk(0x300, (c.c4 % 0x100_0000) as u32),
        c.spec_ctxhash(4) == spec_hashk(0x400, c.c4),
{
    let x = c.c4;
    assert(x & 0xff == x % 0x100 && x & 0xffff == x % 0x1_0000 && x & 0xff_ffff == x % 0x100_0000)
        by (bit_vector);
}

/// Words are runs of letters and digits: a letter or a digit extends the
/// current word hash (case folded) and leaves the previous words alone; any
/// other byte ends the word.
pub proof fn lemma_word_bytes(o: Cm, n: Cm, byte: u8)
    requires
        history_advanced(o, n, byte),
    ensures
        (97 <= byte <= 122 || 65 <= byte <= 90 || 48 <= byte <= 57) ==> {
            &&& n.wordhash == spec_hashk(o.wordhash, (byte | 0x20u8) as u32)
            &&& n.prevword == o.prevword
            &&& n.prevword2 == o.prevword2
            &&& n.prevword3 == o.prevword3
        },
        !(97 <= byte <= 122 || 65 <= byte <= 90 || 48 <= byte <= 57) ==> n.wordhash == 0,
        !(97 <= byte <= 122 || 65 <= byte <= 90 || 48 <= byte <= 57) && o.wordhash != 0
            ==> n.prevword == o.wordhash && n.prevword2 == o.prevword && n.prevword3 == o.prevword2,
{
    reveal(history_advanced);
}

/// Least-recently-used replacement: after a lookup of `line` at `clock`,
/// hit or miss, a way of the line's set holds `line` with age `clock`, so
/// the line is the most recently used of its set. On a miss the way
/// replaced was one of the oldest of the set.
pub proof fn lemma_lookup_refreshes_age(lv: Level, line: u64, clock: u64)
    requires
        lv.wf(),
    ensures
        ({
            let n = lv.lookup(line, clock).1;
            exists|w: int|
                0 <= w < lv.ways && #[trigger] n.tags[lv.base(line) + w] == line && n.age[lv.base(line)
                    + w] == clock
        }),
        lv.holds(line) ==> lv.lookup(line, clock).1.tags == lv.tags,
        !lv.holds(line) ==> ({
            let v = lv.min_way(lv.base(line), lv.ways as int);
            &&& 0 <= v < lv.ways
            &&& forall|w: int|
                0 <= w < lv.ways ==> lv.age[lv.base(line) + v] <= #[trigger] lv.age[lv.base(line) + w]
            &&& forall|w: int|
                0 <= w < v ==> lv.age[lv.base(line) + v] < #[trigger] lv.age[lv.base(line) + w]
            &&& lv.lookup(line, clock).1.tags == lv.tags.update(lv.base(line) + v, line)
        }),
{
    crate::bits::lemma_u64_mask();
    let base = lv.base(line);
    let set = line & lv.set_mask;
    assert(set <= lv.set_mask);
    assert(base + lv.ways <= lv.tags.len()) by (nonlinear_arith)
        requires
            base == set as int * lv.ways,
            set <= lv.set_mask,
            lv.tags.len() == (lv.set_mask + 1) * lv.ways,
    ;
    assert(base >= 0) by (nonlinear_arith)
        requires
            base == set as int * lv.ways,
    ;
    let n = lv.lookup(line, clock).1;
    lemma_min_way_least(lv, base, lv.ways as int);
    if lv.holds(line) {
        let w0 = choose|w: int| 0 <= w < lv.ways && #[trigger] lv.tags[lv.base(line) + w] == line;
        reveal(Level::first_match);
        assert(exists|w: int|
            0 <= w < lv.ways && #[trigger] lv.tags[base + w] == line && forall|v: int|
                0 <= v < w ==> #[trigger] lv.tags[base + v] != line) by {
            lemma_first_holder(lv, base, line, w0);
        }
        let f = lv.first_match(line);
        assert(0 <= f < lv.ways && lv.tags[base + f] == line);
        assert(n.tags[base + f] == line && n.age[base + f] == clock);
    } else {
        let v = lv.min_way(base, lv.ways as int);
        assert(n.tags[base + v] == line && n.age[base + v] == clock);
    }
}

proof fn lemma_first_holder(lv: Level, base: int, line: u64, w0: int)
    requires
        0 <= w0 < lv.ways,
        lv.tags[base + w0] == line,
    ensures
        exists|w: int|
            0 <= w < lv.ways && #[trigger] lv.tags[base + w] == line && forall|v: int|
                0 <= v < w ==> #[trigger] lv.tags[base + v] != line,
    decreases w0,
{
    if exists|v: int| 0 <= v < w0 && #[trigger] lv.tags[base + v] == line {
        let v = choose|v: int| 0 <= v < w0 && #[trigger] lv.tags[base + v] == line;
        lemma_first_holder(lv, base, line, v);
    } else {
        assert(forall|v: int| 0 <= v < w0 ==> #[trigger] lv.tags[base + v] != line);
    }
}

proof fn lemma_min_way_least(lv: Level, base: int, n: int)
    requires
        n >= 1,
    ensures
        0 <= lv.min_way(base, n) < n,
        forall|w: int| 0 <= w < n ==> lv.age[base + lv.min_way(base, n)] <= #[trigger] lv.age[base + w],
        forall|w: int| 0 <= w < lv.min_way(base, n) ==> lv.age[base + lv.min_way(base, n)] < #[trigger] lv.age[base + w],
    decreases n,
{
    if n > 1 {
        lemma_min_way_least(lv, base, n - 1);
    }
}

/// The history side of a coded byte: it joins the history word (shifted in
/// at the low end) and the buffer at the old position, the position
/// advances, a repeat of the last byte lengthens the run and any other byte
/// starts a new one, `(`, `[`, `{` open a nesting level (at most 64) and
/// `)`, `]`, `}` close one, a line feed or carriage return starts column 0,
/// and a line feed starts a new line.
pub proof fn lemma_history_layout(o: Cm, n: Cm, byte: u8)
    requires
        history_advanced(o, n, byte),
    ensures
        n.c4 as int == (o.c4 as int * 256 + byte as int) % 0x1_0000_0000,
        n.c1 == byte as int,
        n.pos == o.pos + 1,
        n.buf@ == o.buf@.update((o.pos & o.bufmask) as int, byte),
        byte as int == o.c1 ==> n.run_len == if o.run_len < 65535 {
            o.run_len + 1
        } else {
            o.run_len as int
        },
        byte as int != o.c1 ==> n.run_len == 1,
        (byte == 40 || byte == 91 || byte == 123) && o.nest_depth < 64 ==> n.nest_depth
            == o.nest_depth + 1 && n.nest_stack[o.nest_depth as int] == byte,
        (byte == 41 || byte == 93 || byte == 125) && o.nest_depth > 0 ==> n.nest_depth
            == o.nest_depth - 1,
        !(byte == 40 || byte == 91 || byte == 123 || byte == 41 || byte == 93 || byte == 125)
            ==> n.nest_depth == o.nest_depth && n.nest_stack == o.nest_stack,
        (byte == 10 || byte == 13) ==> n.col == 0,
        !(byte == 10 || byte == 13) && o.col < 255 ==> n.col == o.col + 1,
        byte == 10 ==> n.line_start == o.pos + 1 && n.prev_line_start == o.line_start
            && n.prev2_line_start == o.prev_line_start,
        byte != 10 ==> n.line_start == o.line_start,
        n.rpos[byte as int] == o.pos + 1,
{
    reveal(history_advanced);
    let a = o.c4;
    assert(((a << 8u32) | (byte as u32)) as int == (a as int * 256 + byte as int) % 0x1_0000_0000)
        by (bit_vector);
    assert(n.nest_stack@ == n.nest_stack@);
    if !(byte == 40 || byte == 91 || byte == 123 || byte == 41 || byte == 93 || byte == 125) {
        assert(n.nest_stack =~= o.nest_stack);
    }
}

} // verus!
