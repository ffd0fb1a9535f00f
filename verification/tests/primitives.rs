use cm::adaptive::{build_rate_table, cell_update, counter_step};
use cm::apm::Apm;
use cm::bit_history::next_state;
use cm::hashing::{cls4, hashk};
use cm::mixer::Mixer;
use cm::tables::{squash16_d, squash_d};

fn decode(s: u8) -> (i32, i32) {
    ((s >> 4) as i32, (s & 15) as i32)
}

#[test]
fn hashk_multiplies_the_incremented_sum() {
    assert_eq!(hashk(0, 0), 2654435761);
    assert_eq!(hashk(0x100, 0x41), 0x142u32.wrapping_mul(2654435761));
    assert_eq!(hashk(u32::MAX, 0), 0);
    assert_eq!(hashk(7, u32::MAX), 7u32.wrapping_mul(2654435761));
}

#[test]
fn cls4_packs_two_bits_per_byte() {
    // '.', ' ', '1', 'A' from the low byte up: other, space, digit, letter.
    assert_eq!(cls4(0x4131_202e), 0 | (3 << 2) | (2 << 4) | (1 << 6));
    assert_eq!(cls4(0x6161_6161), 0b0101_0101);
    assert_eq!(cls4(0x0a09_0d20), 0xff);
    assert_eq!(cls4(0), 0);
}

#[test]
fn next_state_counts_runs_and_floors_the_minority() {
    assert_eq!(next_state(0x00, 1), 0x01);
    assert_eq!(next_state(0x00, 0), 0x10);
    assert_eq!(next_state(0x35, 1), 0x36);
    assert_eq!(next_state(0x01, 1), 0x02);
    // A long run of ones saturates at 15 and the zero count stays floored.
    let mut s = 0u8;
    for _ in 0..40 {
        s = next_state(s, 1);
    }
    assert_eq!(decode(s), (0, 15));
    // After a long run, the opposite bit keeps at most 3 of the old count.
    let t = next_state(s, 0);
    assert_eq!(decode(t), (1, 3));
}

#[test]
fn cell_update_adapts_probability_and_count() {
    let half = (1u32 << 21) << 10;
    assert_eq!(cell_update(half, 1, 2, 255), ((3u32 << 20) << 10) | 1);
    assert_eq!(cell_update(half, 0, 2, 255), ((1u32 << 20) << 10) | 1);
    // The count saturates at the cap.
    assert_eq!(cell_update(half | 255, 1, 2, 255) & 1023, 255);
    // With rate 1/(0+1) a one would reach probability one exactly; the
    // 22-bit field wraps it to zero.
    assert_eq!(cell_update(half, 1, 1, 511), 1);
}

#[test]
fn counter_step_moves_toward_target() {
    assert_eq!(counter_step(0, 65535, 2048), 16383);
    assert_eq!(counter_step(0, 0, 2048), -16384);
    assert_eq!(counter_step(32767, 65535, 4096), 32767);
    assert_eq!(counter_step(-32768, 0, 16), -32768);
}

#[test]
fn rate_table_halves_then_floors() {
    let t = build_rate_table();
    assert_eq!(t[0], 2048);
    assert_eq!(t[2], 1024);
    assert_eq!(t[254], 16);
    assert_eq!(t[255], 16);
}

fn ramp(n: usize, lo: i32, hi: i32) -> Vec<i32> {
    (0..n).map(|i| lo + ((hi - lo) as i64 * i as i64 / (n as i64 - 1)) as i32).collect()
}

#[test]
fn squash_lookups_clamp_the_logit() {
    let sq = ramp(4096, 0, 4095);
    assert_eq!(squash_d(&sq, 0), sq[2048]);
    assert_eq!(squash_d(&sq, -5000), sq[0]);
    assert_eq!(squash_d(&sq, 5000), sq[4095]);
    let sq16 = ramp(4096, 0, 65535);
    assert_eq!(squash16_d(&sq16, 2047), 65535);
}

#[test]
fn apm_interpolates_and_trains_toward_the_bit() {
    let sq = ramp(4096, 0, 4095);
    let st16 = ramp(65536, -2048, 2047);
    let mut a = Apm::new(2, &sq);
    assert_eq!(a.t.len(), 66);
    assert_eq!(a.t[16] as i32, sq[2048] * 16);
    let p = a.apply16(&st16, 1, 32768);
    let s = st16[32768] + 2048;
    let (w, j) = (s & 127, (s >> 7) as usize);
    assert_eq!(a.idx, 33 + j);
    let expect = (a.t[33 + j] as i32 * (128 - w) + a.t[34 + j] as i32 * w) >> 7;
    assert_eq!(p, expect.clamp(1, 65534));
    let before = (a.t[a.idx], a.t[a.idx + 1]);
    a.update(1);
    assert!(a.t[33 + j] >= before.0 && a.t[34 + j] >= before.1);
    assert_eq!(a.t[33 + j] as i32, before.0 as i32 + ((65550 - before.0 as i32) >> 7));
}

#[test]
fn mixer_dots_and_trains_the_selected_row() {
    let mut m = Mixer::new(4, 2, 8);
    assert_eq!(m.w, vec![16384; 8]);
    m.ctx = 1;
    let x64 = vec![100i64, 0, -50, 2048];
    assert_eq!(m.dot(&x64, 4), 16384 * (100 - 50 + 2048));
    let x = vec![100i32, 0, -50, 2048];
    m.pr = 1024;
    m.train(&x, 4, 1);
    let e = (4096 - 1024) * 8;
    assert_eq!(m.w[4], 16384 + ((100 * e) >> 16));
    assert_eq!(m.w[5], 16384);
    assert_eq!(m.w[6], 16384 + ((-50 * e) >> 16));
    assert_eq!(&m.w[0..4], &[16384; 4]);
}

#[test]
fn mixer_takes_any_row_count_and_rate() {
    let m = Mixer::new(3, 0, 99);
    assert!(m.w.is_empty());
    assert_eq!((m.nctx, m.ctx, m.pr, m.lr), (0, 0, 2048, 99));
    let m = Mixer::new(3, 5, -1);
    assert_eq!(m.w, vec![21845; 15]);
    assert_eq!(m.lr, -1);
}

#[test]
fn apm_with_no_contexts_is_empty() {
    let sq = ramp(4096, 0, 4095);
    let a = Apm::new(0, &sq);
    assert!(a.t.is_empty());
    assert_eq!(a.idx, 0);
}
