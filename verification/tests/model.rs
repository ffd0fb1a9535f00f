use cm::model::Cm;
use cm::tables::Tables;

/// Logistic tables on the usual scales: logits in 1/256 units.
fn tables() -> Tables {
    let squash: Vec<i32> = (0..4096)
        .map(|i| {
            let d = (i as f64 - 2048.0) / 256.0;
            ((4096.0 / (1.0 + (-d).exp())) as i32).clamp(0, 4095)
        })
        .collect();
    let squash16: Vec<i32> = (0..4096)
        .map(|i| {
            let d = (i as f64 - 2048.0) / 256.0;
            ((65536.0 / (1.0 + (-d).exp())) as i32).clamp(0, 65535)
        })
        .collect();
    let stretch: Vec<i32> = (0..4096)
        .map(|p| {
            let q = (p as f64 + 0.5) / 4096.0;
            ((q / (1.0 - q)).ln() * 256.0).round().clamp(-2047.0, 2047.0) as i32
        })
        .collect();
    let stretch16: Vec<i32> = (0..65536)
        .map(|p| {
            let q = (p as f64 + 0.5) / 65536.0;
            ((q / (1.0 - q)).ln() * 256.0).round().clamp(-2047.0, 2047.0) as i32
        })
        .collect();
    Tables { stretch, squash, stretch16, squash16 }
}

/// Codes `data` bit by bit (most significant first) and returns every
/// prediction made.
fn run(cm: &mut Cm, data: &[u8]) -> Vec<i32> {
    let mut ps = Vec::new();
    for &byte in data {
        for k in (0..8).rev() {
            let bit = ((byte >> k) & 1) as i32;
            let p = cm.predict([0; 6]);
            assert!((1..=65534).contains(&p));
            ps.push(p);
            cm.update(bit, p);
        }
    }
    ps
}

#[test]
fn fresh_model_starts_a_byte() {
    let cm = Cm::new(1000, tables());
    assert_eq!((cm.c0, cm.bitcount, cm.pos), (1, 0, 0));
    assert_eq!(cm.buf.len(), 0x1_0000);
    assert!(cm.mm.iter().all(|m| m.len == 0 && m.pbyte == -1));
}

#[test]
fn coding_a_byte_advances_the_history() {
    let mut cm = Cm::new(1000, tables());
    run(&mut cm, b"ab");
    assert_eq!((cm.c0, cm.bitcount, cm.pos), (1, 0, 2));
    assert_eq!(cm.c4 & 0xffff, 0x6162);
    assert_eq!(cm.c1, b'b' as i32);
    assert_eq!(&cm.buf[0..2], b"ab");
    assert_eq!(cm.run_len, 1);
}

#[test]
fn within_a_byte_the_partial_byte_grows() {
    let mut cm = Cm::new(1000, tables());
    let p = cm.predict([0; 6]);
    cm.update(1, p);
    assert_eq!((cm.c0, cm.bitcount), (3, 1));
    let p = cm.predict([0; 6]);
    cm.update(0, p);
    assert_eq!((cm.c0, cm.bitcount), (6, 2));
}

#[test]
fn encoder_and_decoder_models_agree() {
    let data = b"the quick brown fox jumps over the lazy dog; the quick brown fox";
    let mut a = Cm::new(data.len(), tables());
    let mut b = Cm::new(data.len(), tables());
    let pa = run(&mut a, data);
    let pb = run(&mut b, data);
    assert_eq!(pa, pb);
    assert_eq!(a.c4, b.c4);
}

#[test]
fn repeats_are_matched_and_learned() {
    let text = b"abracadabra, abracadabra, abracadabra, abracadabra, abracadabra";
    let mut cm = Cm::new(text.len(), tables());
    let ps = run(&mut cm, text);
    // The order-6 match model has found the repeat and predicts its next byte.
    assert!(cm.mm[0].len > 0);
    assert!(cm.mm[0].pbyte >= 0);
    // The last repetition is predicted better than the first occurrence.
    let bits: Vec<i32> = text
        .iter()
        .flat_map(|&b| (0..8).rev().map(move |k| ((b >> k) & 1) as i32))
        .collect();
    let cost = |r: std::ops::Range<usize>| -> f64 {
        r.map(|i| {
            let p1 = ps[i] as f64 / 65536.0;
            let p = if bits[i] == 1 { p1 } else { 1.0 - p1 };
            -p.log2()
        })
        .sum()
    };
    let n = 13 * 8;
    assert!(cost(bits.len() - n..bits.len()) < cost(0..n));
}

#[test]
fn brackets_and_lines_are_tracked() {
    let mut cm = Cm::new(1000, tables());
    run(&mut cm, b"f(a[1]{\nx");
    assert_eq!(cm.nest_depth, 2);
    assert_eq!(&cm.nest_stack[0..2], b"({");
    assert_eq!(cm.col, 1);
    assert_eq!(cm.line_start, 8);
}

#[test]
fn words_are_hashed_and_shifted_into_history() {
    let mut cm = Cm::new(1000, tables());
    run(&mut cm, b"ab ");
    assert_eq!(cm.wordhash, 0);
    let h = cm::hashing::hashk(cm::hashing::hashk(0, b'a' as u32), b'b' as u32);
    assert_eq!(cm.prevword, h);
}

#[test]
fn byte_start_computes_the_contexts() {
    let mut cm = Cm::new(1000, tables());
    cm.byte_start();
    assert_eq!(cm.ctxhash[0], 0);
    assert_eq!(cm.ctxhash[1], cm::hashing::hashk(0x100, 0));
    assert_eq!(cm.above_byte, 256);
    run(&mut cm, b"ab");
    assert_eq!(cm.ctxhash[1], cm::hashing::hashk(0x100, b'b' as u32));
    assert_eq!(cm.ctxhash[2], cm::hashing::hashk(0x200, 0x6162));
}
