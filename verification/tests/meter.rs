use cm::cache::AccessTracker;
use cm::fuel::{FULL, HALF};
use cm::meter::{measure_host, measure_work, record_access, work_plan, MemMeter, MeterError, EXPORT_PREFIX, FUEL_BUDGET};

fn leb(mut n: usize, out: &mut Vec<u8>) {
    loop {
        let byte = (n & 0x7f) as u8;
        n >>= 7;
        if n == 0 {
            out.push(byte);
            return;
        }
        out.push(byte | 0x80);
    }
}

fn section(id: u8, contents: &[u8]) -> Vec<u8> {
    let mut out = vec![id];
    leb(contents.len(), &mut out);
    out.extend_from_slice(contents);
    out
}

fn name(s: &str) -> Vec<u8> {
    let mut out = Vec::new();
    leb(s.len(), &mut out);
    out.extend_from_slice(s.as_bytes());
    out
}

fn body(code: &[u8]) -> Vec<u8> {
    body_with(&[0], code)
}

fn body_with(locals: &[u8], code: &[u8]) -> Vec<u8> {
    let mut inner = locals.to_vec();
    inner.extend_from_slice(code);
    let mut out = Vec::new();
    leb(inner.len(), &mut out);
    out.extend(inner);
    out
}

fn module(parts: &[Vec<u8>]) -> Vec<u8> {
    let mut out = vec![0x00, 0x61, 0x73, 0x6d, 0x01, 0x00, 0x00, 0x00];
    for p in parts {
        out.extend_from_slice(p);
    }
    out
}

/// A module whose `compress_prefix` counts its argument down to zero and
/// returns it, with a heap counter that stays at 100 bytes and a memory of 3
/// pages.
fn countdown_module() -> Vec<u8> {
    let types = section(1, &[3, 0x60, 1, 0x7f, 1, 0x7f, 0x60, 0, 1, 0x7e, 0x60, 0, 1, 0x7f]);
    let funcs = section(3, &[3, 0, 1, 2]);
    let mut exports = vec![3u8];
    for (n, idx) in [("compress_prefix", 0u8), ("cm_heap_bytes", 1), ("cm_mem_pages", 2)] {
        exports.extend(name(n));
        exports.extend([0, idx]);
    }
    let exports = section(7, &exports);
    let mut code = vec![3u8];
    code.extend(body_with(
        &[1, 1, 0x7f],
        &[
            0x20, 0x00, 0x21, 0x01, 0x02, 0x40, 0x03, 0x40, 0x20, 0x01, 0x45, 0x0d, 0x01, 0x20,
            0x01, 0x41, 0x01, 0x6b, 0x21, 0x01, 0x0c, 0x00, 0x0b, 0x0b, 0x20, 0x00, 0x0b,
        ],
    ));
    code.extend(body(&[0x42, 0xe4, 0x00, 0x0b]));
    code.extend(body(&[0x41, 0x03, 0x0b]));
    let code = section(10, &code);
    module(&[types, funcs, exports, code])
}

/// An instrumented-looking module whose `compress_prefix_he` reports one
/// 4-byte read at its argument through `mem.track` and returns the argument.
fn tracking_module() -> Vec<u8> {
    let types = section(1, &[2, 0x60, 3, 0x7f, 0x7f, 0x7f, 0, 0x60, 1, 0x7f, 1, 0x7f]);
    let mut import = vec![1u8];
    import.extend(name("mem"));
    import.extend(name("track"));
    import.extend([0, 0]);
    let imports = section(2, &import);
    let funcs = section(3, &[1, 1]);
    let mut export = vec![1u8];
    export.extend(name("compress_prefix_he"));
    export.extend([0, 1]);
    let exports = section(7, &export);
    let mut code = vec![1u8];
    code.extend(body(&[0x20, 0x00, 0x41, 0x04, 0x41, 0x00, 0x10, 0x00, 0x20, 0x00, 0x0b]));
    let code = section(10, &code);
    module(&[types, imports, funcs, exports, code])
}

#[test]
fn record_access_counts_like_access() {
    let mut t = AccessTracker::new();
    let mut u = AccessTracker::new();
    assert!(record_access(&mut t, 8192, 4));
    u.access(8192, 4);
    assert_eq!((t.accesses, t.clock, t.l1m, t.l2m, t.l3m), (1, 1, 1, 1, 1));
    assert_eq!((t.accesses, t.clock, t.l1m, t.l2m, t.l3m), (u.accesses, u.clock, u.l1m, u.l2m, u.l3m));
    assert!(record_access(&mut t, 8192, 4));
    assert_eq!((t.accesses, t.clock, t.l1m), (2, 2, 1));
}

#[test]
fn record_access_leaves_a_full_counter_alone() {
    let mut t = AccessTracker::new();
    t.accesses = u64::MAX;
    assert!(!record_access(&mut t, 0, 4));
    assert_eq!((t.accesses, t.clock, t.l1m), (u64::MAX, 0, 0));
}

#[test]
fn fresh_tracker_is_valid() {
    let mut t = AccessTracker::new();
    assert!(t.is_valid());
    t.l3m = 1;
    assert!(!t.is_valid());
}

#[test]
fn measure_work_rejects_bytes_that_are_not_wasm() {
    assert_eq!(measure_work(b"not wasm").err(), Some(MeterError::Compile));
}

#[test]
fn measure_work_on_a_module_without_the_export() {
    let m = module(&[]);
    assert_eq!(measure_work(&m).err(), Some(MeterError::Export));
}

#[test]
fn measure_work_differences_the_two_prefixes() {
    let run = measure_work(&countdown_module()).unwrap();
    assert_eq!((run.out_full, run.out_half), (FULL, HALF));
    assert!(run.fuel_full > run.fuel_half);
    assert_eq!(run.work, run.fuel_full - run.fuel_half);
    assert!(run.work > 0);
}

#[test]
fn measure_host_reads_heap_and_pages() {
    let run = measure_host(&countdown_module()).unwrap();
    assert_eq!((run.fuel.out_full, run.fuel.out_half), (FULL, HALF));
    assert_eq!(run.fuel.work + run.fuel.fuel_half, run.fuel.fuel_full);
    assert_eq!((run.heap.heap_full, run.heap.heap_half, run.heap.heap_work), (0, 0, 0));
    assert_eq!(run.peak_pages, 3);
}

#[test]
fn mem_meter_rejects_bytes_that_are_not_wasm() {
    assert_eq!(MemMeter::new(b"\0asm").err(), Some(MeterError::Compile));
}

#[test]
fn mem_meter_routes_tracked_accesses_to_the_cache_model() {
    let meter = MemMeter::new(&tracking_module()).unwrap();
    let t = meter.measure(FULL).unwrap();
    assert_eq!((t.accesses, t.clock, t.l1m, t.l2m, t.l3m), (1, 1, 1, 1, 1));
    assert_eq!(t.memcost(), 14 + 40 + 200);
}

#[test]
fn work_plan_runs_full_then_half() {
    let p = work_plan();
    assert_eq!((p.export, p.fuel, p.first, p.second), (EXPORT_PREFIX, FUEL_BUDGET, FULL, HALF));
    assert_eq!(p.export, "compress_prefix");
}

#[test]
fn mem_meter_measures_afresh_each_time() {
    let meter = MemMeter::new(&tracking_module()).unwrap();
    let a = meter.measure(HALF).unwrap();
    let b = meter.measure(HALF).unwrap();
    assert_eq!((a.accesses, a.l1m, a.l2m, a.l3m), (b.accesses, b.l1m, b.l2m, b.l3m));
    assert_eq!((a.accesses, a.l1m), (1, 1));
}
