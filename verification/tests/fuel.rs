use cm::fuel::{fuel_run, heap_run, FuelRun, HeapRun, FULL, HALF};

#[test]
fn work_is_full_minus_half() {
    let r = fuel_run(10, 6, 1000, 700, 550).unwrap();
    assert_eq!(r, FuelRun { out_full: 10, out_half: 6, fuel_full: 300, fuel_half: 150, work: 150 });
    assert_eq!(FULL - HALF, 4096);
}

#[test]
fn inconsistent_fuel_readings_are_refused() {
    assert_eq!(fuel_run(0, 0, 100, 200, 50), None);
    assert_eq!(fuel_run(0, 0, 100, 50, 60), None);
    // The half run used more fuel than the full run.
    assert_eq!(fuel_run(0, 0, 1000, 900, 700), None);
    assert!(fuel_run(0, 0, 1000, 900, 800).is_some());
}

#[test]
fn heap_work_is_floored_at_zero() {
    assert_eq!(heap_run(100, 300, 350), Some(HeapRun { heap_full: 200, heap_half: 50, heap_work: 150 }));
    assert_eq!(heap_run(100, 150, 350), Some(HeapRun { heap_full: 50, heap_half: 200, heap_work: 0 }));
    assert_eq!(heap_run(100, 90, 350), None);
}
