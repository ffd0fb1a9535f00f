use vstd::prelude::*;

verus! {

/// Prefix length (bytes) of the full measured run.
pub const FULL: u32 = 8192;
/// Prefix length (bytes) of the half run, differenced away.
pub const HALF: u32 = 4096;

/// Fuel measurement of the full and half prefix runs: their outputs, the
/// fuel each used, and WORK, their difference, which cancels the one-time
/// setup.
#[derive(Clone, Copy, Debug, PartialEq, Eq, Structural)]
pub struct FuelRun {
    pub out_full: u32,
    pub out_half: u32,
    pub fuel_full: u64,
    pub fuel_half: u64,
    pub work: u64,
}

/// The readings are consistent: fuel only decreases, and the full run used
/// at least as much as the half run.
pub open spec fn readings_ok(before: u64, after_full: u64, after_half: u64) -> bool {
    before >= after_full && after_full >= after_half && before - after_full >= after_full
        - after_half
}

/// Builds the measurement from the fuel left before the runs, after the full
/// run and after the half run; `None` when the readings are inconsistent.
pub fn fuel_run(out_full: u32, out_half: u32, before: u64, after_full: u64, after_half: u64) -> (r:
    Option<FuelRun>)
    ensures
        r is Some <==> readings_ok(before, after_full, after_half),
        r is Some ==> r->0 == (FuelRun {
            out_full,
            out_half,
            fuel_full: (before - after_full) as u64,
            fuel_half: (after_full - after_half) as u64,
            work: ((before - after_full) - (after_full - after_half)) as u64,
        }),
{
    if before < after_full || after_full < after_half {
        return None;
    }
    let fuel_full = before - after_full;
    let fuel_half = after_full - after_half;
    if fuel_full < fuel_half {
        return None;
    }
    Some(FuelRun { out_full, out_half, fuel_full, fuel_half, work: fuel_full - fuel_half })
}

/// Heap bytes requested by the full and half runs and their difference
/// (floored at zero; a diagnostic only).
#[derive(Clone, Copy, Debug, PartialEq, Eq, Structural)]
pub struct HeapRun {
    pub heap_full: u64,
    pub heap_half: u64,
    pub heap_work: u64,
}

/// Builds the heap diagnostic from the allocation counter read before the
/// runs, after the full run and after the half run; `None` when the counter
/// went down.
pub fn heap_run(before: u64, after_full: u64, after_half: u64) -> (r: Option<HeapRun>)
    ensures
        r is Some <==> before <= after_full && after_full <= after_half,
        r is Some ==> r->0 == (HeapRun {
            heap_full: (after_full - before) as u64,
            heap_half: (after_half - after_full) as u64,
            heap_work: if after_full - before >= after_half - after_full {
                ((after_full - before) - (after_half - after_full)) as u64
            } else {
                0u64
            },
        }),
{
    if after_full < before || after_half < after_full {
        return None;
    }
    let heap_full = after_full - before;
    let heap_half = after_half - after_full;
    Some(HeapRun { heap_full, heap_half, heap_work: heap_full.saturating_sub(heap_half) })
}

} // verus!
