use vstd::prelude::*;
use crate::cache::{touch_lines, AccessTracker, Meter};
use crate::fuel::{fuel_run, heap_run, FuelRun, HeapRun, FULL, HALF};

verus! {

#[verifier::external_type_specification]
#[verifier::external_body]
pub struct ExEngine(wasmtime::Engine);

#[verifier::external_type_specification]
#[verifier::external_body]
pub struct ExConfig(wasmtime::Config);

#[verifier::external_type_specification]
#[verifier::external_body]
pub struct ExModule(wasmtime::Module);

#[verifier::external_type_specification]
#[verifier::external_body]
pub struct ExError(wasmtime::Error);

#[verifier::external_type_specification]
#[verifier::external_body]
#[verifier::reject_recursive_types(T)]
pub struct ExStore<T: 'static>(wasmtime::Store<T>);

#[verifier::external_type_specification]
#[verifier::external_body]
#[verifier::reject_recursive_types(Params)]
#[verifier::reject_recursive_types(Results)]
pub struct ExTypedFunc<Params, Results>(wasmtime::TypedFunc<Params, Results>);

/// Export run for WORK: compresses a prefix of the embedded corpus.
pub const EXPORT_PREFIX: &'static str = "compress_prefix";
/// Export run for MEMCOST, from the instrumented module.
pub const EXPORT_HE: &'static str = "compress_prefix_he";
/// Export reporting the heap bytes requested so far.
pub const EXPORT_HEAP: &'static str = "cm_heap_bytes";
/// Export reporting the linear memory's peak size in pages.
pub const EXPORT_PAGES: &'static str = "cm_mem_pages";
/// Fuel given to a run: far more than any run uses; it only bounds a run
/// that would not end.
pub const FUEL_BUDGET: u64 = 1_000_000_000_000_000;

/// What stopped a measurement.
#[derive(Clone, Copy, Debug, PartialEq, Eq, Structural)]
pub enum MeterError {
    Engine,
    Compile,
    Fuel,
    Instantiate,
    Export,
    Call,
    Readings,
    HeapReadings,
    Tracker,
}

/// The plan of a fuel run: the export called, the fuel the store is given,
/// and the two prefixes, in the order they are run.
pub struct RunPlan {
    pub export: &'static str,
    pub fuel: u64,
    pub first: u32,
    pub second: u32,
}

/// The WORK run: `compress_prefix` on the full prefix, then on the half
/// prefix, in one instance given `FUEL_BUDGET` fuel.
pub fn work_plan() -> (p: RunPlan)
    ensures
        p.export@ == EXPORT_PREFIX@,
        p.fuel == FUEL_BUDGET,
        p.first == FULL,
        p.second == HALF,
{
    RunPlan { export: EXPORT_PREFIX, fuel: FUEL_BUDGET, first: FULL, second: HALF }
}

/// A store with fuel metering and fuel in it: every run in it ends, by
/// returning or by running out of fuel.
#[verifier::external_body]
#[verifier::reject_recursive_types(T)]
struct Fueled<T: 'static> {
    store: wasmtime::Store<T>,
}

/// A fuelled store and the imports for an instance in it, all defined in
/// that store.
#[verifier::external_body]
#[verifier::reject_recursive_types(T)]
struct Importing<T: 'static> {
    store: wasmtime::Store<T>,
    imports: Vec<wasmtime::Extern>,
}

/// A fuelled store with one instance in it.
#[verifier::external_body]
#[verifier::reject_recursive_types(T)]
struct Session<T: 'static> {
    store: wasmtime::Store<T>,
    instance: wasmtime::Instance,
}

/// A session with its `u32 -> u32` prefix export looked up in its store,
/// and `extra`, further exports looked up in the same store.
#[verifier::external_body]
#[verifier::reject_recursive_types(T)]
#[verifier::reject_recursive_types(X)]
struct Prefixed<T: 'static, X> {
    store: wasmtime::Store<T>,
    instance: wasmtime::Instance,
    run: wasmtime::TypedFunc<u32, u32>,
    extra: X,
}

/// `wasmtime::Config::new`: the default configuration. Nothing is promised
/// of the result.
#[verifier::external_body]
fn new_config() -> (r: wasmtime::Config) {
    wasmtime::Config::new()
}

/// `wasmtime::Config::consume_fuel`: switches fuel metering on or off.
/// Nothing is promised of the configuration after the call.
#[verifier::external_body]
fn set_consume_fuel(config: &mut wasmtime::Config, enable: bool) {
    config.consume_fuel(enable);
}

/// `wasmtime::Engine::new`: an engine for a configuration. Nothing is
/// promised of the result.
#[verifier::external_body]
fn new_engine(config: &wasmtime::Config) -> (r: Result<wasmtime::Engine, wasmtime::Error>) {
    wasmtime::Engine::new(config)
}

/// A compiled module and the bytes it was compiled from.
struct Compiled {
    module: wasmtime::Module,
    source: Ghost<Seq<u8>>,
}

/// `wasmtime::Module::from_binary`: compiles a wasm binary. A compiled
/// module is recorded with the bytes it was compiled from; nothing else is
/// promised of the result.
#[verifier::external_body]
fn compile(engine: &wasmtime::Engine, wasm: &[u8]) -> (r: Result<Compiled, wasmtime::Error>)
    ensures
        r is Ok ==> r->Ok_0.source@ == wasm@,
{
    wasmtime::Module::from_binary(engine, wasm).map(|module| Compiled { module, source: Ghost(wasm@) })
}

/// `wasmtime::Store::new`: a store holding `data`. Nothing is promised of
/// the result.
#[verifier::external_body]
fn new_store<T: 'static>(engine: &wasmtime::Engine, data: T) -> (r: wasmtime::Store<T>) {
    wasmtime::Store::new(engine, data)
}

/// `wasmtime::Store::set_fuel`: gives the store `fuel`; an error where the
/// engine does not meter fuel. Nothing is promised of the result.
#[verifier::external_body]
fn fuel_store<T: 'static>(store: wasmtime::Store<T>, fuel: u64) -> (r: Result<Fueled<T>, wasmtime::Error>) {
    let mut store = store;
    store.set_fuel(fuel).map(|_| Fueled { store })
}

/// No imports, for a module that needs none.
#[verifier::external_body]
fn no_imports(f: Fueled<()>) -> (r: Importing<()>) {
    Importing { store: f.store, imports: Vec::new() }
}

/// `wasmtime::Func::wrap`: defines, in the store, the tracking import
/// `(addr, size, rw)`, which records the access in the store's tracker
/// (`rw` is ignored). Nothing is promised of the result.
#[verifier::external_body]
fn define_track(f: Fueled<AccessTracker>) -> (r: Importing<AccessTracker>) {
    let mut store = f.store;
    let track = wasmtime::Func::wrap(
        &mut store,
        |mut c: wasmtime::Caller<'_, AccessTracker>, addr: i32, size: i32, _rw: i32| {
            record_access(c.data_mut(), addr as u32, size as u32);
        },
    );
    Importing { store, imports: vec![track.into()] }
}

/// `wasmtime::Instance::new` with the imports defined in the same store.
/// Nothing is promised of the result.
#[verifier::external_body]
fn instantiate<T: 'static>(i: Importing<T>, module: &Compiled) -> (r: Result<
    Session<T>,
    wasmtime::Error,
>) {
    let mut store = i.store;
    wasmtime::Instance::new(&mut store, &module.module, &i.imports).map(|instance| Session { store, instance })
}

/// `wasmtime::Instance::get_typed_func` for a `u32 -> u32` export, looked up
/// in the session's own store. Nothing is promised of the result.
#[verifier::external_body]
fn export_run<T: 'static>(s: Session<T>, name: &str) -> (r: Result<Prefixed<T, ()>, wasmtime::Error>) {
    let mut store = s.store;
    let instance = s.instance;
    instance.get_typed_func::<u32, u32>(&mut store, name).map(|run| Prefixed { store, instance, run, extra: () })
}

/// `wasmtime::Instance::get_typed_func` for a `() -> u64` export, looked up
/// in the session's own store. Nothing is promised of the result.
#[verifier::external_body]
fn export_counter(p: Prefixed<(), ()>, name: &str) -> (r: Result<
    Prefixed<(), wasmtime::TypedFunc<(), u64>>,
    wasmtime::Error,
>) {
    let Prefixed { mut store, instance, run, .. } = p;
    instance.get_typed_func::<(), u64>(&mut store, name).map(|extra| Prefixed { store, instance, run, extra })
}

/// `wasmtime::Instance::get_typed_func` for a `() -> u32` export, looked up
/// in the session's own store. Nothing is promised of the result.
#[verifier::external_body]
fn export_pages(p: Prefixed<(), wasmtime::TypedFunc<(), u64>>, name: &str) -> (r: Result<
    Prefixed<(), (wasmtime::TypedFunc<(), u64>, wasmtime::TypedFunc<(), u32>)>,
    wasmtime::Error,
>) {
    let Prefixed { mut store, instance, run, extra } = p;
    instance.get_typed_func::<(), u32>(&mut store, name).map(
        |pages| Prefixed { store, instance, run, extra: (extra, pages) },
    )
}

/// `wasmtime::TypedFunc::call` of the prefix export on `arg`, in its own
/// store. Nothing is promised of the result; it is what the wasm code
/// computes, or an error when it traps or runs out of fuel.
#[verifier::external_body]
fn call_run<T: 'static, X>(p: &mut Prefixed<T, X>, arg: u32) -> (r: Result<u32, wasmtime::Error>) {
    p.run.call(&mut p.store, arg)
}

/// `wasmtime::Store::get_fuel`: the fuel left. Nothing is promised of the
/// result.
#[verifier::external_body]
fn fuel_left<X>(p: &Prefixed<(), X>) -> (r: Result<u64, wasmtime::Error>) {
    p.store.get_fuel()
}

/// `wasmtime::TypedFunc::call` of the heap counter, in its own store.
/// Nothing is promised of the result.
#[verifier::external_body]
fn read_heap(
    p: &mut Prefixed<(), (wasmtime::TypedFunc<(), u64>, wasmtime::TypedFunc<(), u32>)>,
) -> (r: Result<u64, wasmtime::Error>) {
    p.extra.0.call(&mut p.store, ())
}

/// `wasmtime::TypedFunc::call` of the page count, in its own store. Nothing
/// is promised of the result.
#[verifier::external_body]
fn read_pages(
    p: &mut Prefixed<(), (wasmtime::TypedFunc<(), u64>, wasmtime::TypedFunc<(), u32>)>,
) -> (r: Result<u32, wasmtime::Error>) {
    p.extra.1.call(&mut p.store, ())
}

/// `wasmtime::Store::into_data`: the tracker the store holds, as the
/// instrumented code's calls left it. Nothing is promised of it.
#[verifier::external_body]
fn into_tracker(p: Prefixed<AccessTracker, ()>) -> (r: AccessTracker) {
    p.store.into_data()
}

/// A metered engine and a store in it with `fuel`.
fn fuelled_store<T: 'static>(engine: &wasmtime::Engine, data: T, fuel: u64) -> (r: Result<Fueled<T>, MeterError>)
    ensures
        r is Err ==> r->Err_0 == MeterError::Fuel,
{
    match fuel_store(new_store(engine, data), fuel) {
        Ok(f) => Ok(f),
        Err(_) => Err(MeterError::Fuel),
    }
}

/// An engine with fuel metering on.
fn metered_engine() -> (r: Result<wasmtime::Engine, MeterError>)
    ensures
        r is Err ==> r->Err_0 == MeterError::Engine,
{
    let mut config = new_config();
    set_consume_fuel(&mut config, true);
    match new_engine(&config) {
        Ok(e) => Ok(e),
        Err(_) => Err(MeterError::Engine),
    }
}

/// Records one memory access reported by instrumented code. A tracker that
/// is not well formed, or whose counters could overflow, is left as it is
/// and `false` returned.
pub fn record_access(t: &mut AccessTracker, addr: u32, size: u32) -> (counted: bool)
    ensures
        counted == (old(t).wf() && old(t).clock < u64::MAX - 0x400_0001 && old(t).accesses
            < u64::MAX),
        counted ==> final(t).wf() && final(t).accesses == old(t).accesses + 1 && final(t).meter()
            == touch_lines(
            old(t).meter(),
            AccessTracker::first_line(addr),
            AccessTracker::last_line(addr, size),
        ),
        !counted ==> *final(t) == *old(t),
{
    if t.is_valid() && t.clock < u64::MAX - 0x400_0001 && t.accesses < u64::MAX {
        t.access(addr, size);
        true
    } else {
        false
    }
}

/// Runs the plan of `work_plan` under fuel metering: the module's prefix
/// export on the full prefix, then on the half prefix, in one instance, and
/// returns the fuel each used and their difference, WORK. Engine,
/// compilation, fuel, instantiation, export or call failures are reported as
/// such; inconsistent fuel readings as `Readings`.
pub fn measure_work(wasm: &[u8]) -> (r: Result<FuelRun, MeterError>)
    ensures
        r is Ok ==> r->Ok_0.work + r->Ok_0.fuel_half == r->Ok_0.fuel_full,
        r is Err ==> r->Err_0 != MeterError::HeapReadings && r->Err_0 != MeterError::Tracker,
{
    let plan = work_plan();
    let engine = metered_engine()?;
    let module = match compile(&engine, wasm) {
        Ok(m) => m,
        Err(_) => return Err(MeterError::Compile),
    };
    let fueled = fuelled_store(&engine, (), plan.fuel)?;
    let session = match instantiate(no_imports(fueled), &module) {
        Ok(s) => s,
        Err(_) => return Err(MeterError::Instantiate),
    };
    let mut p = match export_run(session, plan.export) {
        Ok(p) => p,
        Err(_) => return Err(MeterError::Export),
    };
    let before = match fuel_left(&p) {
        Ok(v) => v,
        Err(_) => return Err(MeterError::Fuel),
    };
    let out_full = match call_run(&mut p, plan.first) {
        Ok(v) => v,
        Err(_) => return Err(MeterError::Call),
    };
    let after_full = match fuel_left(&p) {
        Ok(v) => v,
        Err(_) => return Err(MeterError::Fuel),
    };
    let out_half = match call_run(&mut p, plan.second) {
        Ok(v) => v,
        Err(_) => return Err(MeterError::Call),
    };
    let after_half = match fuel_left(&p) {
        Ok(v) => v,
        Err(_) => return Err(MeterError::Fuel),
    };
    match fuel_run(out_full, out_half, before, after_full, after_half) {
        Some(run) => Ok(run),
        None => Err(MeterError::Readings),
    }
}

/// The host meter's readings: WORK, the heap diagnostic and the peak size
/// of linear memory after the full run, in 64 KiB pages.
#[derive(Clone, Copy, Debug, PartialEq, Eq, Structural)]
pub struct HostRun {
    pub fuel: FuelRun,
    pub heap: HeapRun,
    pub peak_pages: u32,
}

/// Runs the plan of `work_plan` under fuel metering, reading the module's
/// heap counter (`cm_heap_bytes`) before and after each run and its memory
/// size (`cm_mem_pages`) after the full run. A heap counter that went down
/// is reported as `HeapReadings`, inconsistent fuel readings as `Readings`.
pub fn measure_host(wasm: &[u8]) -> (r: Result<HostRun, MeterError>)
    ensures
        r is Ok ==> r->Ok_0.fuel.work + r->Ok_0.fuel.fuel_half == r->Ok_0.fuel.fuel_full,
        r is Ok ==> r->Ok_0.heap.heap_work == if r->Ok_0.heap.heap_full >= r->Ok_0.heap.heap_half {
            r->Ok_0.heap.heap_full - r->Ok_0.heap.heap_half
        } else {
            0
        },
        r is Err ==> r->Err_0 != MeterError::Tracker,
{
    let plan = work_plan();
    let engine = metered_engine()?;
    let module = match compile(&engine, wasm) {
        Ok(m) => m,
        Err(_) => return Err(MeterError::Compile),
    };
    let fueled = fuelled_store(&engine, (), plan.fuel)?;
    let session = match instantiate(no_imports(fueled), &module) {
        Ok(s) => s,
        Err(_) => return Err(MeterError::Instantiate),
    };
    let p = match export_run(session, plan.export) {
        Ok(p) => p,
        Err(_) => return Err(MeterError::Export),
    };
    let c = match export_counter(p, EXPORT_HEAP) {
        Ok(c) => c,
        Err(_) => return Err(MeterError::Export),
    };
    let mut h = match export_pages(c, EXPORT_PAGES) {
        Ok(h) => h,
        Err(_) => return Err(MeterError::Export),
    };
    let f0 = match fuel_left(&h) {
        Ok(v) => v,
        Err(_) => return Err(MeterError::Fuel),
    };
    let h0 = match read_heap(&mut h) {
        Ok(v) => v,
        Err(_) => return Err(MeterError::Call),
    };
    let out_full = match call_run(&mut h, plan.first) {
        Ok(v) => v,
        Err(_) => return Err(MeterError::Call),
    };
    let f1 = match fuel_left(&h) {
        Ok(v) => v,
        Err(_) => return Err(MeterError::Fuel),
    };
    let h1 = match read_heap(&mut h) {
        Ok(v) => v,
        Err(_) => return Err(MeterError::Call),
    };
    let peak_pages = match read_pages(&mut h) {
        Ok(v) => v,
        Err(_) => return Err(MeterError::Call),
    };
    let out_half = match call_run(&mut h, plan.second) {
        Ok(v) => v,
        Err(_) => return Err(MeterError::Call),
    };
    let f2 = match fuel_left(&h) {
        Ok(v) => v,
        Err(_) => return Err(MeterError::Fuel),
    };
    let h2 = match read_heap(&mut h) {
        Ok(v) => v,
        Err(_) => return Err(MeterError::Call),
    };
    let fuel = match fuel_run(out_full, out_half, f0, f1, f2) {
        Some(run) => run,
        None => return Err(MeterError::Readings),
    };
    let heap = match heap_run(h0, h1, h2) {
        Some(run) => run,
        None => return Err(MeterError::HeapReadings),
    };
    Ok(HostRun { fuel, heap, peak_pages })
}

/// The memory-cost meter: a fuel-metered engine and the instrumented module.
/// Each measurement runs in a fresh store whose only import, the tracking
/// function, records each reported access in the store's cache model.
pub struct MemMeter {
    engine: wasmtime::Engine,
    module: Compiled,
}

impl MemMeter {
    /// The bytes of the module the meter runs.
    pub closed spec fn source(&self) -> Seq<u8> {
        self.module.source@
    }

    /// Compiles an instrumented module on a fuel-metered engine. Only the
    /// engine or the compilation can fail; a meter holds the module compiled
    /// from exactly the given bytes.
    pub fn new(instrumented: &[u8]) -> (r: Result<MemMeter, MeterError>)
        ensures
            r is Ok ==> r->Ok_0.source() == instrumented@,
            r is Err ==> r->Err_0 == MeterError::Engine || r->Err_0 == MeterError::Compile,
    {
        let engine = metered_engine()?;
        let module = match compile(&engine, instrumented) {
            Ok(m) => m,
            Err(_) => return Err(MeterError::Compile),
        };
        Ok(MemMeter { engine, module })
    }

    /// Runs the tracking export on a prefix in a fresh store holding a fresh
    /// cache model (`AccessTracker::new`, empty caches and zero counters)
    /// and `FUEL_BUDGET` fuel, and returns the model as the run left it,
    /// which is well formed (a model that came back otherwise is reported as
    /// `Tracker`). Only the fuel, the instantiation, the export, the call or
    /// that check can fail.
    pub fn measure(&self, prefix: u32) -> (r: Result<AccessTracker, MeterError>)
        ensures
            r is Ok ==> r->Ok_0.wf(),
            r is Err ==> r->Err_0 == MeterError::Fuel || r->Err_0 == MeterError::Instantiate
                || r->Err_0 == MeterError::Export || r->Err_0 == MeterError::Call || r->Err_0
                == MeterError::Tracker,
    {
        let fresh = AccessTracker::new();
        let fueled = fuelled_store(&self.engine, fresh, FUEL_BUDGET)?;
        let session = match instantiate(define_track(fueled), &self.module) {
            Ok(s) => s,
            Err(_) => return Err(MeterError::Instantiate),
        };
        let mut p = match export_run(session, EXPORT_HE) {
            Ok(p) => p,
            Err(_) => return Err(MeterError::Export),
        };
        if call_run(&mut p, prefix).is_err() {
            return Err(MeterError::Call);
        }
        let t = into_tracker(p);
        if t.is_valid() {
            Ok(t)
        } else {
            Err(MeterError::Tracker)
        }
    }
}

} // verus!
