use vstd::prelude::*;

verus! {

/// Value types of wasm locals and stored values.
#[derive(Clone, Copy, Debug, PartialEq, Eq, Structural)]
pub enum ValKind {
    I32,
    I64,
    F32,
    F64,
    V128,
}

/// Kinds of wasm memory loads (narrow loads by their width).
#[allow(non_camel_case_types)]
#[derive(Clone, Copy, Debug, PartialEq, Eq, Structural)]
pub enum LoadKind {
    I32,
    I64,
    F32,
    F64,
    V128,
    I32_8,
    I32_16,
    I64_8,
    I64_16,
    I64_32,
}

/// Kinds of wasm memory stores (narrow stores by their width).
#[allow(non_camel_case_types)]
#[derive(Clone, Copy, Debug, PartialEq, Eq, Structural)]
pub enum StoreKind {
    I32,
    I64,
    F32,
    F64,
    V128,
    I32_8,
    I32_16,
    I64_8,
    I64_16,
    I64_32,
}

/// An instruction of a block as the instrumentation sees it.
#[derive(Clone, Copy, Debug, PartialEq, Eq, Structural)]
pub enum Op {
    Load { load: LoadKind, offset: u32 },
    Store { store: StoreKind, offset: u32 },
    Other,
}

/// An instruction of the instrumented block: a new one, or the block's
/// instruction at a position.
#[derive(Clone, Copy, Debug, PartialEq, Eq, Structural)]
pub enum Emit {
    LocalTee(u32),
    LocalGet(u32),
    LocalSet(u32),
    ConstI32(i32),
    I32Add,
    Call(u32),
    Existing(usize),
}

/// The tracking import and the scratch locals the instrumentation uses:
/// the address, and one value local per type.
#[derive(Clone, Copy, Debug, PartialEq, Eq, Structural)]
pub struct Tmp {
    pub track: u32,
    pub addr: u32,
    pub vi32: u32,
    pub vi64: u32,
    pub vf32: u32,
    pub vf64: u32,
}

/// Bytes read by a load.
pub open spec fn spec_load_size(k: LoadKind) -> u32 {
    match k {
        LoadKind::I32 => 4,
        LoadKind::I64 => 8,
        LoadKind::F32 => 4,
        LoadKind::F64 => 8,
        LoadKind::V128 => 16,
        LoadKind::I32_8 | LoadKind::I64_8 => 1,
        LoadKind::I32_16 | LoadKind::I64_16 => 2,
        LoadKind::I64_32 => 4,
    }
}

/// Bytes written by a store and the type of the stored value.
pub open spec fn spec_store_info(k: StoreKind) -> (u32, ValKind) {
    match k {
        StoreKind::I32 => (4, ValKind::I32),
        StoreKind::I64 => (8, ValKind::I64),
        StoreKind::F32 => (4, ValKind::F32),
        StoreKind::F64 => (8, ValKind::F64),
        StoreKind::V128 => (16, ValKind::V128),
        StoreKind::I32_8 => (1, ValKind::I32),
        StoreKind::I32_16 => (2, ValKind::I32),
        StoreKind::I64_8 => (1, ValKind::I64),
        StoreKind::I64_16 => (2, ValKind::I64),
        StoreKind::I64_32 => (4, ValKind::I64),
    }
}

/// Bytes read by a load.
pub fn load_size(k: LoadKind) -> (r: u32)
    ensures
        r == spec_load_size(k),
{
    match k {
        LoadKind::I32 => 4,
        LoadKind::I64 => 8,
        LoadKind::F32 => 4,
        LoadKind::F64 => 8,
        LoadKind::V128 => 16,
        LoadKind::I32_8 | LoadKind::I64_8 => 1,
        LoadKind::I32_16 | LoadKind::I64_16 => 2,
        LoadKind::I64_32 => 4,
    }
}

/// Bytes written by a store and the type of the stored value.
pub fn store_info(k: StoreKind) -> (r: (u32, ValKind))
    ensures
        r == spec_store_info(k),
{
    match k {
        StoreKind::I32 => (4, ValKind::I32),
        StoreKind::I64 => (8, ValKind::I64),
        StoreKind::F32 => (4, ValKind::F32),
        StoreKind::F64 => (8, ValKind::F64),
        StoreKind::V128 => (16, ValKind::V128),
        StoreKind::I32_8 => (1, ValKind::I32),
        StoreKind::I32_16 => (2, ValKind::I32),
        StoreKind::I64_8 => (1, ValKind::I64),
        StoreKind::I64_16 => (2, ValKind::I64),
        StoreKind::I64_32 => (4, ValKind::I64),
    }
}

impl Tmp {
    /// The scratch local that holds a stored value of type `t` (vectors
    /// share the 32-bit one).
    pub open spec fn spec_val_local(&self, t: ValKind) -> u32 {
        match t {
            ValKind::I64 => self.vi64,
            ValKind::F32 => self.vf32,
            ValKind::F64 => self.vf64,
            _ => self.vi32,
        }
    }

    pub fn val_local(&self, t: ValKind) -> (r: u32)
        ensures
            r == self.spec_val_local(t),
    {
        match t {
            ValKind::I64 => self.vi64,
            ValKind::F32 => self.vf32,
            ValKind::F64 => self.vf64,
            _ => self.vi32,
        }
    }
}

/// The instructions that replace instruction `i` of a block: a load is
/// preceded by a call `track(addr + offset, size, 0)` that keeps the address
/// on the stack; a store first parks its value, then calls
/// `track(addr + offset, size, 1)` and restores the value; anything else is
/// kept as it is.
pub open spec fn emitted(op: Op, i: int, t: Tmp) -> Seq<Emit> {
    match op {
        Op::Load { load, offset } => seq![
            Emit::LocalTee(t.addr),
            Emit::LocalGet(t.addr),
            Emit::ConstI32(offset as i32),
            Emit::I32Add,
            Emit::ConstI32(spec_load_size(load) as i32),
            Emit::ConstI32(0),
            Emit::Call(t.track),
            Emit::Existing(i as usize),
        ],
        Op::Store { store, offset } => {
            let vl = t.spec_val_local(spec_store_info(store).1);
            seq![
                Emit::LocalSet(vl),
                Emit::LocalTee(t.addr),
                Emit::LocalGet(t.addr),
                Emit::ConstI32(offset as i32),
                Emit::I32Add,
                Emit::ConstI32(spec_store_info(store).0 as i32),
                Emit::ConstI32(1),
                Emit::Call(t.track),
                Emit::LocalGet(vl),
                Emit::Existing(i as usize),
            ]
        },
        Op::Other => seq![Emit::Existing(i as usize)],
    }
}

/// The instrumented form of a block's first `n` instructions.
pub open spec fn instrumented(ops: Seq<Op>, n: int, t: Tmp) -> Seq<Emit>
    decreases n,
{
    if n <= 0 {
        Seq::empty()
    } else {
        instrumented(ops, n - 1, t) + emitted(ops[n - 1], n - 1, t)
    }
}

/// Instruments one block: every memory access reports its address, width
/// and direction to the tracking import before it runs.
pub fn instrument_seq(ops: &Vec<Op>, t: &Tmp) -> (r: Vec<Emit>)
    ensures
        r@ == instrumented(ops@, ops@.len() as int, *t),
{
    let mut out: Vec<Emit> = Vec::new();
    let mut i: usize = 0;
    while i < ops.len()
        invariant
            i <= ops@.len(),
            out@ == instrumented(ops@, i as int, *t),
        decreases ops@.len() - i,
    {
        let ghost before = out@;
        match ops[i] {
            Op::Load { load, offset } => {
                let sz = load_size(load) as i32;
                let off = offset as i32;
                out.push(Emit::LocalTee(t.addr));
                out.push(Emit::LocalGet(t.addr));
                out.push(Emit::ConstI32(off));
                out.push(Emit::I32Add);
                out.push(Emit::ConstI32(sz));
                out.push(Emit::ConstI32(0));
                out.push(Emit::Call(t.track));
                out.push(Emit::Existing(i));
            },
            Op::Store { store, offset } => {
                let (sz, vt) = store_info(store);
                let off = offset as i32;
                let vl = t.val_local(vt);
                out.push(Emit::LocalSet(vl));
                out.push(Emit::LocalTee(t.addr));
                out.push(Emit::LocalGet(t.addr));
                out.push(Emit::ConstI32(off));
                out.push(Emit::I32Add);
                out.push(Emit::ConstI32(sz as i32));
                out.push(Emit::ConstI32(1));
                out.push(Emit::Call(t.track));
                out.push(Emit::LocalGet(vl));
                out.push(Emit::Existing(i));
            },
            Op::Other => {
                out.push(Emit::Existing(i));
            },
        }
        assert(out@ =~= before + emitted(ops@[i as int], i as int, *t));
        i += 1;
    }
    out
}

} // verus!
