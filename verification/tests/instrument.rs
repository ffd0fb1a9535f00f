use cm::instrument::{instrument_seq, load_size, store_info, Emit, LoadKind, Op, StoreKind, Tmp, ValKind};

fn tmp() -> Tmp {
    Tmp { track: 7, addr: 1, vi32: 2, vi64: 3, vf32: 4, vf64: 5 }
}

#[test]
fn access_widths() {
    assert_eq!(load_size(LoadKind::V128), 16);
    assert_eq!(load_size(LoadKind::I64_16), 2);
    assert_eq!(load_size(LoadKind::I64_32), 4);
    assert_eq!(store_info(StoreKind::I64_8), (1, ValKind::I64));
    assert_eq!(store_info(StoreKind::F64), (8, ValKind::F64));
    assert_eq!(store_info(StoreKind::V128), (16, ValKind::V128));
}

#[test]
fn value_locals_by_type() {
    let t = tmp();
    assert_eq!(t.val_local(ValKind::I64), 3);
    assert_eq!(t.val_local(ValKind::F32), 4);
    assert_eq!(t.val_local(ValKind::F64), 5);
    assert_eq!(t.val_local(ValKind::V128), 2);
    assert_eq!(t.val_local(ValKind::I32), 2);
}

#[test]
fn loads_and_stores_report_before_they_run() {
    let ops = vec![
        Op::Load { load: LoadKind::I32, offset: 8 },
        Op::Other,
        Op::Store { store: StoreKind::I64_8, offset: 4 },
    ];
    let out = instrument_seq(&ops, &tmp());
    let expect = vec![
        Emit::LocalTee(1),
        Emit::LocalGet(1),
        Emit::ConstI32(8),
        Emit::I32Add,
        Emit::ConstI32(4),
        Emit::ConstI32(0),
        Emit::Call(7),
        Emit::Existing(0),
        Emit::Existing(1),
        Emit::LocalSet(3),
        Emit::LocalTee(1),
        Emit::LocalGet(1),
        Emit::ConstI32(4),
        Emit::I32Add,
        Emit::ConstI32(1),
        Emit::ConstI32(1),
        Emit::Call(7),
        Emit::LocalGet(3),
        Emit::Existing(2),
    ];
    assert_eq!(out, expect);
}

#[test]
fn large_offsets_wrap_to_i32() {
    let ops = vec![Op::Load { load: LoadKind::I32_8, offset: 0x8000_0000 }];
    let out = instrument_seq(&ops, &tmp());
    assert_eq!(out[2], Emit::ConstI32(i32::MIN));
    assert_eq!(out[4], Emit::ConstI32(1));
    assert!(instrument_seq(&Vec::<Op>::new(), &tmp()).is_empty());
}
