use luwen::axi::{axi_translate, ArcIf, Axi, AxiData, AxiError, MemorySlice, MemorySlices};
use luwen::field::{check_field_buffer, extract_field, insert_field};

fn slice(name: &str, offset: u64, size: u64, count: Option<u64>, bits: Option<(u32, u32)>, children: Vec<(String, MemorySlice)>) -> (String, MemorySlice) {
    (
        name.to_string(),
        MemorySlice {
            name: name.to_string(),
            offset,
            size,
            array_count: count,
            bit_mask: bits,
            children,
        },
    )
}

fn table() -> MemorySlices {
    MemorySlices::Tree(vec![slice(
        "ARC_RESET",
        0x1ff3_0000,
        0x1000,
        None,
        None,
        vec![
            slice("SCRATCH", 0x60, 4, Some(8), None, vec![]),
            slice("POST_CODE", 0x100, 4, None, None, vec![]),
            slice("FLAG", 0x200, 4, None, Some((3, 5)), vec![]),
        ],
    )])
}

fn addr_of(r: Result<AxiData, AxiError>) -> u64 {
    r.unwrap().addr
}

#[test]
fn tree_paths_are_translated() {
    let t = table();
    assert_eq!(addr_of(axi_translate(Some(&t), "ARC_RESET.POST_CODE")), 0x1ff3_0100);
    assert_eq!(addr_of(axi_translate(Some(&t), "ARC_RESET.SCRATCH[5]")), 0x1ff3_0060 + 20);
    let f = axi_translate(Some(&t), "ARC_RESET.FLAG").unwrap();
    assert_eq!((f.addr, f.size, f.bits), (0x1ff3_0200, 4, Some((3, 5))));
}

#[test]
fn bad_paths_are_reported() {
    let t = table();
    match axi_translate(Some(&t), "ARC_RESET.NOPE") {
        Err(AxiError::InvalidPath { key, path }) => {
            assert_eq!(key, "NOPE");
            assert_eq!(path, "ARC_RESET.NOPE");
        }
        other => panic!("unexpected {other:?}"),
    }
    match axi_translate(Some(&t), "ARC_RESET.SCRATCH[x]") {
        Err(AxiError::InvalidArrayPath { key, .. }) => assert_eq!(key, "SCRATCH"),
        other => panic!("unexpected {other:?}"),
    }
    assert!(matches!(axi_translate(None, "ARC_RESET.POST_CODE"), Err(AxiError::NoAxiData)));
}

#[test]
fn flat_tables_hold_whole_paths() {
    let t = MemorySlices::Flat(vec![(
        "arc_ss.reset_unit.SCRATCH_0".to_string(),
        AxiData { addr: 0x8003_0400, size: 4, bits: None },
    )]);
    assert_eq!(addr_of(axi_translate(Some(&t), "arc_ss.reset_unit.SCRATCH_0")), 0x8003_0400);
    assert!(matches!(
        axi_translate(Some(&t), "arc_ss.reset_unit.SCRATCH_1"),
        Err(AxiError::InvalidPath { .. })
    ));
}

#[test]
fn arc_if_and_axi_tables() {
    let arc = ArcIf { axi_data: table() };
    assert_eq!(addr_of(arc.axi_translate("ARC_RESET.SCRATCH[0]")), 0x1ff3_0060);
    let empty = Axi::empty();
    assert!(matches!(empty.lookup("ARC_RESET.POST_CODE"), Err(AxiError::InvalidPath { .. })));
}

#[test]
fn fields_are_extracted_and_inserted() {
    let d = AxiData { addr: 0, size: 4, bits: Some((3, 5)) };
    assert!(check_field_buffer(4, &d).is_ok());
    assert!(matches!(check_field_buffer(2, &d), Err(AxiError::ReadBufferTooSmall)));
    let mut raw = [0b0010_1000u8, 0xff, 0, 0];
    let v = extract_field(&mut raw, &d);
    assert_eq!(v[0] & 0b111, 0b101);
    let mut reg = [0xffu8, 0, 0, 0];
    insert_field(&mut reg, &[0b010], &d);
    assert_eq!(reg, [0b1101_0111, 0, 0, 0]);
    let whole = AxiData { addr: 0, size: 2, bits: None };
    let mut raw = [1u8, 2, 3, 4];
    assert_eq!(extract_field(&mut raw, &whole), &[1, 2]);
}

#[test]
fn mailbox_registers_come_from_the_table() {
    let mut t = table();
    if let MemorySlices::Tree(ref mut top) = t {
        top[0].1.children.push(slice("ARC_MISC_CNTL", 0x100 + 0x100, 4, None, None, vec![]));
    }
    let a = luwen::arc_msg::ArcMsgAddr::try_from(Some(&t)).unwrap();
    assert_eq!((a.scratch_base, a.arc_misc_cntl), (0x1ff3_0060, 0x1ff3_0200));
    assert!(luwen::arc_msg::ArcMsgAddr::try_from(Some(&table())).is_err());
}

#[test]
fn older_field_reads_fold_into_one_byte() {
    assert_eq!(luwen::axi::legacy_field_bytes(&[0xb4, 0x03], 2, 9), vec![1]);
    assert_eq!(luwen::axi::legacy_field_bytes(&[0xb4, 0x03], 4, 7), vec![0x0b]);
    assert_eq!(luwen::axi::legacy_field_bytes(&[0xb4, 0x03], 8, 15), vec![0x03]);
}

#[test]
fn tables_with_repeated_names_are_told_apart() {
    let d = luwen::axi::AxiData { addr: 4, size: 4, bits: None };
    let unique = luwen::axi::MemorySlices::Flat(vec![("A".to_string(), d), ("B".to_string(), d)]);
    assert!(unique.has_unique_names());
    let repeated = luwen::axi::MemorySlices::Flat(vec![("A".to_string(), d), ("A".to_string(), d)]);
    assert!(!repeated.has_unique_names());
}

#[test]
fn nested_repeated_names_are_found() {
    assert!(table().has_unique_names());
    let nested = MemorySlices::Tree(vec![slice(
        "ARC_RESET",
        0,
        0x1000,
        None,
        None,
        vec![slice("X", 0, 4, None, None, vec![]), slice("X", 4, 4, None, None, vec![])],
    )]);
    assert!(!nested.has_unique_names());
}
