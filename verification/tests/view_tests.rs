use wasm_decompile::disasm::view::WasmViewArgs;

const MODULE: [u8; 122] = [
    0x00, 0x61, 0x73, 0x6d, 0x01, 0x00, 0x00, 0x00, 0x01, 0x0a, 0x02, 0x60, 0x02, 0x7f, 0x7f, 0x01, 0x7f, 0x60,
    0x00, 0x00, 0x02, 0x12, 0x02, 0x03, 0x65, 0x6e, 0x76, 0x01, 0x66, 0x00, 0x01, 0x03, 0x65, 0x6e, 0x76, 0x01,
    0x67, 0x03, 0x7f, 0x01, 0x03, 0x03, 0x02, 0x00, 0x01, 0x05, 0x04, 0x01, 0x01, 0x01, 0x02, 0x06, 0x06, 0x01,
    0x7e, 0x00, 0x42, 0x05, 0x0b, 0x07, 0x0e, 0x02, 0x03, 0x61, 0x64, 0x64, 0x00, 0x01, 0x04, 0x67, 0x6c, 0x6f,
    0x62, 0x03, 0x01, 0x08, 0x01, 0x02, 0x0a, 0x0e, 0x02, 0x09, 0x01, 0x02, 0x7f, 0x20, 0x00, 0x20, 0x01, 0x6a,
    0x0b, 0x02, 0x00, 0x0b, 0x0b, 0x08, 0x01, 0x00, 0x41, 0x10, 0x0b, 0x02, 0x68, 0x69, 0x00, 0x10, 0x04, 0x6e,
    0x61, 0x6d, 0x65, 0x01, 0x09, 0x01, 0x02, 0x06, 0x73, 0x65, 0x63, 0x6f, 0x6e, 0x64,
];

#[test]
fn view_entry_point_is_the_start_function() {
    let v = WasmViewArgs::parse(MODULE.to_vec()).unwrap();
    assert_eq!(v.entry_point(), 93);
    assert_eq!(v.len(), 122);
}

#[test]
fn view_without_start_enters_at_first_code() {
    let mut bytes = vec![0x00, 0x61, 0x73, 0x6d, 0x01, 0x00, 0x00, 0x00];
    bytes.extend_from_slice(&[0x03, 0x02, 0x01, 0x05, 0x0a, 0x04, 0x01, 0x02, 0x00, 0x0b]);
    let v = WasmViewArgs::parse(bytes).unwrap();
    assert_eq!(v.entry_point(), 17);
    let empty = WasmViewArgs::parse(vec![0x00, 0x61, 0x73, 0x6d, 0x01, 0x00, 0x00, 0x00]).unwrap();
    assert_eq!(empty.entry_point(), 0);
}

#[test]
fn view_knows_where_code_lies() {
    let v = WasmViewArgs::parse(MODULE.to_vec()).unwrap();
    assert!(v.offset_executable(80));
    assert!(v.offset_executable(93));
    assert!(!v.offset_executable(94));
    assert!(!v.offset_executable(10));
    assert!(v.offset_valid(121));
    assert!(!v.offset_valid(122));
    assert_eq!(v.next_valid_offset_after(5), 6);
    assert_eq!(v.next_valid_offset_after(122), 122);
}

#[test]
fn view_reads_what_remains() {
    let v = WasmViewArgs::parse(MODULE.to_vec()).unwrap();
    let mut buf = [9u8; 6];
    assert_eq!(v.read(&mut buf, 0), 6);
    assert_eq!(buf, [0x00, 0x61, 0x73, 0x6d, 0x01, 0x00]);
    let mut buf = [9u8; 6];
    assert_eq!(v.read(&mut buf, 119), 3);
    assert_eq!(buf, [0x6f, 0x6e, 0x64, 9, 9, 9]);
    assert_eq!(v.read(&mut buf, 500), 0);
}

#[test]
fn view_of_bad_bytes_fails() {
    assert!(WasmViewArgs::parse(vec![1, 2, 3]).is_err());
}
