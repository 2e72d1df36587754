use wasm_decompile::disasm::reader::PayloadInfo;
use wasm_decompile::disasm::module::{ExportKind, GlobalValType, WasmModule, WasmSection};
use wasm_decompile::disasm::parse::ParseError;

const MODULE: [u8; 122] = [
    0x00, 0x61, 0x73, 0x6d, 0x01, 0x00, 0x00, 0x00, 0x01, 0x0a, 0x02, 0x60, 0x02, 0x7f, 0x7f, 0x01, 0x7f, 0x60,
    0x00, 0x00, 0x02, 0x12, 0x02, 0x03, 0x65, 0x6e, 0x76, 0x01, 0x66, 0x00, 0x01, 0x03, 0x65, 0x6e, 0x76, 0x01,
    0x67, 0x03, 0x7f, 0x01, 0x03, 0x03, 0x02, 0x00, 0x01, 0x05, 0x04, 0x01, 0x01, 0x01, 0x02, 0x06, 0x06, 0x01,
    0x7e, 0x00, 0x42, 0x05, 0x0b, 0x07, 0x0e, 0x02, 0x03, 0x61, 0x64, 0x64, 0x00, 0x01, 0x04, 0x67, 0x6c, 0x6f,
    0x62, 0x03, 0x01, 0x08, 0x01, 0x02, 0x0a, 0x0e, 0x02, 0x09, 0x01, 0x02, 0x7f, 0x20, 0x00, 0x20, 0x01, 0x6a,
    0x0b, 0x02, 0x00, 0x0b, 0x0b, 0x08, 0x01, 0x00, 0x41, 0x10, 0x0b, 0x02, 0x68, 0x69, 0x00, 0x10, 0x04, 0x6e,
    0x61, 0x6d, 0x65, 0x01, 0x09, 0x01, 0x02, 0x06, 0x73, 0x65, 0x63, 0x6f, 0x6e, 0x64,
];

#[test]
fn parses_functions_with_imports_names_and_exports() {
    let m = WasmModule::parse(&MODULE).unwrap();
    assert_eq!(m.version, 1);
    assert_eq!(m.functions.len(), 3);
    let f0 = &m.functions[0];
    assert_eq!((f0.index, f0.code_offset, f0.code_size, f0.param_count, f0.return_count), (0, 0, 0, 0, 0));
    assert_eq!(f0.name.as_deref(), Some("env_f"));
    let f1 = &m.functions[1];
    assert_eq!((f1.index, f1.code_offset, f1.code_size, f1.param_count, f1.return_count), (1, 85, 6, 2, 1));
    assert_eq!(f1.name.as_deref(), Some("add"));
    let f2 = &m.functions[2];
    assert_eq!((f2.index, f2.code_offset, f2.code_size, f2.param_count, f2.return_count), (2, 93, 1, 0, 0));
    assert_eq!(f2.name.as_deref(), Some("second"));
    assert_eq!(m.start_function, Some(2));
}

#[test]
fn parses_globals_memory_and_data() {
    let m = WasmModule::parse(&MODULE).unwrap();
    assert_eq!(m.globals.len(), 2);
    let g0 = &m.globals[0];
    assert_eq!((g0.index, g0.val_type, g0.mutable), (0, GlobalValType::I32, true));
    assert_eq!(g0.name.as_deref(), Some("env_g"));
    let g1 = &m.globals[1];
    assert_eq!((g1.index, g1.val_type, g1.mutable), (1, GlobalValType::I64, false));
    assert_eq!(g1.name.as_deref(), Some("glob"));
    let mem = m.memory.unwrap();
    assert_eq!((mem.initial_pages, mem.max_pages), (1, Some(2)));
    assert_eq!(m.data_segments.len(), 1);
    assert_eq!(m.data_segments[0].memory_offset, 16);
    assert_eq!(m.data_segments[0].data, b"hi".to_vec());
    assert_eq!(m._exports.len(), 2);
    assert_eq!((m._exports[0].name.as_str(), m._exports[0].kind, m._exports[0].index), ("add", ExportKind::Func, 1));
    assert_eq!((m._exports[1].name.as_str(), m._exports[1].kind, m._exports[1].index), ("glob", ExportKind::Global, 1));
}

#[test]
fn records_section_places() {
    let m = WasmModule::parse(&MODULE).unwrap();
    assert_eq!(m.sections.len(), 3);
    assert!(matches!(m.sections[0], WasmSection::Code { offset: 80, size: 14 }));
    assert!(matches!(m.sections[1], WasmSection::Data { offset: 96, size: 8 }));
    match &m.sections[2] {
        WasmSection::Other { name, offset, size } => assert_eq!((name.as_str(), *offset, *size), ("name", 111, 11)),
        other => panic!("unexpected section {:?}", other),
    }
}

#[test]
fn empty_module_has_nothing() {
    let m = WasmModule::parse(&[0x00, 0x61, 0x73, 0x6d, 0x01, 0x00, 0x00, 0x00]).unwrap();
    assert_eq!(m.version, 1);
    assert!(m.functions.is_empty());
    assert!(m.sections.is_empty());
    assert!(m.memory.is_none());
    assert_eq!(m.start_function, None);
}

#[test]
fn truncated_module_fails_in_payload() {
    assert_eq!(WasmModule::parse(&MODULE[..60]).unwrap_err(), ParseError::Payload);
    assert_eq!(WasmModule::parse(&[0x00, 0x61, 0x73]).unwrap_err(), ParseError::Payload);
}

#[test]
fn bad_import_fails_in_import() {
    // an import section whose single import names a type reference of an unknown kind
    let mut bytes = vec![0x00, 0x61, 0x73, 0x6d, 0x01, 0x00, 0x00, 0x00];
    bytes.extend_from_slice(&[0x02, 0x08, 0x01, 0x01, 0x6d, 0x01, 0x6e, 0x09, 0x00, 0x00]);
    assert_eq!(WasmModule::parse(&bytes).unwrap_err(), ParseError::Import);
}

#[test]
fn function_with_unknown_type_has_no_counts() {
    // a function whose type index names no type
    let mut bytes = vec![0x00, 0x61, 0x73, 0x6d, 0x01, 0x00, 0x00, 0x00];
    bytes.extend_from_slice(&[0x03, 0x02, 0x01, 0x05, 0x0a, 0x04, 0x01, 0x02, 0x00, 0x0b]);
    let m = WasmModule::parse(&bytes).unwrap();
    assert_eq!(m.functions.len(), 1);
    let f = &m.functions[0];
    assert_eq!((f.index, f.param_count, f.return_count), (0, 0, 0));
    assert_eq!((f.code_offset, f.code_size), (17, 1));
}

#[test]
fn code_without_function_section_fails() {
    let mut bytes = vec![0x00, 0x61, 0x73, 0x6d, 0x01, 0x00, 0x00, 0x00];
    bytes.extend_from_slice(&[0x0a, 0x04, 0x01, 0x02, 0x00, 0x0b]);
    assert_eq!(WasmModule::parse(&bytes).unwrap_err(), ParseError::Payload);
}

#[test]
fn payloads_make_the_module() {
    // a function section from byte 0 to 3: two functions, of types 4 and 7,
    // and a body from byte 3 to 5 with no locals
    let data = [0x02, 0x04, 0x07, 0x00, 0x0b];
    let infos = vec![
        PayloadInfo::Version(1, false),
        PayloadInfo::Section(3, 0, 3),
        PayloadInfo::Start(0),
        PayloadInfo::CodeEntry(3, 5),
    ];
    let m = WasmModule::from_payloads(&data, &infos).unwrap();
    assert_eq!(m.start_function, Some(0));
    assert_eq!(m.functions.len(), 1);
    assert_eq!((m.functions[0].code_offset, m.functions[0].code_size), (4, 1));
    let bad = vec![PayloadInfo::Version(1, false), PayloadInfo::Section(3, 0, 2)];
    assert_eq!(WasmModule::from_payloads(&data, &bad).unwrap_err(), ParseError::FunctionTypeIndex);
}

#[test]
fn payloads_outside_a_module_are_passed_over() {
    let data = [0x02, 0x04, 0x07];
    // a section before any header, and one inside a component, are not read
    let infos = vec![
        PayloadInfo::Section(3, 0, 2),
        PayloadInfo::Version(13, true),
        PayloadInfo::Section(3, 0, 2),
        PayloadInfo::End,
    ];
    let m = WasmModule::from_payloads(&data, &infos).unwrap();
    assert!(m.functions.is_empty());
}
