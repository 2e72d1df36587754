use wasm_decompile::dump::dump_stmt;
use wasm_decompile::passes::control_flow::ControlFlowPass;
use wasm_decompile::passes::mem_resolve::MemResolvePass;
use wasm_decompile::passes::pipeline::{PassKind, Pipeline};
use wasm_decompile::passes::simplify::SimplifyPass;
use wasm_decompile::passes::stackifier::StackifierPass;
use wasm_decompile::passes::unblockify::UnblockifyPass;
use wasm_decompile::passes::type_infer::TypeInferPass;
use wasm_decompile::passes::PassContext;
use wasm_decompile::disasm::reader::PayloadInfo;
use wasm_decompile::ir::{BinOp, ExprKind, ImportKind, ValType};
use wasm_decompile::lift::LiftOp;
use wasm_decompile::load::{lift, lift_payloads, lift_with_ops, LoadError};

const MODULE: [u8; 122] = [
    0x00, 0x61, 0x73, 0x6d, 0x01, 0x00, 0x00, 0x00, 0x01, 0x0a, 0x02, 0x60, 0x02, 0x7f, 0x7f, 0x01, 0x7f, 0x60,
    0x00, 0x00, 0x02, 0x12, 0x02, 0x03, 0x65, 0x6e, 0x76, 0x01, 0x66, 0x00, 0x01, 0x03, 0x65, 0x6e, 0x76, 0x01,
    0x67, 0x03, 0x7f, 0x01, 0x03, 0x03, 0x02, 0x00, 0x01, 0x05, 0x04, 0x01, 0x01, 0x01, 0x02, 0x06, 0x06, 0x01,
    0x7e, 0x00, 0x42, 0x05, 0x0b, 0x07, 0x0e, 0x02, 0x03, 0x61, 0x64, 0x64, 0x00, 0x01, 0x04, 0x67, 0x6c, 0x6f,
    0x62, 0x03, 0x01, 0x08, 0x01, 0x02, 0x0a, 0x0e, 0x02, 0x09, 0x01, 0x02, 0x7f, 0x20, 0x00, 0x20, 0x01, 0x6a,
    0x0b, 0x02, 0x00, 0x0b, 0x0b, 0x08, 0x01, 0x00, 0x41, 0x10, 0x0b, 0x02, 0x68, 0x69, 0x00, 0x10, 0x04, 0x6e,
    0x61, 0x6d, 0x65, 0x01, 0x09, 0x01, 0x02, 0x06, 0x73, 0x65, 0x63, 0x6f, 0x6e, 0x64,
];

fn body_ops() -> Vec<Vec<LiftOp>> {
    vec![
        vec![
            LiftOp::LocalGet(0),
            LiftOp::LocalGet(1),
            LiftOp::Binary { op: BinOp::Add, ty: ValType::I32 },
            LiftOp::End,
        ],
        vec![LiftOp::End],
    ]
}

#[test]
fn lifts_module_functions() {
    let m = lift_with_ops(&MODULE, &body_ops()).unwrap();
    assert_eq!(m.functions.len(), 3);
    let f0 = &m.functions[0];
    assert!(f0.is_import);
    assert_eq!((f0.index, f0.name.as_deref()), (0, Some("env_f")));
    assert!(f0.params.is_empty() && f0.results.is_empty());
    let f1 = &m.functions[1];
    assert!(!f1.is_import);
    assert_eq!((f1.index, f1.name.as_deref()), (1, Some("add")));
    assert_eq!(f1.params, vec![ValType::I32, ValType::I32]);
    assert_eq!(f1.results, vec![ValType::I32]);
    assert_eq!(f1.locals, vec![ValType::I32, ValType::I32]);
    assert_eq!(f1.body.stmts.len(), 1);
    let f2 = &m.functions[2];
    assert_eq!((f2.index, f2.name.as_deref()), (2, Some("second")));
    assert!(f2.locals.is_empty());
}

#[test]
fn lifts_module_tables() {
    let m = lift_with_ops(&MODULE, &body_ops()).unwrap();
    assert_eq!(m.types.len(), 2);
    assert_eq!(m.func_types, vec![1, 0, 1]);
    assert_eq!(m.imports.len(), 2);
    assert_eq!((m.imports[0].module.as_str(), m.imports[0].name.as_str()), ("env", "f"));
    assert_eq!(m.imports[0].kind, ImportKind::Function(1));
    assert_eq!(m.imports[1].kind, ImportKind::Global(ValType::I32));
    assert_eq!(m.globals.len(), 1);
    assert_eq!((m.globals[0].ty, m.globals[0].mutable), (ValType::I64, false));
    assert!(matches!(m.globals[0].init.kind, ExprKind::I64Const(5)));
    assert_eq!(m.exports, vec![(1, "add".to_string())]);
    assert_eq!(m.memory_pages, 1);
    assert_eq!(m.memory.len(), 65536);
    assert_eq!(&m.memory[16..18], b"hi");
    assert_eq!(m.data_segments.len(), 1);
    assert_eq!((m.data_segments[0].offset, m.data_segments[0].data.clone()), (16, b"hi".to_vec()));
}

#[test]
fn operators_must_match_bodies() {
    assert_eq!(lift_with_ops(&MODULE, &vec![]).unwrap_err(), LoadError::BodyCount);
}

#[test]
fn reads_element_segments() {
    let bytes = [
        0x00, 0x61, 0x73, 0x6d, 0x01, 0x00, 0x00, 0x00, 0x09, 0x08, 0x01, 0x00, 0x41, 0x03, 0x0b, 0x02, 0x00, 0x01,
    ];
    let m = lift(&bytes).unwrap();
    assert_eq!(m.elements.len(), 1);
    assert_eq!(m.elements[0].offset, 3);
    assert_eq!(m.elements[0].func_indices, vec![0, 1]);
}

#[test]
fn global_initialized_from_global() {
    // one imported i32 global, and a global initialized by `global.get 0`
    let bytes = [
        0x00, 0x61, 0x73, 0x6d, 0x01, 0x00, 0x00, 0x00, 0x02, 0x08, 0x01, 0x01, 0x6d, 0x01, 0x67, 0x03, 0x7f, 0x00,
        0x06, 0x06, 0x01, 0x7f, 0x01, 0x23, 0x00, 0x0b,
    ];
    let m = lift(&bytes).unwrap();
    assert_eq!(m.globals.len(), 1);
    assert_eq!((m.globals[0].ty, m.globals[0].mutable), (ValType::I32, true));
    assert!(matches!(m.globals[0].init.kind, ExprKind::Global(0)));
    assert_eq!(m.imports[0].kind, ImportKind::Global(ValType::I32));
}

#[test]
fn function_without_type_fails_to_lift() {
    // a code entry whose function names type 5, of which there is none
    let bytes = [
        0x00, 0x61, 0x73, 0x6d, 0x01, 0x00, 0x00, 0x00, 0x03, 0x02, 0x01, 0x05, 0x0a, 0x04, 0x01, 0x02, 0x00, 0x0b,
    ];
    let err = lift_with_ops(&bytes, &vec![vec![LiftOp::End]]).unwrap_err();
    assert_eq!(err, LoadError::Lift(wasm_decompile::lift::LiftError::MissingType(5)));
}

#[test]
fn truncated_module_fails() {
    assert_eq!(lift_with_ops(&MODULE[..60], &vec![]).unwrap_err(), LoadError::Payload);
}

#[test]
fn test_simple_module() {
    // Minimal valid WASM module
    let wasm = [
        0x00, 0x61, 0x73, 0x6d, // magic
        0x01, 0x00, 0x00, 0x00, // version
    ];
    let result = lift(&wasm);
    assert!(result.is_ok());
    let mut module = result.unwrap();
    let mut ctx = PassContext::new();
    for pass in &Pipeline::default_pipeline().passes {
        match pass {
            PassKind::Simplify => SimplifyPass.run(&mut module, &mut ctx),
            PassKind::ControlFlow => ControlFlowPass.run(&mut module, &mut ctx),
            PassKind::TypeInfer => TypeInferPass.run(&mut module, &mut ctx),
            PassKind::MemResolve => MemResolvePass.run(&mut module, &mut ctx),
            PassKind::Stackifier => StackifierPass.run(&mut module, &mut ctx),
            PassKind::Unblockify => UnblockifyPass.run(&mut module, &mut ctx),
            PassKind::GoString | PassKind::GoSlice => panic!("not a default pass"),
        }
    }
    assert!(module.functions.is_empty());
    let mut out = String::new();
    for func in &module.functions {
        for stmt in &func.body.stmts {
            assert!(dump_stmt(stmt, 2, &mut out));
        }
    }
    assert!(out.is_empty());
}

#[test]
fn payloads_and_operators_make_the_module() {
    // a type section () -> () from byte 0 to 4, a function section from 4 to 6,
    // and a body from 6 to 8 with no locals
    let data = [0x01, 0x60, 0x00, 0x00, 0x01, 0x00, 0x00, 0x0b];
    let infos = vec![
        PayloadInfo::Version(1, false),
        PayloadInfo::Section(1, 0, 4),
        PayloadInfo::Section(3, 4, 6),
        PayloadInfo::CodeEntry(6, 8),
    ];
    let m = lift_payloads(&data, &infos, &vec![vec![LiftOp::End]]).unwrap();
    assert_eq!(m.functions.len(), 1);
    assert!(!m.functions[0].is_import);
    assert_eq!(lift_payloads(&data, &infos, &vec![]).unwrap_err(), LoadError::BodyCount);
    let bad = vec![PayloadInfo::Version(1, false), PayloadInfo::Section(1, 0, 3)];
    assert_eq!(lift_payloads(&data, &bad, &vec![]).unwrap_err(), LoadError::Type);
}

#[test]
fn lifts_operators_from_the_bytes() {
    let m = lift(&MODULE).unwrap();
    let with_ops = lift_with_ops(&MODULE, &body_ops()).unwrap();
    assert_eq!(m.functions.len(), 3);
    assert_eq!(format!("{:?}", m.functions[1].body), format!("{:?}", with_ops.functions[1].body));
    assert_eq!(format!("{:?}", m.functions[2].body), format!("{:?}", with_ops.functions[2].body));
}

#[test]
fn body_that_does_not_decode_fails() {
    // one function of type () -> () whose body holds a truncated i32.const
    let bytes = [
        0x00, 0x61, 0x73, 0x6d, 0x01, 0x00, 0x00, 0x00, 0x01, 0x04, 0x01, 0x60, 0x00, 0x00, 0x03, 0x02, 0x01, 0x00,
        0x0a, 0x05, 0x01, 0x03, 0x00, 0x41, 0x80,
    ];
    assert_eq!(lift(&bytes).unwrap_err(), LoadError::Operators);
}

#[test]
fn stackifier_keeps_straight_line_bodies() {
    let mut m = lift(&MODULE).unwrap();
    let before: Vec<String> = m.functions.iter().map(|f| format!("{:?}", f.body)).collect();
    assert!(m.functions.iter().all(|f| f.is_import || wasm_decompile::passes::emit::body_fits(&f.body)));
    let mut ctx = PassContext::new();
    StackifierPass.run(&mut m, &mut ctx);
    let after: Vec<String> = m.functions.iter().map(|f| format!("{:?}", f.body)).collect();
    assert_eq!(before, after);
}
