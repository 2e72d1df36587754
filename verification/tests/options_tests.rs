use wasm_decompile::passes::pipeline::{PassKind, Pipeline};
use wasm_decompile::{DecompileOptions, Target};

#[test]
fn test_target_selection() {
    let options = DecompileOptions::new().with_target(Target::Go);
    assert_eq!(options.target, Target::Go);
}

#[test]
fn options_defaults_and_builders() {
    let options = DecompileOptions::default();
    assert_eq!(options.target, Target::Generic);
    assert!(!options.debug);
    assert!(!options.dump_ir);
    let options = options.with_debug(true).with_dump_ir(true).with_target(Target::Rust);
    assert!(options.debug);
    assert!(options.dump_ir);
    assert_eq!(options.target, Target::Rust);
    assert_eq!(Target::default(), Target::Generic);
}

#[test]
fn pipelines_by_target() {
    assert_eq!(Pipeline::for_target(wasm_decompile::Target::Rust).passes, vec![
        PassKind::Simplify,
        PassKind::ControlFlow,
        PassKind::TypeInfer,
        PassKind::MemResolve
    ]);
    assert_eq!(Pipeline::for_target(wasm_decompile::Target::Go).passes.len(), 7);
    assert_eq!(Pipeline::for_target(wasm_decompile::Target::C).passes, Pipeline::default_pipeline().passes);
    assert_eq!(Pipeline::default_pipeline().passes, vec![
        PassKind::Simplify,
        PassKind::ControlFlow,
        PassKind::Stackifier,
        PassKind::Unblockify,
        PassKind::TypeInfer,
        PassKind::MemResolve
    ]);
}
