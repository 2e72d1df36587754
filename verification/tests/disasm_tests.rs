use wasm_decompile::disasm::analysis::{
    analyze_function, analyze_stack_depths, resolve_basic_blocks, resolve_basic_blocks_with_br_table, resolve_block_indicies,
    resolve_branch_targets,
    resolve_if_else_targets, AnalyzedModules, WasmModuleAnalysis,
};
use wasm_decompile::disasm::blocks::{block_edges, BlockEdge, BranchType};
use wasm_decompile::disasm::decode::{decode, BlockTypeOperand, InstrKind, Operands};
use wasm_decompile::disasm::module::{WasmFunction, WasmModule};
use wasm_decompile::disasm::regs::{StackState, WasmCallingConvention, WasmRegister};

fn empty_module(functions: Vec<WasmFunction>) -> WasmModule {
    WasmModule {
        version: 1,
        sections: vec![],
        functions,
        globals: vec![],
        start_function: None,
        _exports: vec![],
        memory: None,
        data_segments: vec![],
    }
}

// block; i32.const 1; br_if 0; i32.const 2; drop; end; end
const BODY: [u8; 11] = [0x02, 0x40, 0x41, 0x01, 0x0d, 0x00, 0x41, 0x02, 0x1a, 0x0b, 0x0b];

#[test]
fn decodes_instructions() {
    let i = decode(&[0x41, 0x7f]).unwrap();
    assert_eq!((i.len, i.kind, i.name), (2, InstrKind::Const, "i32.const"));
    assert!(matches!(i.operands, Operands::I32(-1)));
    let i = decode(&[0x28, 0x02, 0x10]).unwrap();
    assert_eq!(i.kind, InstrKind::Load);
    assert!(matches!(i.operands, Operands::MemArg { align: 2, offset: 16 }));
    let i = decode(&[0x05]).unwrap();
    assert_eq!((i.len, i.kind), (1, InstrKind::Else));
    assert!(decode(&[]).is_none());
    let i = decode(&[0xfc, 0x0a, 0x00, 0x00]).unwrap();
    assert_eq!((i.len, i.kind), (4, InstrKind::MemoryCopy));
    assert!(matches!(i.operands, Operands::Indexes(0, 0)));
    let i = decode(&[0x43, 0x00, 0x00, 0x80, 0x3f]).unwrap();
    assert!(matches!(i.operands, Operands::F32(bits) if bits == 1.0f32.to_bits()));
    let i = decode(&[0x02, 0x7f]).unwrap();
    assert!(matches!(i.operands, Operands::BlockType(BlockTypeOperand::Value(0x7f))));
    let i = decode(&[0x0e, 0x02, 0x00, 0x01, 0x00]).unwrap();
    match i.operands {
        Operands::BrTable { labels, default } => {
            assert_eq!(labels, vec![0, 1]);
            assert_eq!(default, 0);
        },
        other => panic!("unexpected operands {:?}", other),
    }
    // truncated immediate
    assert!(decode(&[0x41]).is_none());
}

#[test]
fn resolves_blocks_and_branches() {
    let blocks = resolve_block_indicies(&BODY, 0x100);
    assert_eq!(blocks, vec![(0x100, 0x10a)]);
    let (branches, tables) = resolve_branch_targets(&BODY, 0x100, &blocks);
    assert_eq!(branches, vec![(0x104, 0x10a)]);
    assert!(tables.is_empty());
    let starts = resolve_basic_blocks(&BODY, 0x100, &branches);
    assert_eq!(starts, vec![0x100, 0x102, 0x106, 0x10a]);
}

#[test]
fn resolves_if_else_targets() {
    // i32.const 0; if; nop; else; nop; end; end
    let body = [0x41, 0x00, 0x04, 0x40, 0x01, 0x05, 0x01, 0x0b, 0x0b];
    let (ifs, elses) = resolve_if_else_targets(&body, 0);
    assert_eq!(ifs, vec![(2, 6)]);
    assert_eq!(elses, vec![(5, 8)]);
    // without else the false branch goes after the end
    let body = [0x41, 0x00, 0x04, 0x40, 0x01, 0x0b, 0x0b];
    let (ifs, elses) = resolve_if_else_targets(&body, 0);
    assert_eq!(ifs, vec![(2, 6)]);
    assert!(elses.is_empty());
}

#[test]
fn resolves_branch_tables() {
    // block; block; i32.const 0; br_table [0 1] 0; end; end; end
    let body = [0x02, 0x40, 0x02, 0x40, 0x41, 0x00, 0x0e, 0x02, 0x00, 0x01, 0x00, 0x0b, 0x0b, 0x0b];
    let blocks = resolve_block_indicies(&body, 0);
    assert_eq!(blocks, vec![(2, 12), (0, 13)]);
    let (branches, tables) = resolve_branch_targets(&body, 0, &blocks);
    assert!(branches.is_empty());
    assert_eq!(tables, vec![(6, (vec![12, 13], 12))]);
}

#[test]
fn tracks_stack_depths() {
    let module = empty_module(vec![WasmFunction {
        index: 0,
        code_offset: 0,
        code_size: 0,
        name: None,
        param_count: 2,
        return_count: 1,
    }]);
    // i32.const 1; i32.const 2; call 0; drop; drop; end
    let body = [0x41, 0x01, 0x41, 0x02, 0x10, 0x00, 0x1a, 0x1a, 0x0b];
    let depths = analyze_stack_depths(&body, 0, &module);
    assert_eq!(depths, vec![(0, 0), (2, 1), (4, 2), (6, 1), (7, 0), (8, 0)]);
}

#[test]
fn analyzes_whole_functions() {
    let module = empty_module(vec![]);
    let a = analyze_function(&BODY, 0x100, 3, &module);
    assert_eq!(a.start_address, 0x100);
    assert_eq!(a.end_address, 0x10b);
    assert_eq!(a.param_count, 3);
    assert_eq!(a.basic_block_starts, vec![0x100, 0x102, 0x106, 0x10a]);
    let mut m = WasmModuleAnalysis::new(empty_module(vec![]));
    m.analyze_function(0x100, &BODY, 0);
    m.analyze_function(0x200, &BODY, 1);
    m.analyze_function(0x100, &BODY, 2);
    assert_eq!(m.functions.len(), 2);
    assert_eq!(m.get_function_analysis(0x100).unwrap().param_count, 2);
    assert!(m.get_function_analysis(0x300).is_none());
    assert_eq!(m.get_function_analysis_for_instruction(0x205).unwrap().start_address, 0x200);
    assert!(m.get_function_analysis_for_instruction(0x20b).is_none());
    assert!(AnalyzedModules::new().modules.is_empty());
}

#[test]
fn registers_and_convention() {
    assert_eq!(WasmRegister::Arg3.id(), 5);
    assert_eq!(WasmRegister::Sp.name(), "sp");
    assert_eq!(WasmRegister::from_id(1), Some(WasmRegister::Ret));
    assert_eq!(WasmRegister::from_id(10), None);
    let cc = WasmCallingConvention;
    assert_eq!(cc.int_arg_registers(), vec![2, 3, 4, 5, 6, 7, 8, 9]);
    assert_eq!(cc.return_int_reg(), Some(1));
    let mut st = StackState::new(0);
    assert_eq!(st.push(), 0xFFFF);
    assert_eq!(st.push(), 0x10000);
    assert_eq!(st.pop(), 0x10000);
    assert_eq!(st.pop(), 0xFFFF);
    assert_eq!(st.pop(), 0xFFFF);
    assert_eq!(st.depth, 0);
}

#[test]
fn instruction_after_return_starts_a_block() {
    let code = [0x0f, 0x01, 0x0b];
    let starts = resolve_basic_blocks_with_br_table(&code, 0x100, &vec![], &vec![], &vec![], &vec![]);
    assert_eq!(starts, vec![0x100, 0x101]);
}

#[test]
fn br_if_decodes_with_its_mnemonic() {
    let i = decode(&[0x0d, 0x00]).unwrap();
    assert_eq!((i.len, i.name, i.kind), (2, "br_if", InstrKind::CondBranch));
    assert!(matches!(i.operands, Operands::Index(0)));
    assert!(decode(&[]).is_none());
}

#[test]
fn legacy_exception_operators_decode() {
    assert_eq!(decode(&[0x19]).unwrap().len, 1);
    assert_eq!(decode(&[0x07, 0x00]).unwrap().len, 2);
    assert_eq!(decode(&[0x18, 0x81, 0x01]).unwrap().len, 3);
}

#[test]
fn block_edges_follow_the_last_instruction() {
    let module = empty_module(vec![]);
    let a = analyze_function(&BODY, 0x100, 0, &module);
    let e = |branch_type: BranchType, target: u64, fallthrough: bool| BlockEdge { branch_type, target, fallthrough };
    // `block` opens: fall through to the next block
    assert_eq!(block_edges(&a, &BODY, 0), vec![e(BranchType::UnconditionalBranch, 0x102, true)]);
    // `br_if 0` leaves the block or falls through
    assert_eq!(
        block_edges(&a, &BODY, 1),
        vec![e(BranchType::TrueBranch, 0x10a, false), e(BranchType::FalseBranch, 0x106, true)]
    );
    // an inner `end` falls through
    assert_eq!(block_edges(&a, &BODY, 2), vec![e(BranchType::UnconditionalBranch, 0x10a, true)]);
    // the final `end` returns
    assert_eq!(block_edges(&a, &BODY, 3), vec![e(BranchType::FunctionReturn, 0, false)]);
}
