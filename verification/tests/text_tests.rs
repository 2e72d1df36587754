use wasm_decompile::dump::{dump_expr, dump_expr_tokens, dump_stmt, dump_stmt_tokens, DumpToken};
use wasm_decompile::ir::{BinOp, CmpOp, ConvertOp, Expr, ExprKind, MemSize, Stmt, UnaryOp};
use wasm_decompile::passes::mem_resolve::{get_string_from_memory, is_printable_char, is_readable_string};

#[test]
fn test_string_detection() {
    assert!(is_readable_string("hello world"));
    assert!(is_readable_string("Hello, World!"));
    assert!(is_readable_string("test\nwith\nnewlines"));
    assert!(!is_readable_string("\x00\x01\x02\x03"));
}

#[test]
fn test_get_string_from_memory() {
    let memory = b"Hello, World!\x00Other stuff";
    assert_eq!(
        get_string_from_memory(memory, 0, 13),
        Some("Hello, World!".to_string())
    );
    assert_eq!(
        get_string_from_memory(memory, 0, 5),
        Some("Hello".to_string())
    );
    assert_eq!(get_string_from_memory(memory, 100, 5), None);
}

#[test]
fn printable_characters() {
    assert!(is_printable_char('a'));
    assert!(is_printable_char(' '));
    assert!(is_printable_char('\t'));
    assert!(!is_printable_char('\u{7}'));
    assert!(is_printable_char('é'));
}

#[test]
fn readability_needs_most_characters_printable() {
    assert!(!is_readable_string(""));
    assert!(!is_readable_string("\u{1}\u{2}ab"));
}

#[test]
fn string_from_memory_edges() {
    let memory = b"ab\xffcd";
    // invalid UTF-8
    assert_eq!(get_string_from_memory(memory, 0, 4), None);
    // zero length reads nothing
    assert_eq!(get_string_from_memory(memory, 0, 0), None);
    // runs past the end
    assert_eq!(get_string_from_memory(memory, 3, 5), None);
    // a NUL counts as one unreadable character among readable ones
    let memory = b"hi\x00there";
    assert_eq!(get_string_from_memory(memory, 0, 8), Some("hi\u{0}there".to_string()));
}

#[test]
fn statements_dump_as_tokens() {
    let value = Expr::new(ExprKind::BinOp(BinOp::Add, Box::new(Expr::local(0)), Box::new(Expr::i32_const(-5))));
    let toks = dump_stmt_tokens(&Stmt::LocalSet { local: 3, value }, 1);
    let text: String = toks
        .iter()
        .map(|t| match t {
            DumpToken::Text(s) => s.clone(),
            _ => String::from("?"),
        })
        .collect();
    assert_eq!(text, "  local.set 3 = (local.0 Add i32(-5))\n");
}

#[test]
fn expression_dumps_as_text() {
    let e = Expr::new(ExprKind::BinOp(BinOp::Sub, Box::new(Expr::i32_const(5)), Box::new(Expr::local(2))));
    let mut out = String::new();
    assert!(dump_expr(&e, &mut out));
    assert_eq!(out, "(i32(5) Sub local.2)");
}

#[test]
fn operator_and_size_names_dump_as_debug() {
    let e = Expr::new(ExprKind::Convert {
        op: ConvertOp::I64ExtendI32U,
        expr: Box::new(Expr::new(ExprKind::UnaryOp(UnaryOp::Popcnt, Box::new(Expr::global(1))))),
    });
    let mut out = String::from(">");
    assert!(dump_expr(&e, &mut out));
    assert_eq!(out, ">I64ExtendI32U(Popcnt(global.1))");
    assert_eq!(format!("{:?}", CmpOp::GeU), CmpOp::GeU.variant_name());
    assert_eq!(format!("{:?}", MemSize::F64), MemSize::F64.variant_name());
    assert_eq!(format!("{:?}", BinOp::FCopysign), BinOp::FCopysign.variant_name());
}

#[test]
fn string_literals_dump_escaped() {
    let e = Expr::new(ExprKind::StringLiteral(String::from("a\"b\n\u{1}\u{e9}\\")));
    let mut out = String::new();
    assert!(dump_expr(&e, &mut out));
    assert_eq!(out, "\"a\\\"b\\n\\u{1}\\u{e9}\\\\\"");
}

#[test]
fn float_constants_are_left_to_the_caller() {
    let e = Expr::new(ExprKind::BinOp(BinOp::FAdd, Box::new(Expr::local(0)), Box::new(Expr::new(ExprKind::F32Const(0)))));
    let mut out = String::from("x");
    assert!(!dump_expr(&e, &mut out));
    assert_eq!(out, "x");
    let toks = dump_expr_tokens(&e);
    assert!(matches!(toks[7], DumpToken::F32Bits(0)));
    let mut out = String::new();
    assert!(dump_stmt(&Stmt::Drop(Expr::local(1)), 0, &mut out));
    assert_eq!(out, "drop local.1\n");
}
