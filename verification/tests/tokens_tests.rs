use wasm_decompile::disasm::tokens::{instruction_text, TokenKind};

fn texts(data: &[u8]) -> (usize, Vec<String>, Vec<TokenKind>) {
    let (len, toks) = instruction_text(data).unwrap();
    (len, toks.iter().map(|t| t.text.clone()).collect(), toks.iter().map(|t| t.kind).collect())
}

#[test]
fn i32_const_is_shown_in_hex() {
    let (len, t, k) = texts(&[0x41, 0x2a]);
    assert_eq!(len, 2);
    assert_eq!(t, vec!["i32.const".to_string(), " ".repeat(11), "0x2a".to_string()]);
    assert_eq!(k[0], TokenKind::Instruction);
    assert_eq!(k[1], TokenKind::Text);
    assert_eq!(k[2], TokenKind::Integer { value: 42, size: Some(4) });
}

#[test]
fn negative_i32_const_shows_its_bits() {
    let (_, t, k) = texts(&[0x41, 0x7f]);
    assert_eq!(t[2], "0xffffffff");
    assert_eq!(k[2], TokenKind::Integer { value: 0xffff_ffff, size: Some(4) });
}

#[test]
fn memory_access_shows_offset_and_alignment() {
    let (len, t, k) = texts(&[0x28, 0x02, 0x08]);
    assert_eq!(len, 3);
    assert_eq!(t[0], "i32.load");
    assert_eq!(t[2..].to_vec(), vec!["offset=8".to_string(), ", ".to_string(), "align=4".to_string()]);
    assert_eq!(k[3], TokenKind::OperandSeparator);
    assert_eq!(k[4], TokenKind::Integer { value: 4, size: None });
}

#[test]
fn branch_table_lists_labels_then_default() {
    let (_, t, _) = texts(&[0x0e, 0x02, 0x00, 0x01, 0x02]);
    assert_eq!(t[2..].to_vec(), vec!["0", ", ", "1", ", ", "2"].iter().map(|s| s.to_string()).collect::<Vec<_>>());
}

#[test]
fn block_type_and_call_indirect() {
    let (_, t, _) = texts(&[0x02, 0x7f]);
    assert_eq!(t[0], "block");
    assert_eq!(t[2], "i32");
    let (_, t, k) = texts(&[0x11, 0x03, 0x00]);
    assert_eq!(t[2..].to_vec(), vec!["type 3".to_string()]);
    assert_eq!(k[2], TokenKind::Integer { value: 3, size: None });
    let (_, t, _) = texts(&[0x11, 0x03, 0x01]);
    assert_eq!(t[2..].to_vec(), vec!["type 3".to_string(), ", ".to_string(), "table 1".to_string()]);
}

#[test]
fn float_constant_carries_bits() {
    let (_, _, k) = texts(&[0x43, 0x00, 0x00, 0x80, 0x3f]);
    assert_eq!(k[2], TokenKind::FloatingPoint { bits: 0x3f80_0000, size: 4 });
}

#[test]
fn nothing_decodes_from_nothing() {
    assert!(instruction_text(&[]).is_none());
}
