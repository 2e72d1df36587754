//! The text a disassembler shows for an instruction: its mnemonic, padding,
//! and its operands as tokens.
use vstd::prelude::*;
use crate::disasm::decode::{decode, spec_decode_at, BlockTypeOperand, Instruction, Operands, OperandsV};
use crate::names::{decimal, decimal_text};

verus! {

/// What a token shows.
#[derive(Debug, Clone, Copy, PartialEq, Eq, Structural)]
pub enum TokenKind {
    Instruction,
    Text,
    /// An integer, with its size in bytes where it has a fixed one.
    Integer { value: u64, size: Option<usize> },
    OperandSeparator,
    /// A floating-point constant, by its bits and its size in bytes. Its text
    /// is left empty: the digits are the float's own formatting.
    FloatingPoint { bits: u64, size: usize },
}

/// One token of an instruction's text.
#[derive(Debug)]
pub struct TextToken {
    pub text: String,
    pub kind: TokenKind,
}

/// A token as plain values.
pub struct TokenV {
    pub text: Seq<char>,
    pub kind: TokenKind,
}

impl View for TextToken {
    type V = TokenV;

    open spec fn view(&self) -> TokenV {
        TokenV { text: self.text@, kind: self.kind }
    }
}

pub open spec fn tokens_view(v: Seq<TextToken>) -> Seq<TokenV> {
    v.map_values(|t: TextToken| t@)
}

/// A lowercase hexadecimal digit.
pub open spec fn hex_char(d: nat) -> char {
    if d < 10 { (48 + d) as char } else { (87 + d) as char }
}

/// The lowercase hexadecimal digits of `n`.
pub open spec fn hex_digits(n: nat) -> Seq<char>
    decreases n,
{
    if n < 16 {
        seq![hex_char(n)]
    } else {
        hex_digits(n / 16).push(hex_char(n % 16))
    }
}

/// The lowercase hexadecimal digit `d` as text.
pub(crate) fn hex_digit_str(d: u64) -> (r: &'static str)
    requires
        d < 16,
    ensures
        r@ == seq![hex_char(d as nat)],
{
    match d {
        0 => {
            proof {
                reveal_strlit("0");
            }
            "0"
        },
        1 => {
            proof {
                reveal_strlit("1");
            }
            "1"
        },
        2 => {
            proof {
                reveal_strlit("2");
            }
            "2"
        },
        3 => {
            proof {
                reveal_strlit("3");
            }
            "3"
        },
        4 => {
            proof {
                reveal_strlit("4");
            }
            "4"
        },
        5 => {
            proof {
                reveal_strlit("5");
            }
            "5"
        },
        6 => {
            proof {
                reveal_strlit("6");
            }
            "6"
        },
        7 => {
            proof {
                reveal_strlit("7");
            }
            "7"
        },
        8 => {
            proof {
                reveal_strlit("8");
            }
            "8"
        },
        9 => {
            proof {
                reveal_strlit("9");
            }
            "9"
        },
        10 => {
            proof {
                reveal_strlit("a");
            }
            "a"
        },
        11 => {
            proof {
                reveal_strlit("b");
            }
            "b"
        },
        12 => {
            proof {
                reveal_strlit("c");
            }
            "c"
        },
        13 => {
            proof {
                reveal_strlit("d");
            }
            "d"
        },
        14 => {
            proof {
                reveal_strlit("e");
            }
            "e"
        },
        _ => {
            proof {
                reveal_strlit("f");
            }
            "f"
        },
    }
}

/// The lowercase hexadecimal digits of `n`.
fn hex_digits_text(n: u64) -> (r: String)
    ensures
        r@ == hex_digits(n as nat),
    decreases n,
{
    if n < 16 {
        String::from_str(hex_digit_str(n))
    } else {
        let mut s = hex_digits_text(n / 16);
        s.append(hex_digit_str(n % 16));
        s
    }
}

/// `0x` and the lowercase hexadecimal digits of `n`, as `format!("{:#x}", n)` writes them.
pub(crate) fn hex_text(n: u64) -> (r: String)
    ensures
        r@ == seq!['0', 'x'] + hex_digits(n as nat),
{
    let mut r = String::from_str("0x");
    let d = hex_digits_text(n);
    r.append(d.as_str());
    proof {
        reveal_strlit("0x");
    }
    r
}

/// How `wasmparser`'s `Debug` writes the value type encoded by the byte `b`,
/// where the byte alone encodes one.
pub uninterp spec fn wasm_val_type_debug(b: u8) -> Option<Seq<char>>;

/// The value type that `wasmparser` reads from the single byte `b`, written
/// with its `Debug` formatting.
#[verifier::external_body]
fn val_type_debug(b: u8) -> (r: Option<String>)
    ensures
        match r {
            Some(s) => wasm_val_type_debug(b) == Some(s@),
            None => wasm_val_type_debug(b) is None,
        },
{
    let bytes = [b];
    let t: wasmparser::ValType = wasmparser::BinaryReader::new(&bytes, 0).read().ok()?;
    Some(format!("{:?}", t))
}

/// `s` in lowercase, as `str::to_lowercase` gives it.
pub uninterp spec fn lowercase(s: Seq<char>) -> Seq<char>;

/// `str::to_lowercase`.
#[verifier::external_body]
fn to_lowercase(s: &String) -> (r: String)
    ensures
        r@ == lowercase(s@),
{
    s.to_lowercase()
}

pub open spec fn int_token(text: Seq<char>, value: u64, size: Option<usize>) -> TokenV {
    TokenV { text, kind: TokenKind::Integer { value, size } }
}

pub open spec fn separator() -> TokenV {
    TokenV { text: seq![',', ' '], kind: TokenKind::OperandSeparator }
}

/// `n` spaces.
pub open spec fn spaces(n: nat) -> Seq<char> {
    Seq::new(n, |i: int| ' ')
}

/// The labels of a branch table, separated.
pub open spec fn label_tokens(labels: Seq<u32>) -> Seq<TokenV>
    decreases labels.len(),
{
    if labels.len() == 0 {
        Seq::empty()
    } else if labels.len() == 1 {
        seq![int_token(decimal(labels[0] as nat), labels[0] as u64, None)]
    } else {
        label_tokens(labels.drop_last()) + seq![separator(), int_token(decimal(labels.last() as nat), labels.last() as u64, None)]
    }
}

/// The tokens of an instruction's operands.
pub open spec fn operand_tokens(ops: OperandsV) -> Seq<TokenV> {
    match ops {
        OperandsV::Nothing => Seq::empty(),
        OperandsV::BlockType(BlockTypeOperand::Empty) => Seq::empty(),
        OperandsV::BlockType(BlockTypeOperand::Value(b)) => match wasm_val_type_debug(b) {
            Some(t) => seq![TokenV { text: lowercase(t), kind: TokenKind::Text }],
            None => Seq::empty(),
        },
        OperandsV::BlockType(BlockTypeOperand::FuncType(i)) => seq![int_token(seq!['t', 'y', 'p', 'e', ' '] + decimal(i as nat), i as u64, None)],
        OperandsV::Index(i) => seq![int_token(decimal(i as nat), i as u64, None)],
        OperandsV::Indexes(a, b) => {
            let first = int_token(seq!['t', 'y', 'p', 'e', ' '] + decimal(a as nat), a as u64, None);
            if b != 0 {
                seq![first, separator(), int_token(seq!['t', 'a', 'b', 'l', 'e', ' '] + decimal(b as nat), b as u64, None)]
            } else {
                seq![first]
            }
        },
        OperandsV::I32(v) => seq![int_token(seq!['0', 'x'] + hex_digits(v as u32 as nat), v as u32 as u64, Some(4))],
        OperandsV::I64(v) => seq![int_token(seq!['0', 'x'] + hex_digits(v as u64 as nat), v as u64, Some(8))],
        OperandsV::F32(bits) => seq![TokenV { text: Seq::empty(), kind: TokenKind::FloatingPoint { bits: bits as u64, size: 4 } }],
        OperandsV::F64(bits) => seq![TokenV { text: Seq::empty(), kind: TokenKind::FloatingPoint { bits, size: 8 } }],
        OperandsV::MemArg { align, offset } => {
            let a = (1u32 << (align % 32)) as u64;
            seq![
                int_token(seq!['o', 'f', 'f', 's', 'e', 't', '='] + decimal(offset as nat), offset, None),
                separator(),
                int_token(seq!['a', 'l', 'i', 'g', 'n', '='] + decimal(a as nat), 1u64 << (align % 64), None),
            ]
        },
        OperandsV::BrTable { labels, default } => label_tokens(labels) + (if labels.len() > 0 {
            seq![separator()]
        } else {
            Seq::empty()
        }) + seq![int_token(decimal(default as nat), default as u64, None)],
    }
}

/// The tokens of an instruction with mnemonic `name` and operands `ops`: the
/// mnemonic, spaces up to column 20, then the operands.
pub open spec fn instruction_tokens_v(name: &str, ops: OperandsV) -> Seq<TokenV> {
    let pad = if name.len() < 20 { (20 - name.len()) as nat } else { 0 };
    seq![TokenV { text: name@, kind: TokenKind::Instruction }, TokenV { text: spaces(pad), kind: TokenKind::Text }]
        + operand_tokens(ops)
}

fn int_tok(text: String, value: u64, size: Option<usize>) -> (r: TextToken)
    ensures
        r@ == int_token(text@, value, size),
{
    TextToken { text, kind: TokenKind::Integer { value, size } }
}

fn sep_tok() -> (r: TextToken)
    ensures
        r@ == separator(),
{
    let t = String::from_str(", ");
    proof {
        reveal_strlit(", ");
        assert(", "@ =~= seq![',', ' ']);
    }
    TextToken { text: t, kind: TokenKind::OperandSeparator }
}

/// `prefix` followed by the decimal digits of `n`.
fn prefixed_decimal(prefix: &str, n: u64) -> (r: String)
    ensures
        r@ == prefix@ + decimal(n as nat),
{
    let mut r = String::from_str(prefix);
    let d = decimal_text(n);
    r.append(d.as_str());
    r
}

fn push_tok(out: &mut Vec<TextToken>, t: TextToken)
    ensures
        tokens_view(final(out)@) == tokens_view(old(out)@).push(t@),
{
    let ghost before = out@;
    let ghost tv = t@;
    out.push(t);
    assert(tokens_view(out@) =~= tokens_view(before).push(tv));
}

/// Append the tokens of `ops` to `out`.
fn push_operand_tokens(ops: &Operands, out: &mut Vec<TextToken>)
    ensures
        tokens_view(final(out)@) == tokens_view(old(out)@) + operand_tokens(ops@),
{
    let ghost before = out@;
    match ops {
        Operands::Nothing => {},
        Operands::BlockType(BlockTypeOperand::Empty) => {},
        Operands::BlockType(BlockTypeOperand::Value(b)) => {
            match val_type_debug(*b) {
                Some(t) => {
                    push_tok(out, TextToken { text: to_lowercase(&t), kind: TokenKind::Text });
                },
                None => {},
            }
        },
        Operands::BlockType(BlockTypeOperand::FuncType(i)) => {
            proof {
                reveal_strlit("type ");
                assert("type "@ =~= seq!['t', 'y', 'p', 'e', ' ']);
            }
            push_tok(out, int_tok(prefixed_decimal("type ", *i as u64), *i as u64, None));
        },
        Operands::Index(i) => {
            push_tok(out, int_tok(decimal_text(*i as u64), *i as u64, None));
        },
        Operands::Indexes(a, b) => {
            proof {
                reveal_strlit("type ");
                reveal_strlit("table ");
                assert("type "@ =~= seq!['t', 'y', 'p', 'e', ' ']);
                assert("table "@ =~= seq!['t', 'a', 'b', 'l', 'e', ' ']);
            }
            push_tok(out, int_tok(prefixed_decimal("type ", *a as u64), *a as u64, None));
            if *b != 0 {
                push_tok(out, sep_tok());
                push_tok(out, int_tok(prefixed_decimal("table ", *b as u64), *b as u64, None));
            }
        },
        Operands::I32(v) => {
            let u = #[verifier::truncate] (*v as u32);
            push_tok(out, int_tok(hex_text(u as u64), u as u64, Some(4)));
        },
        Operands::I64(v) => {
            let u = #[verifier::truncate] (*v as u64);
            push_tok(out, int_tok(hex_text(u), u, Some(8)));
        },
        Operands::F32(bits) => {
            push_tok(out, TextToken { text: String::new(), kind: TokenKind::FloatingPoint { bits: *bits as u64, size: 4 } });
        },
        Operands::F64(bits) => {
            push_tok(out, TextToken { text: String::new(), kind: TokenKind::FloatingPoint { bits: *bits, size: 8 } });
        },
        Operands::MemArg { align, offset } => {
            proof {
                reveal_strlit("offset=");
                reveal_strlit("align=");
                assert("offset="@ =~= seq!['o', 'f', 'f', 's', 'e', 't', '=']);
                assert("align="@ =~= seq!['a', 'l', 'i', 'g', 'n', '=']);
            }
            push_tok(out, int_tok(prefixed_decimal("offset=", *offset), *offset, None));
            push_tok(out, sep_tok());
            let a: u32 = 1u32 << (*align % 32);
            push_tok(out, int_tok(prefixed_decimal("align=", a as u64), 1u64 << (*align % 64), None));
        },
        Operands::BrTable { labels, default } => {
            let mut i: usize = 0;
            while i < labels.len()
                invariant
                    0 <= i <= labels@.len(),
                    tokens_view(out@) == tokens_view(before) + label_tokens(labels@.take(i as int)),
                decreases labels@.len() - i,
            {
                proof {
                    assert(labels@.take(i + 1).drop_last() =~= labels@.take(i as int));
                }
                let ghost mid = out@;
                if i > 0 {
                    push_tok(out, sep_tok());
                }
                push_tok(out, int_tok(decimal_text(labels[i] as u64), labels[i] as u64, None));
                i += 1;
            }
            assert(labels@.take(labels@.len() as int) =~= labels@);
            if labels.len() > 0 {
                push_tok(out, sep_tok());
            }
            push_tok(out, int_tok(decimal_text(*default as u64), *default as u64, None));
        },
    }
    assert(tokens_view(out@) =~= tokens_view(before) + operand_tokens(ops@));
}

/// The tokens of `instr`: its mnemonic, spaces up to column 20, then its operands.
pub fn instruction_tokens(instr: &Instruction) -> (r: Vec<TextToken>)
    ensures
        tokens_view(r@) == instruction_tokens_v(instr.name, instr.operands@),
{
    let mut out: Vec<TextToken> = Vec::new();
    push_tok(&mut out, TextToken { text: String::from_str(instr.name), kind: TokenKind::Instruction });
    let n = instr.name.len();
    let pad = if n < 20 { 20 - n } else { 0 };
    let mut sp = String::new();
    let mut k: usize = 0;
    while k < pad
        invariant
            0 <= k <= pad,
            sp@ == spaces(k as nat),
        decreases pad - k,
    {
        sp.append(" ");
        proof {
            reveal_strlit(" ");
            assert(sp@ =~= spaces((k + 1) as nat));
        }
        k += 1;
    }
    push_tok(&mut out, TextToken { text: sp, kind: TokenKind::Text });
    let ghost head = out@;
    assert(tokens_view(Seq::<TextToken>::empty()) =~= Seq::<TokenV>::empty());
    assert(tokens_view(head) =~= seq![
        TokenV { text: instr.name@, kind: TokenKind::Instruction },
        TokenV { text: spaces(pad as nat), kind: TokenKind::Text },
    ]);
    push_operand_tokens(&instr.operands, &mut out);
    assert(tokens_view(head) =~= seq![
        TokenV { text: instr.name@, kind: TokenKind::Instruction },
        TokenV { text: spaces(pad as nat), kind: TokenKind::Text },
    ]);
    out
}

/// The length and text of the instruction at the start of `data`, where one decodes.
pub fn instruction_text(data: &[u8]) -> (r: Option<(usize, Vec<TextToken>)>)
    ensures
        r is None <==> spec_decode_at(data@, 0) is None,
        r matches Some((len, toks)) ==> {
            let i = spec_decode_at(data@, 0)->Some_0;
            &&& len == i.len
            &&& tokens_view(toks@) == instruction_tokens_v(i.name, i.operands)
        },
{
    match decode(data) {
        Some(instr) => {
            let toks = instruction_tokens(&instr);
            Some((instr.len, toks))
        },
        None => None,
    }
}

} // verus!
