//! The outgoing edges of each basic block of an analysed function, chosen by
//! the kind of the block's last instruction.
use vstd::prelude::*;
use crate::disasm::analysis::{lookup_end, lookup_end_exec, tables_view, FunctionAnalysis};
use crate::disasm::decode::{decode_at, spec_decode_at, InstrKind};

verus! {

/// How control leaves a basic block along an edge.
#[derive(Debug, Clone, Copy, PartialEq, Eq, Structural)]
pub enum BranchType {
    UnconditionalBranch,
    TrueBranch,
    FalseBranch,
    FunctionReturn,
    IndirectBranch,
}

/// An outgoing edge of a basic block.
#[derive(Debug, Clone, Copy, PartialEq, Eq, Structural)]
pub struct BlockEdge {
    pub branch_type: BranchType,
    pub target: u64,
    /// Whether the edge goes on to the next block in address order.
    pub fallthrough: bool,
}

/// Where the block at position `i` of the block starts ends: at the next
/// block's start, or at the end of the function.
pub open spec fn block_end(a: FunctionAnalysis, i: int) -> u64 {
    if i + 1 < a.basic_block_starts@.len() { a.basic_block_starts@[i + 1] } else { a.end_address }
}

/// The address and kind of the last instruction that decodes from offset
/// `off` on below the address `end`, with `last` where none does.
pub open spec fn last_instruction(code: Seq<u8>, base: u64, off: nat, end: u64, last: (u64, InstrKind)) -> (u64, InstrKind)
    decreases code.len() - off,
{
    if off >= code.len() || base + off >= end {
        last
    } else {
        match spec_decode_at(code, off as usize) {
            Some(ins) => if 1 <= ins.len && off + ins.len <= code.len() {
                last_instruction(code, base, (off + ins.len) as nat, end, ((base + off) as u64, ins.kind))
            } else {
                last
            },
            None => last,
        }
    }
}

/// The last instruction of the block from `start` to `end` of a function at
/// `base` with body `code`; the block's start, as a plain instruction, where
/// none decodes there.
pub open spec fn block_last(code: Seq<u8>, base: u64, start: u64, end: u64) -> (u64, InstrKind) {
    if start - base < code.len() {
        last_instruction(code, base, (start - base) as nat, end, (start, InstrKind::Normal))
    } else {
        (start, InstrKind::Normal)
    }
}

/// The `br_table` targets recorded last for the instruction at `addr`.
pub open spec fn lookup_table(tables: Seq<(u64, Seq<u64>, u64)>, addr: u64) -> Option<(Seq<u64>, u64)>
    decreases tables.len(),
{
    if tables.len() == 0 {
        None
    } else if tables.last().0 == addr {
        Some((tables.last().1, tables.last().2))
    } else {
        lookup_table(tables.drop_last(), addr)
    }
}

/// An edge of the given type to `target`.
pub open spec fn edge(branch_type: BranchType, target: u64, fallthrough: bool) -> BlockEdge {
    BlockEdge { branch_type, target, fallthrough }
}

/// A fall-through edge to `end`, where `end` is inside the function.
pub open spec fn fall_to(a: FunctionAnalysis, end: u64) -> Seq<BlockEdge> {
    if end < a.end_address { seq![edge(BranchType::UnconditionalBranch, end, true)] } else { Seq::empty() }
}

/// The edges out of a block ending at `end` whose last instruction, at
/// `addr`, is of kind `kind`.
pub open spec fn spec_edges(a: FunctionAnalysis, addr: u64, kind: InstrKind, end: u64) -> Seq<BlockEdge> {
    match kind {
        InstrKind::Branch => match lookup_end(a.branch_targets@, addr) {
            Some(t) => seq![edge(BranchType::UnconditionalBranch, t, false)],
            None => Seq::empty(),
        },
        InstrKind::CondBranch => match lookup_end(a.branch_targets@, addr) {
            Some(t) => seq![edge(BranchType::TrueBranch, t, false), edge(BranchType::FalseBranch, end, true)],
            None => Seq::empty(),
        },
        InstrKind::If => match lookup_end(a.if_targets@, addr) {
            Some(t) => seq![edge(BranchType::TrueBranch, end, true), edge(BranchType::FalseBranch, t, false)],
            None => fall_to(a, end),
        },
        InstrKind::Else => match lookup_end(a.else_targets@, addr) {
            Some(t) => seq![edge(BranchType::UnconditionalBranch, t, false)],
            None => fall_to(a, end),
        },
        InstrKind::Return => seq![edge(BranchType::FunctionReturn, 0, false)],
        InstrKind::Unreachable => Seq::empty(),
        InstrKind::BrTable => match lookup_table(tables_view(a.br_table_targets@), addr) {
            Some(t) => t.0.map_values(|x: u64| edge(BranchType::UnconditionalBranch, x, false)).push(
                edge(BranchType::UnconditionalBranch, t.1, false),
            ),
            None => seq![edge(BranchType::IndirectBranch, 0, false)],
        },
        InstrKind::End => if end >= a.end_address {
            seq![edge(BranchType::FunctionReturn, 0, false)]
        } else {
            seq![edge(BranchType::UnconditionalBranch, end, true)]
        },
        _ => fall_to(a, end),
    }
}

/// The edges out of the basic block at position `i` of the analysis `a` of
/// the body `code`.
pub open spec fn spec_block_edges(a: FunctionAnalysis, code: Seq<u8>, i: int) -> Seq<BlockEdge> {
    let end = block_end(a, i);
    let last = block_last(code, a.start_address, a.basic_block_starts@[i], end);
    spec_edges(a, last.0, last.1, end)
}

/// The address and kind of the last instruction of the block from `start`
/// to `end`.
fn block_last_exec(code: &[u8], base: u64, start: u64, end: u64) -> (r: (u64, InstrKind))
    requires
        base <= start,
        base + code@.len() <= u64::MAX,
    ensures
        r == block_last(code@, base, start, end),
{
    let mut last: (u64, InstrKind) = (start, InstrKind::Normal);
    if start - base >= code.len() as u64 {
        return last;
    }
    let mut off: usize = (start - base) as usize;
    let ghost first = off as nat;
    while off < code.len()
        invariant
            off <= code@.len(),
            base + code@.len() <= u64::MAX,
            base <= start,
            start - base < code@.len(),
            first == start - base,
            block_last(code@, base, start, end) == last_instruction(code@, base, first, end, (start, InstrKind::Normal)),
            last_instruction(code@, base, first, end, (start, InstrKind::Normal))
                == last_instruction(code@, base, off as nat, end, last),
        decreases code@.len() - off,
    {
        let addr = base + off as u64;
        if addr >= end {
            return last;
        }
        match decode_at(code, off) {
            Some(ins) => {
                last = (addr, ins.kind);
                off = off + ins.len;
            },
            None => {
                return last;
            },
        }
    }
    last
}

/// The `br_table` targets recorded last for the instruction at `addr`.
fn lookup_table_exec(tables: &Vec<(u64, (Vec<u64>, u64))>, addr: u64) -> (r: Option<(&Vec<u64>, u64)>)
    ensures
        match r {
            Some(t) => lookup_table(tables_view(tables@), addr) == Some((t.0@, t.1)),
            None => lookup_table(tables_view(tables@), addr) is None,
        },
{
    let ghost tv = tables_view(tables@);
    let mut k = tables.len();
    assert(tv.subrange(0, k as int) =~= tv);
    while k > 0
        invariant
            k <= tables@.len(),
            tv == tables_view(tables@),
            lookup_table(tv, addr) == lookup_table(tv.subrange(0, k as int), addr),
        decreases k,
    {
        assert(tv.subrange(0, k as int).drop_last() =~= tv.subrange(0, k - 1));
        if tables[k - 1].0 == addr {
            return Some((&tables[k - 1].1.0, tables[k - 1].1.1));
        }
        k -= 1;
    }
    None
}

fn fall_to_exec(a: &FunctionAnalysis, end: u64) -> (r: Vec<BlockEdge>)
    ensures
        r@ == fall_to(*a, end),
{
    let mut r: Vec<BlockEdge> = Vec::new();
    if end < a.end_address {
        r.push(BlockEdge { branch_type: BranchType::UnconditionalBranch, target: end, fallthrough: true });
    }
    assert(r@ =~= fall_to(*a, end));
    r
}

/// The edges out of the basic block at position `i` of the analysis `a` of
/// the function body `code`.
pub fn block_edges(a: &FunctionAnalysis, code: &[u8], i: usize) -> (r: Vec<BlockEdge>)
    requires
        i < a.basic_block_starts@.len(),
        a.start_address <= a.basic_block_starts@[i as int],
        a.start_address + code@.len() <= u64::MAX,
    ensures
        r@ == spec_block_edges(*a, code@, i as int),
{
    let end = if i < a.basic_block_starts.len() - 1 { a.basic_block_starts[i + 1] } else { a.end_address };
    let (addr, kind) = block_last_exec(code, a.start_address, a.basic_block_starts[i], end);
    let mut r: Vec<BlockEdge> = Vec::new();
    match kind {
        InstrKind::Branch => {
            if let Some(t) = lookup_end_exec(&a.branch_targets, addr) {
                r.push(BlockEdge { branch_type: BranchType::UnconditionalBranch, target: t, fallthrough: false });
            }
        },
        InstrKind::CondBranch => {
            if let Some(t) = lookup_end_exec(&a.branch_targets, addr) {
                r.push(BlockEdge { branch_type: BranchType::TrueBranch, target: t, fallthrough: false });
                r.push(BlockEdge { branch_type: BranchType::FalseBranch, target: end, fallthrough: true });
            }
        },
        InstrKind::If => {
            match lookup_end_exec(&a.if_targets, addr) {
                Some(t) => {
                    r.push(BlockEdge { branch_type: BranchType::TrueBranch, target: end, fallthrough: true });
                    r.push(BlockEdge { branch_type: BranchType::FalseBranch, target: t, fallthrough: false });
                },
                None => {
                    r = fall_to_exec(a, end);
                },
            }
        },
        InstrKind::Else => {
            match lookup_end_exec(&a.else_targets, addr) {
                Some(t) => {
                    r.push(BlockEdge { branch_type: BranchType::UnconditionalBranch, target: t, fallthrough: false });
                },
                None => {
                    r = fall_to_exec(a, end);
                },
            }
        },
        InstrKind::Return => {
            r.push(BlockEdge { branch_type: BranchType::FunctionReturn, target: 0, fallthrough: false });
        },
        InstrKind::Unreachable => {},
        InstrKind::BrTable => {
            match lookup_table_exec(&a.br_table_targets, addr) {
                Some((labels, default)) => {
                    let mut k: usize = 0;
                    while k < labels.len()
                        invariant
                            k <= labels@.len(),
                            r@ == labels@.subrange(0, k as int).map_values(
                                |x: u64| edge(BranchType::UnconditionalBranch, x, false),
                            ),
                        decreases labels@.len() - k,
                    {
                        r.push(BlockEdge { branch_type: BranchType::UnconditionalBranch, target: labels[k], fallthrough: false });
                        assert(r@ =~= labels@.subrange(0, k + 1).map_values(
                            |x: u64| edge(BranchType::UnconditionalBranch, x, false),
                        ));
                        k += 1;
                    }
                    assert(labels@.subrange(0, k as int) =~= labels@);
                    r.push(BlockEdge { branch_type: BranchType::UnconditionalBranch, target: default, fallthrough: false });
                },
                None => {
                    r.push(BlockEdge { branch_type: BranchType::IndirectBranch, target: 0, fallthrough: false });
                },
            }
        },
        InstrKind::End => {
            if end >= a.end_address {
                r.push(BlockEdge { branch_type: BranchType::FunctionReturn, target: 0, fallthrough: false });
            } else {
                r.push(BlockEdge { branch_type: BranchType::UnconditionalBranch, target: end, fallthrough: true });
            }
        },
        _ => {
            r = fall_to_exec(a, end);
        },
    }
    assert(r@ =~= spec_edges(*a, addr, kind, end));
    r
}

} // verus!
