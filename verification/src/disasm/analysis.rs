//! Control-flow and stack analyses of a function body: where each structured
//! block ends, where each branch goes, where basic blocks start, and how deep
//! the value stack is before each instruction.
use vstd::prelude::*;
use crate::disasm::decode::{decode_at, spec_decode_at, InstrKind, Instruction, InstructionV, Operands, OperandsV};
use crate::disasm::module::{WasmFunction, WasmModule};

verus! {

/// The instructions of `code` from offset `off` on, each with its offset,
/// up to the end of `code` or the first offset where nothing decodes.
pub open spec fn stream_from(code: Seq<u8>, off: nat) -> Seq<(nat, InstructionV)>
    decreases code.len() - off,
{
    if off >= code.len() {
        Seq::empty()
    } else {
        match spec_decode_at(code, off as usize) {
            Some(i) => if 1 <= i.len && off + i.len <= code.len() {
                seq![(off, i)] + stream_from(code, (off + i.len) as nat)
            } else {
                Seq::empty()
            },
            None => Seq::empty(),
        }
    }
}

/// The instructions of a function body, each with its offset.
pub open spec fn instructions(code: Seq<u8>) -> Seq<(nat, InstructionV)> {
    stream_from(code, 0)
}

/// The address of the instruction at offset `off` of a body at `base`.
pub open spec fn addr_of(base: u64, off: nat) -> u64 {
    (base + off) as u64
}

/// The address just past an instruction.
pub open spec fn next_addr(base: u64, item: (nat, InstructionV)) -> u64 {
    (base + item.0 + item.1.len) as u64
}

proof fn lemma_stream_step(code: Seq<u8>, off: nat, i: InstructionV)
    requires
        off < code.len(),
        spec_decode_at(code, off as usize) == Some(i),
        1 <= i.len,
        off + i.len <= code.len(),
    ensures
        stream_from(code, off) == seq![(off, i)] + stream_from(code, (off + i.len) as nat),
{
}

/// The instructions processed so far and those still to come make up the body.
pub open spec fn scanned(code: Seq<u8>, done: Seq<(nat, InstructionV)>, off: nat) -> bool {
    instructions(code) == done + stream_from(code, off)
}

proof fn lemma_scanned_step(code: Seq<u8>, done: Seq<(nat, InstructionV)>, off: nat, i: InstructionV)
    requires
        scanned(code, done, off),
        off < code.len(),
        spec_decode_at(code, off as usize) == Some(i),
        1 <= i.len,
        off + i.len <= code.len(),
    ensures
        scanned(code, done.push((off, i)), (off + i.len) as nat),
{
    lemma_stream_step(code, off, i);
    assert(done + (seq![(off, i)] + stream_from(code, (off + i.len) as nat)) =~= done.push((off, i)) + stream_from(code, (off + i.len) as nat));
}

proof fn lemma_scanned_end(code: Seq<u8>, done: Seq<(nat, InstructionV)>, off: nat)
    requires
        scanned(code, done, off),
        off >= code.len() || spec_decode_at(code, off as usize) is None,
    ensures
        instructions(code) == done,
{
    assert(done + Seq::<(nat, InstructionV)>::empty() =~= done);
}

/// Block starts open by `block`, `loop` and `if`, and the (start, end) pairs
/// closed by `end`, after the given instructions: an `end` closes the most
/// recently opened block and records the address after itself.
pub open spec fn block_ends_fold(base: u64, items: Seq<(nat, InstructionV)>) -> (Seq<u64>, Seq<(u64, u64)>)
    decreases items.len(),
{
    if items.len() == 0 {
        (Seq::empty(), Seq::empty())
    } else {
        let (stack, ends) = block_ends_fold(base, items.drop_last());
        let item = items.last();
        match item.1.kind {
            InstrKind::Block | InstrKind::Loop | InstrKind::If => (stack.push(addr_of(base, item.0)), ends),
            InstrKind::End => if stack.len() > 0 {
                (stack.drop_last(), ends.push((stack.last(), next_addr(base, item))))
            } else {
                (stack, ends)
            },
            _ => (stack, ends),
        }
    }
}

/// The (start, end) address pairs of the blocks of a body at `base`, in the
/// order their `end`s come.
pub open spec fn spec_block_ends(code: Seq<u8>, base: u64) -> Seq<(u64, u64)> {
    block_ends_fold(base, instructions(code)).1
}

proof fn lemma_fold_push<A>(items: Seq<A>, x: A)
    ensures
        items.push(x).drop_last() == items,
        items.push(x).last() == x,
{
    assert(items.push(x).drop_last() =~= items);
}

/// Maps block start addresses to their corresponding end addresses.
pub fn resolve_block_indicies(code: &[u8], base_addr: u64) -> (r: Vec<(u64, u64)>)
    requires
        base_addr + code@.len() <= u64::MAX,
    ensures
        r@ == spec_block_ends(code@, base_addr),
{
    let mut ends: Vec<(u64, u64)> = Vec::new();
    let mut stack: Vec<u64> = Vec::new();
    let mut offset: usize = 0;
    let mut more = true;
    let ghost mut done: Seq<(nat, InstructionV)> = Seq::empty();
    assert(instructions(code@) =~= done + stream_from(code@, 0));
    while more && offset < code.len()
        invariant
            offset <= code@.len(),
            base_addr + code@.len() <= u64::MAX,
            scanned(code@, done, offset as nat),
            !more ==> spec_decode_at(code@, offset) is None,
            (stack@, ends@) == block_ends_fold(base_addr, done),
        decreases (if more { code@.len() - offset + 1 } else { 0 }),
    {
        let addr = base_addr + offset as u64;
        match decode_at(code, offset) {
            None => {
                more = false;
            },
            Some(instr) => {
                proof {
                    lemma_scanned_step(code@, done, offset as nat, instr@);
                    lemma_fold_push(done, (offset as nat, instr@));
                }
                match instr.kind {
                    InstrKind::Block | InstrKind::Loop | InstrKind::If => {
                        stack.push(addr);
                    },
                    InstrKind::End => {
                        if let Some(start) = stack.pop() {
                            ends.push((start, addr + instr.len as u64));
                        }
                    },
                    _ => {},
                }
                proof {
                    done = done.push((offset as nat, instr@));
                }
                offset += instr.len;
            },
        }
    }
    proof {
        lemma_scanned_end(code@, done, offset as nat);
    }
    ends
}


/// The kind of structured block a branch leaves or re-enters.
#[derive(Debug, Clone, Copy, PartialEq, Eq, Structural)]
pub enum BlockKind {
    Block,
    Loop,
    If,
}

/// An open structured block.
#[derive(Debug, Clone, Copy, PartialEq, Eq, Structural)]
pub struct BlockInfo {
    pub kind: BlockKind,
    pub start: u64,
}

/// The end recorded last for the block starting at `start`.
pub open spec fn lookup_end(ends: Seq<(u64, u64)>, start: u64) -> Option<u64>
    decreases ends.len(),
{
    if ends.len() == 0 {
        None
    } else if ends.last().0 == start {
        Some(ends.last().1)
    } else {
        lookup_end(ends.drop_last(), start)
    }
}

/// Where a branch `depth` blocks out goes: the start of a loop, the end of
/// a block or `if`; none when there are not that many open blocks or the
/// block's end is unknown.
pub open spec fn spec_resolve_branch(stack: Seq<BlockInfo>, ends: Seq<(u64, u64)>, depth: u32) -> Option<u64> {
    if stack.len() < depth + 1 {
        None
    } else {
        let b = stack[stack.len() - 1 - depth];
        if b.kind == BlockKind::Loop {
            Some(b.start)
        } else {
            lookup_end(ends, b.start)
        }
    }
}

/// The targets of all the labels, when every one of them resolves.
pub open spec fn resolve_all(stack: Seq<BlockInfo>, ends: Seq<(u64, u64)>, labels: Seq<u32>) -> Option<Seq<u64>>
    decreases labels.len(),
{
    if labels.len() == 0 {
        Some(Seq::empty())
    } else {
        match (resolve_all(stack, ends, labels.drop_last()), spec_resolve_branch(stack, ends, labels.last())) {
            (Some(ts), Some(t)) => Some(ts.push(t)),
            _ => None,
        }
    }
}

/// The open blocks, the resolved branch targets and the resolved branch
/// tables after the given instructions.
pub open spec fn branch_fold(base: u64, ends: Seq<(u64, u64)>, items: Seq<(nat, InstructionV)>) -> (Seq<BlockInfo>, Seq<(u64, u64)>, Seq<(u64, Seq<u64>, u64)>)
    decreases items.len(),
{
    if items.len() == 0 {
        (Seq::empty(), Seq::empty(), Seq::empty())
    } else {
        let (stack, bt, tt) = branch_fold(base, ends, items.drop_last());
        let item = items.last();
        let addr = addr_of(base, item.0);
        match item.1.kind {
            InstrKind::Block => (stack.push(BlockInfo { kind: BlockKind::Block, start: addr }), bt, tt),
            InstrKind::Loop => (stack.push(BlockInfo { kind: BlockKind::Loop, start: addr }), bt, tt),
            InstrKind::If => (stack.push(BlockInfo { kind: BlockKind::If, start: addr }), bt, tt),
            InstrKind::End => (if stack.len() > 0 { stack.drop_last() } else { stack }, bt, tt),
            InstrKind::Branch | InstrKind::CondBranch => match item.1.operands {
                OperandsV::Index(depth) => match spec_resolve_branch(stack, ends, depth) {
                    Some(t) => (stack, bt.push((addr, t)), tt),
                    None => (stack, bt, tt),
                },
                _ => (stack, bt, tt),
            },
            InstrKind::BrTable => match item.1.operands {
                OperandsV::BrTable { labels, default } => match (spec_resolve_branch(stack, ends, default), resolve_all(stack, ends, labels)) {
                    (Some(d), Some(ts)) => (stack, bt, tt.push((addr, ts, d))),
                    _ => (stack, bt, tt),
                },
                _ => (stack, bt, tt),
            },
            _ => (stack, bt, tt),
        }
    }
}

/// The branch-table entries as plain values.
pub open spec fn tables_view(v: Seq<(u64, (Vec<u64>, u64))>) -> Seq<(u64, Seq<u64>, u64)> {
    Seq::new(v.len(), |i: int| (v[i].0, v[i].1.0@, v[i].1.1))
}

/// The resolved (branch address, target) pairs of a body at `base`, and the
/// resolved (table address, label targets, default target) of its branch
/// tables, in instruction order, given the block ends `blocks`.
pub open spec fn spec_branch_targets(code: Seq<u8>, base: u64, blocks: Seq<(u64, u64)>) -> (Seq<(u64, u64)>, Seq<(u64, Seq<u64>, u64)>) {
    let r = branch_fold(base, blocks, instructions(code));
    (r.1, r.2)
}

pub(crate) fn lookup_end_exec(ends: &Vec<(u64, u64)>, start: u64) -> (r: Option<u64>)
    ensures
        r == lookup_end(ends@, start),
{
    let mut k = ends.len();
    assert(ends@.subrange(0, k as int) =~= ends@);
    while k > 0
        invariant
            k <= ends@.len(),
            lookup_end(ends@, start) == lookup_end(ends@.subrange(0, k as int), start),
        decreases k,
    {
        let ghost sub = ends@.subrange(0, k as int);
        assert(sub.drop_last() =~= ends@.subrange(0, k - 1));
        if ends[k - 1].0 == start {
            return Some(ends[k - 1].1);
        }
        k -= 1;
    }
    None
}

/// Where a branch `depth` blocks out goes.
pub fn resolve_branch(stack: &Vec<BlockInfo>, ends: &Vec<(u64, u64)>, depth: u32) -> (r: Option<u64>)
    ensures
        r == spec_resolve_branch(stack@, ends@, depth),
{
    if depth as usize >= stack.len() {
        return None;
    }
    let block = stack[stack.len() - 1 - depth as usize];
    match block.kind {
        BlockKind::Loop => Some(block.start),
        BlockKind::Block | BlockKind::If => lookup_end_exec(ends, block.start),
    }
}

fn resolve_labels(stack: &Vec<BlockInfo>, ends: &Vec<(u64, u64)>, labels: &Vec<u32>) -> (r: Option<Vec<u64>>)
    ensures
        match r {
            Some(ts) => resolve_all(stack@, ends@, labels@) == Some(ts@),
            None => resolve_all(stack@, ends@, labels@) is None,
        },
{
    let mut out: Vec<u64> = Vec::new();
    let mut i: usize = 0;
    while i < labels.len()
        invariant
            i <= labels@.len(),
            resolve_all(stack@, ends@, labels@.subrange(0, i as int)) == Some(out@),
        decreases labels@.len() - i,
    {
        assert(labels@.subrange(0, i + 1).drop_last() =~= labels@.subrange(0, i as int));
        match resolve_branch(stack, ends, labels[i]) {
            Some(t) => {
                out.push(t);
            },
            None => {
                proof {
                    lemma_resolve_all_stuck(stack@, ends@, labels@, (i + 1) as nat);
                }
                return None;
            },
        }
        i += 1;
    }
    assert(labels@.subrange(0, i as int) =~= labels@);
    Some(out)
}

proof fn lemma_resolve_all_stuck(stack: Seq<BlockInfo>, ends: Seq<(u64, u64)>, labels: Seq<u32>, i: nat)
    requires
        1 <= i <= labels.len(),
        resolve_all(stack, ends, labels.subrange(0, i as int)) is None,
    ensures
        resolve_all(stack, ends, labels) is None,
    decreases labels.len() - i,
{
    if i < labels.len() {
        assert(labels.subrange(0, (i + 1) as int).drop_last() =~= labels.subrange(0, i as int));
        lemma_resolve_all_stuck(stack, ends, labels, i + 1);
    } else {
        assert(labels.subrange(0, i as int) =~= labels);
    }
}

/// Resolve the targets of the branches and branch tables of a body at
/// `base`, given the block ends `blocks`.
pub fn resolve_branch_targets(code: &[u8], base_addr: u64, blocks: &Vec<(u64, u64)>) -> (r: (Vec<(u64, u64)>, Vec<(u64, (Vec<u64>, u64))>))
    requires
        base_addr + code@.len() <= u64::MAX,
    ensures
        (r.0@, tables_view(r.1@)) == spec_branch_targets(code@, base_addr, blocks@),
{
    let mut branch_targets: Vec<(u64, u64)> = Vec::new();
    let mut br_table_targets: Vec<(u64, (Vec<u64>, u64))> = Vec::new();
    let mut block_stack: Vec<BlockInfo> = Vec::new();
    let mut offset: usize = 0;
    let mut more = true;
    let ghost mut done: Seq<(nat, InstructionV)> = Seq::empty();
    assert(instructions(code@) =~= done + stream_from(code@, 0));
    assert(tables_view(br_table_targets@) =~= Seq::<(u64, Seq<u64>, u64)>::empty());
    while more && offset < code.len()
        invariant
            offset <= code@.len(),
            base_addr + code@.len() <= u64::MAX,
            scanned(code@, done, offset as nat),
            !more ==> spec_decode_at(code@, offset) is None,
            (block_stack@, branch_targets@, tables_view(br_table_targets@)) == branch_fold(base_addr, blocks@, done),
        decreases (if more { code@.len() - offset + 1 } else { 0 }),
    {
        let addr = base_addr + offset as u64;
        match decode_at(code, offset) {
            None => {
                more = false;
            },
            Some(instr) => {
                proof {
                    lemma_scanned_step(code@, done, offset as nat, instr@);
                    lemma_fold_push(done, (offset as nat, instr@));
                }
                let ghost tv = tables_view(br_table_targets@);
                match instr.kind {
                    InstrKind::Block => {
                        block_stack.push(BlockInfo { kind: BlockKind::Block, start: addr });
                    },
                    InstrKind::Loop => {
                        block_stack.push(BlockInfo { kind: BlockKind::Loop, start: addr });
                    },
                    InstrKind::If => {
                        block_stack.push(BlockInfo { kind: BlockKind::If, start: addr });
                    },
                    InstrKind::End => {
                        block_stack.pop();
                    },
                    InstrKind::Branch | InstrKind::CondBranch => {
                        if let Operands::Index(depth) = instr.operands {
                            if let Some(target) = resolve_branch(&block_stack, blocks, depth) {
                                branch_targets.push((addr, target));
                            }
                        }
                    },
                    InstrKind::BrTable => {
                        if let Operands::BrTable { labels, default } = &instr.operands {
                            if let Some(default_target) = resolve_branch(&block_stack, blocks, *default) {
                                if let Some(label_targets) = resolve_labels(&block_stack, blocks, labels) {
                                    let ghost lt = label_targets@;
                                    br_table_targets.push((addr, (label_targets, default_target)));
                                    assert(tables_view(br_table_targets@) =~= tv.push((addr, lt, default_target)));
                                }
                            }
                        }
                    },
                    _ => {},
                }
                proof {
                    done = done.push((offset as nat, instr@));
                }
                offset += instr.len;
            },
        }
    }
    proof {
        lemma_scanned_end(code@, done, offset as nat);
    }
    (branch_targets, br_table_targets)
}


/// An open block, with the address and length of its `else` once seen.
#[derive(Debug, Clone, Copy)]
pub struct IfBlockInfo {
    pub kind: BlockKind,
    pub start: u64,
    pub else_info: Option<(u64, usize)>,
}

/// The open blocks, the `if` false-branch targets and the `else` jump
/// targets after the given instructions.  An `else` marks the innermost open
/// block when that is an `if`; an `end` closing an `if` records where its
/// false branch goes (after the `else`, or after the `end`) and, with an
/// `else`, that the `else` jumps after the `end`.
pub open spec fn if_else_fold(base: u64, items: Seq<(nat, InstructionV)>) -> (Seq<IfBlockInfo>, Seq<(u64, u64)>, Seq<(u64, u64)>)
    decreases items.len(),
{
    if items.len() == 0 {
        (Seq::empty(), Seq::empty(), Seq::empty())
    } else {
        let (stack, it, et) = if_else_fold(base, items.drop_last());
        let item = items.last();
        let addr = addr_of(base, item.0);
        match item.1.kind {
            InstrKind::Block => (stack.push(IfBlockInfo { kind: BlockKind::Block, start: addr, else_info: None }), it, et),
            InstrKind::Loop => (stack.push(IfBlockInfo { kind: BlockKind::Loop, start: addr, else_info: None }), it, et),
            InstrKind::If => (stack.push(IfBlockInfo { kind: BlockKind::If, start: addr, else_info: None }), it, et),
            InstrKind::Else => if stack.len() > 0 && stack.last().kind == BlockKind::If {
                (stack.update(stack.len() - 1, IfBlockInfo { else_info: Some((addr, item.1.len)), ..stack.last() }), it, et)
            } else {
                (stack, it, et)
            },
            InstrKind::End => if stack.len() > 0 {
                let b = stack.last();
                let end_addr = next_addr(base, item);
                if b.kind == BlockKind::If {
                    match b.else_info {
                        Some((ea, el)) => (stack.drop_last(), it.push((b.start, (ea + el) as u64)), et.push((ea, end_addr))),
                        None => (stack.drop_last(), it.push((b.start, end_addr)), et),
                    }
                } else {
                    (stack.drop_last(), it, et)
                }
            } else {
                (stack, it, et)
            },
            _ => (stack, it, et),
        }
    }
}

/// The (`if` address, false-branch target) and (`else` address, jump target)
/// pairs of a body at `base`, in the order of the `end`s that close them.
pub open spec fn spec_if_else_targets(code: Seq<u8>, base: u64) -> (Seq<(u64, u64)>, Seq<(u64, u64)>) {
    let r = if_else_fold(base, instructions(code));
    (r.1, r.2)
}

/// Resolve the control-flow targets of `if` and `else` in a body at `base`.
pub fn resolve_if_else_targets(code: &[u8], base_addr: u64) -> (r: (Vec<(u64, u64)>, Vec<(u64, u64)>))
    requires
        base_addr + code@.len() <= u64::MAX,
    ensures
        (r.0@, r.1@) == spec_if_else_targets(code@, base_addr),
{
    let mut if_targets: Vec<(u64, u64)> = Vec::new();
    let mut else_targets: Vec<(u64, u64)> = Vec::new();
    let mut stack: Vec<IfBlockInfo> = Vec::new();
    let mut offset: usize = 0;
    let mut more = true;
    let ghost mut done: Seq<(nat, InstructionV)> = Seq::empty();
    assert(instructions(code@) =~= done + stream_from(code@, 0));
    while more && offset < code.len()
        invariant
            offset <= code@.len(),
            base_addr + code@.len() <= u64::MAX,
            scanned(code@, done, offset as nat),
            !more ==> spec_decode_at(code@, offset) is None,
            (stack@, if_targets@, else_targets@) == if_else_fold(base_addr, done),
            forall|i: int| 0 <= i < stack@.len() ==> ((#[trigger] stack@[i]).else_info matches Some((a, l))
                ==> a + l <= base_addr + offset),
        decreases (if more { code@.len() - offset + 1 } else { 0 }),
    {
        let addr = base_addr + offset as u64;
        match decode_at(code, offset) {
            None => {
                more = false;
            },
            Some(instr) => {
                proof {
                    lemma_scanned_step(code@, done, offset as nat, instr@);
                    lemma_fold_push(done, (offset as nat, instr@));
                }
                match instr.kind {
                    InstrKind::Block => {
                        stack.push(IfBlockInfo { kind: BlockKind::Block, start: addr, else_info: None });
                    },
                    InstrKind::Loop => {
                        stack.push(IfBlockInfo { kind: BlockKind::Loop, start: addr, else_info: None });
                    },
                    InstrKind::If => {
                        stack.push(IfBlockInfo { kind: BlockKind::If, start: addr, else_info: None });
                    },
                    InstrKind::Else => {
                        let n = stack.len();
                        if n > 0 && stack[n - 1].kind == BlockKind::If {
                            let b = stack[n - 1];
                            stack.set(n - 1, IfBlockInfo { else_info: Some((addr, instr.len)), ..b });
                        }
                    },
                    InstrKind::End => {
                        if let Some(block) = stack.pop() {
                            if block.kind == BlockKind::If {
                                let end_addr = addr + instr.len as u64;
                                match block.else_info {
                                    Some((else_addr, else_len)) => {
                                        if_targets.push((block.start, else_addr + else_len as u64));
                                        else_targets.push((else_addr, end_addr));
                                    },
                                    None => {
                                        if_targets.push((block.start, end_addr));
                                    },
                                }
                            }
                        }
                    },
                    _ => {},
                }
                proof {
                    done = done.push((offset as nat, instr@));
                }
                offset += instr.len;
            },
        }
    }
    proof {
        lemma_scanned_end(code@, done, offset as nat);
    }
    (if_targets, else_targets)
}

/// The first function of the list with the given index.
pub open spec fn find_function(fs: Seq<WasmFunction>, index: u32) -> Option<WasmFunction>
    decreases fs.len(),
{
    if fs.len() == 0 {
        None
    } else if fs[0].index == index {
        Some(fs[0])
    } else {
        find_function(fs.drop_first(), index)
    }
}

/// How many values an instruction pops and pushes: a call to a known
/// function its parameter and result counts, an indirect call two and one,
/// a call to an unknown function none.
pub open spec fn stack_effect(fs: Seq<WasmFunction>, i: InstructionV) -> (u32, u32) {
    match i.kind {
        InstrKind::Const | InstrKind::LocalGet | InstrKind::GlobalGet => (0, 1),
        InstrKind::LocalSet | InstrKind::GlobalSet | InstrKind::Drop => (1, 0),
        InstrKind::LocalTee | InstrKind::Load | InstrKind::TableGet | InstrKind::UnaryOp | InstrKind::Test => (1, 1),
        InstrKind::Select => (3, 1),
        InstrKind::Store | InstrKind::TableSet => (2, 0),
        InstrKind::MemoryFill | InstrKind::MemoryCopy => (3, 0),
        InstrKind::BinOp | InstrKind::Compare => (2, 1),
        InstrKind::CondBranch | InstrKind::BrTable | InstrKind::If => (1, 0),
        InstrKind::Call => match i.operands {
            OperandsV::Index(f) => match find_function(fs, f) {
                Some(func) => (func.param_count as u32, func.return_count as u32),
                None => (0, 0),
            },
            OperandsV::Indexes(_, _) => (2, 1),
            _ => (0, 0),
        },
        _ => (0, 0),
    }
}

/// `a - b`, or 0 when `b` is larger.
pub open spec fn sat_sub(a: u32, b: u32) -> u32 {
    if a >= b { (a - b) as u32 } else { 0 }
}

/// `a + b`, or `u32::MAX` when that overflows.
pub open spec fn sat_add(a: u32, b: u32) -> u32 {
    if a + b <= u32::MAX { (a + b) as u32 } else { u32::MAX }
}

/// The stack depth after the given instructions, and the (address, depth
/// before it) of each of them.
pub open spec fn depth_fold(base: u64, fs: Seq<WasmFunction>, items: Seq<(nat, InstructionV)>) -> (u32, Seq<(u64, u32)>)
    decreases items.len(),
{
    if items.len() == 0 {
        (0, Seq::empty())
    } else {
        let (depth, depths) = depth_fold(base, fs, items.drop_last());
        let item = items.last();
        let (pops, pushes) = stack_effect(fs, item.1);
        (sat_add(sat_sub(depth, pops), pushes), depths.push((addr_of(base, item.0), depth)))
    }
}

/// The stack depth before each instruction of a body at `base`, in
/// instruction order, counted from zero with the pops and pushes of each
/// instruction (floored at zero, capped at `u32::MAX`).
pub open spec fn spec_stack_depths(code: Seq<u8>, base: u64, fs: Seq<WasmFunction>) -> Seq<(u64, u32)> {
    depth_fold(base, fs, instructions(code)).1
}

fn call_counts(fs: &Vec<WasmFunction>, index: u32) -> (r: (u32, u32))
    ensures
        r == match find_function(fs@, index) {
            Some(func) => (func.param_count as u32, func.return_count as u32),
            None => (0u32, 0u32),
        },
{
    let mut i: usize = 0;
    assert(fs@.subrange(0, fs@.len() as int) =~= fs@);
    while i < fs.len()
        invariant
            i <= fs@.len(),
            find_function(fs@, index) == find_function(fs@.subrange(i as int, fs@.len() as int), index),
        decreases fs@.len() - i,
    {
        let ghost rest = fs@.subrange(i as int, fs@.len() as int);
        assert(rest.drop_first() =~= fs@.subrange(i + 1, fs@.len() as int));
        if fs[i].index == index {
            assert(rest[0] == fs@[i as int]);
            return (fs[i].param_count as u32, fs[i].return_count as u32);
        }
        i += 1;
    }
    (0, 0)
}

/// Analyze stack depths at each instruction of a body at `base`: the depth
/// before each instruction executes.
pub fn analyze_stack_depths(code: &[u8], base_addr: u64, module: &WasmModule) -> (r: Vec<(u64, u32)>)
    requires
        base_addr + code@.len() <= u64::MAX,
    ensures
        r@ == spec_stack_depths(code@, base_addr, module.functions@),
{
    let mut depths: Vec<(u64, u32)> = Vec::new();
    let mut depth: u32 = 0;
    let mut offset: usize = 0;
    let mut more = true;
    let ghost fs = module.functions@;
    let ghost mut done: Seq<(nat, InstructionV)> = Seq::empty();
    assert(instructions(code@) =~= done + stream_from(code@, 0));
    while more && offset < code.len()
        invariant
            offset <= code@.len(),
            base_addr + code@.len() <= u64::MAX,
            fs == module.functions@,
            scanned(code@, done, offset as nat),
            !more ==> spec_decode_at(code@, offset) is None,
            (depth, depths@) == depth_fold(base_addr, fs, done),
        decreases (if more { code@.len() - offset + 1 } else { 0 }),
    {
        let addr = base_addr + offset as u64;
        match decode_at(code, offset) {
            None => {
                more = false;
            },
            Some(instr) => {
                proof {
                    lemma_scanned_step(code@, done, offset as nat, instr@);
                    lemma_fold_push(done, (offset as nat, instr@));
                }
                depths.push((addr, depth));
                let (pops, pushes): (u32, u32) = match instr.kind {
                    InstrKind::Const | InstrKind::LocalGet | InstrKind::GlobalGet => (0, 1),
                    InstrKind::LocalSet | InstrKind::GlobalSet | InstrKind::Drop => (1, 0),
                    InstrKind::LocalTee | InstrKind::Load | InstrKind::TableGet | InstrKind::UnaryOp | InstrKind::Test => (1, 1),
                    InstrKind::Select => (3, 1),
                    InstrKind::Store | InstrKind::TableSet => (2, 0),
                    InstrKind::MemoryFill | InstrKind::MemoryCopy => (3, 0),
                    InstrKind::BinOp | InstrKind::Compare => (2, 1),
                    InstrKind::CondBranch | InstrKind::BrTable | InstrKind::If => (1, 0),
                    InstrKind::Call => match instr.operands {
                        Operands::Index(func_idx) => call_counts(&module.functions, func_idx),
                        Operands::Indexes(_, _) => (2, 1),
                        _ => (0, 0),
                    },
                    _ => (0, 0),
                };
                depth = depth.saturating_sub(pops);
                depth = depth.saturating_add(pushes);
                proof {
                    done = done.push((offset as nat, instr@));
                }
                offset += instr.len;
            },
        }
    }
    proof {
        lemma_scanned_end(code@, done, offset as nat);
    }
    depths
}


/// The targets recorded in a list of (source, target) pairs.
pub open spec fn values(v: Seq<(u64, u64)>) -> Seq<u64> {
    v.map_values(|p: (u64, u64)| p.1)
}

/// The label targets and default target of each branch table, in order.
pub open spec fn table_targets(tt: Seq<(u64, Seq<u64>, u64)>) -> Seq<u64>
    decreases tt.len(),
{
    if tt.len() == 0 {
        Seq::empty()
    } else {
        table_targets(tt.drop_last()) + tt.last().1 + seq![tt.last().2]
    }
}

/// Instructions after which a new basic block starts.
pub open spec fn ends_flow(k: InstrKind) -> bool {
    k == InstrKind::Else || k == InstrKind::Block || k == InstrKind::Loop || k == InstrKind::If
        || k == InstrKind::Branch || k == InstrKind::CondBranch || k == InstrKind::BrTable || k == InstrKind::End
        || k == InstrKind::Return || k == InstrKind::Unreachable
}

/// The basic-block starts the instructions themselves give: each `else`,
/// and the address after each control-flow instruction that lies below `limit`.
pub open spec fn flow_starts(base: u64, limit: int, items: Seq<(nat, InstructionV)>) -> Seq<u64>
    decreases items.len(),
{
    if items.len() == 0 {
        Seq::empty()
    } else {
        let item = items.last();
        let next = next_addr(base, item);
        flow_starts(base, limit, items.drop_last())
            + (if item.1.kind == InstrKind::Else { seq![addr_of(base, item.0)] } else { Seq::empty() })
            + (if ends_flow(item.1.kind) && next < limit { seq![next] } else { Seq::empty() })
    }
}

/// Every address where a basic block may start, with repetitions: the entry,
/// every branch, `if`, `else` and branch-table target, and the starts the
/// instructions give.
pub open spec fn start_candidates(
    code: Seq<u8>,
    base: u64,
    bt: Seq<(u64, u64)>,
    it: Seq<(u64, u64)>,
    et: Seq<(u64, u64)>,
    tt: Seq<(u64, Seq<u64>, u64)>,
) -> Seq<u64> {
    seq![base] + values(bt) + values(it) + values(et) + table_targets(tt) + flow_starts(base, base + code.len(), instructions(code))
}

/// `r` lists the distinct elements of `v` in ascending order.
pub open spec fn sorted_distinct_of(r: Seq<u64>, v: Seq<u64>) -> bool {
    &&& forall|i: int, j: int| 0 <= i < j < r.len() ==> r[i] < r[j]
    &&& forall|x: u64| r.contains(x) <==> v.contains(x)
}

fn push_targets(cands: &mut Vec<u64>, pairs: &Vec<(u64, u64)>)
    ensures
        final(cands)@ == old(cands)@ + values(pairs@),
{
    let ghost c0 = cands@;
    let mut i: usize = 0;
    while i < pairs.len()
        invariant
            i <= pairs@.len(),
            cands@ == c0 + values(pairs@.subrange(0, i as int)),
        decreases pairs@.len() - i,
    {
        cands.push(pairs[i].1);
        assert(values(pairs@.subrange(0, i + 1)) =~= values(pairs@.subrange(0, i as int)).push(pairs@[i as int].1));
        assert(c0 + values(pairs@.subrange(0, i + 1)) =~= (c0 + values(pairs@.subrange(0, i as int))).push(pairs@[i as int].1));
        i += 1;
    }
    assert(pairs@.subrange(0, i as int) =~= pairs@);
}

fn push_table_targets(cands: &mut Vec<u64>, tables: &Vec<(u64, (Vec<u64>, u64))>)
    ensures
        final(cands)@ == old(cands)@ + table_targets(tables_view(tables@)),
{
    let ghost c0 = cands@;
    let mut i: usize = 0;
    while i < tables.len()
        invariant
            i <= tables@.len(),
            cands@ == c0 + table_targets(tables_view(tables@.subrange(0, i as int))),
        decreases tables@.len() - i,
    {
        let ghost before = cands@;
        let labels = &tables[i].1.0;
        let mut j: usize = 0;
        while j < labels.len()
            invariant
                j <= labels@.len(),
                cands@ == before + labels@.subrange(0, j as int),
            decreases labels@.len() - j,
        {
            cands.push(labels[j]);
            assert(before + labels@.subrange(0, j + 1) =~= (before + labels@.subrange(0, j as int)).push(labels@[j as int]));
            j += 1;
        }
        cands.push(tables[i].1.1);
        proof {
            let tv = tables_view(tables@.subrange(0, i + 1));
            assert(tv.drop_last() =~= tables_view(tables@.subrange(0, i as int)));
            assert(tv.last() == (tables@[i as int].0, labels@, tables@[i as int].1.1));
            assert(labels@.subrange(0, j as int) =~= labels@);
            assert(c0 + table_targets(tv) =~= before + labels@ + seq![tables@[i as int].1.1]);
        }
        i += 1;
    }
    assert(tables@.subrange(0, i as int) =~= tables@);
}

/// `x` lies above the bound (any `x` does when there is none).
pub open spec fn above(lower: Option<u64>, x: u64) -> bool {
    match lower {
        Some(l) => x > l,
        None => true,
    }
}

/// The smallest element of `v` above `lower` (any, when `lower` is `None`).
fn least_above(v: &Vec<u64>, lower: Option<u64>) -> (r: Option<u64>)
    ensures
        r is Some ==> v@.contains(r->0) && above(lower, r->0)
            && forall|i: int| 0 <= i < v@.len() && above(lower, #[trigger] v@[i]) ==> r->0 <= v@[i],
        r is None ==> forall|i: int| 0 <= i < v@.len() ==> !above(lower, #[trigger] v@[i]),
{
    let mut best: Option<u64> = None;
    let mut i: usize = 0;
    while i < v.len()
        invariant
            i <= v@.len(),
            best is Some ==> v@.contains(best->0) && above(lower, best->0)
                && forall|j: int| 0 <= j < i && above(lower, #[trigger] v@[j]) ==> best->0 <= v@[j],
            best is None ==> forall|j: int| 0 <= j < i ==> !above(lower, #[trigger] v@[j]),
        decreases v@.len() - i,
    {
        let x = v[i];
        let above = match lower {
            Some(l) => x > l,
            None => true,
        };
        if above {
            match best {
                Some(m) => {
                    if x < m {
                        best = Some(x);
                    }
                },
                None => {
                    best = Some(x);
                },
            }
        }
        i += 1;
    }
    best
}

/// The distinct elements of `v` in ascending order.
fn sorted_distinct(v: &Vec<u64>) -> (r: Vec<u64>)
    ensures
        sorted_distinct_of(r@, v@),
{
    let mut out: Vec<u64> = Vec::new();
    let mut last: Option<u64> = None;
    loop
        invariant
            forall|i: int, j: int| 0 <= i < j < out@.len() ==> out@[i] < out@[j],
            last is None <==> out@.len() == 0,
            last is Some ==> out@.last() == last->0,
            forall|x: u64| out@.contains(x) <==> (v@.contains(x) && last is Some && x <= last->0),
        ensures
            forall|x: u64| v@.contains(x) ==> last is Some && x <= last->0,
        decreases (if last is Some { u64::MAX - last->0 + 1 } else { u64::MAX + 2 }),
    {
        match least_above(v, last) {
            None => {
                proof {
                    assert forall|x: u64| v@.contains(x) implies last is Some && x <= last->0 by {
                        let i = choose|i: int| 0 <= i < v@.len() && v@[i] == x;
                        assert(!above(last, v@[i]));
                    }
                }
                break;
            },
            Some(m) => {
                let ghost old_out = out@;
                out.push(m);
                proof {
                    assert forall|x: u64| out@.contains(x) <==> (v@.contains(x) && x <= m) by {
                        if out@.contains(x) {
                            let i = choose|i: int| 0 <= i < out@.len() && out@[i] == x;
                            if i < old_out.len() {
                                assert(old_out.contains(x));
                            }
                        }
                        if v@.contains(x) && x <= m {
                            let i = choose|i: int| 0 <= i < v@.len() && v@[i] == x;
                            if x < m {
                                assert(old_out.contains(x));
                                let k = choose|k: int| 0 <= k < old_out.len() && old_out[k] == x;
                                assert(out@[k] == x);
                            } else {
                                assert(out@[old_out.len() as int] == x);
                            }
                        }
                    }
                }
                last = Some(m);
            },
        }
    }
    out
}

/// Collect the addresses where basic blocks start in a body at `base`: the
/// entry, all branch, `if`, `else` and branch-table targets, each `else`, and
/// the address after each control-flow instruction inside the body; sorted,
/// each once.
pub fn resolve_basic_blocks_with_br_table(
    code: &[u8],
    base_addr: u64,
    branch_targets: &Vec<(u64, u64)>,
    if_targets: &Vec<(u64, u64)>,
    else_targets: &Vec<(u64, u64)>,
    br_table_targets: &Vec<(u64, (Vec<u64>, u64))>,
) -> (r: Vec<u64>)
    requires
        base_addr + code@.len() <= u64::MAX,
    ensures
        sorted_distinct_of(
            r@,
            start_candidates(code@, base_addr, branch_targets@, if_targets@, else_targets@, tables_view(br_table_targets@)),
        ),
{
    let mut cands: Vec<u64> = Vec::new();
    cands.push(base_addr);
    push_targets(&mut cands, branch_targets);
    push_targets(&mut cands, if_targets);
    push_targets(&mut cands, else_targets);
    push_table_targets(&mut cands, br_table_targets);
    let ghost c0 = cands@;
    let limit: u64 = base_addr + code.len() as u64;
    let mut offset: usize = 0;
    let mut more = true;
    let ghost mut done: Seq<(nat, InstructionV)> = Seq::empty();
    assert(instructions(code@) =~= done + stream_from(code@, 0));
    assert(c0 + flow_starts(base_addr, limit as int, done) =~= c0);
    while more && offset < code.len()
        invariant
            offset <= code@.len(),
            base_addr + code@.len() <= u64::MAX,
            limit == base_addr + code@.len(),
            scanned(code@, done, offset as nat),
            !more ==> spec_decode_at(code@, offset) is None,
            cands@ == c0 + flow_starts(base_addr, limit as int, done),
        decreases (if more { code@.len() - offset + 1 } else { 0 }),
    {
        let addr = base_addr + offset as u64;
        match decode_at(code, offset) {
            None => {
                more = false;
            },
            Some(instr) => {
                proof {
                    lemma_scanned_step(code@, done, offset as nat, instr@);
                    lemma_fold_push(done, (offset as nat, instr@));
                }
                let ghost before = cands@;
                let next = addr + instr.len as u64;
                let in_function = next < limit;
                match instr.kind {
                    InstrKind::Else => {
                        cands.push(addr);
                        if in_function {
                            cands.push(next);
                        }
                    },
                    InstrKind::Block | InstrKind::Loop | InstrKind::If | InstrKind::Branch | InstrKind::CondBranch
                    | InstrKind::BrTable | InstrKind::End | InstrKind::Return | InstrKind::Unreachable => {
                        if in_function {
                            cands.push(next);
                        }
                    },
                    _ => {},
                }
                proof {
                    let item = (offset as nat, instr@);
                    let nd = done.push(item);
                    assert(cands@ =~= before + (if item.1.kind == InstrKind::Else { seq![addr_of(base_addr, item.0)] } else { Seq::empty() })
                        + (if ends_flow(item.1.kind) && next_addr(base_addr, item) < limit as int { seq![next_addr(base_addr, item)] } else { Seq::empty() }));
                    assert(c0 + flow_starts(base_addr, limit as int, nd) =~= before + (if item.1.kind == InstrKind::Else { seq![addr_of(base_addr, item.0)] } else { Seq::empty() })
                        + (if ends_flow(item.1.kind) && next_addr(base_addr, item) < limit as int { seq![next_addr(base_addr, item)] } else { Seq::empty() }));
                    done = nd;
                }
                offset += instr.len;
            },
        }
    }
    proof {
        lemma_scanned_end(code@, done, offset as nat);
        assert(cands@ =~= start_candidates(code@, base_addr, branch_targets@, if_targets@, else_targets@, tables_view(br_table_targets@)));
    }
    sorted_distinct(&cands)
}


/// Basic-block starts with `if` and `else` targets but no branch tables.
pub fn resolve_basic_blocks_with_if(
    code: &[u8],
    base_addr: u64,
    branch_targets: &Vec<(u64, u64)>,
    if_targets: &Vec<(u64, u64)>,
    else_targets: &Vec<(u64, u64)>,
) -> (r: Vec<u64>)
    requires
        base_addr + code@.len() <= u64::MAX,
    ensures
        sorted_distinct_of(r@, start_candidates(code@, base_addr, branch_targets@, if_targets@, else_targets@, Seq::empty())),
{
    let none: Vec<(u64, (Vec<u64>, u64))> = Vec::new();
    assert(tables_view(none@) =~= Seq::<(u64, Seq<u64>, u64)>::empty());
    resolve_basic_blocks_with_br_table(code, base_addr, branch_targets, if_targets, else_targets, &none)
}

/// Basic-block starts from branch targets and the instructions alone.
pub fn resolve_basic_blocks(code: &[u8], base_addr: u64, branch_targets: &Vec<(u64, u64)>) -> (r: Vec<u64>)
    requires
        base_addr + code@.len() <= u64::MAX,
    ensures
        sorted_distinct_of(r@, start_candidates(code@, base_addr, branch_targets@, Seq::empty(), Seq::empty(), Seq::empty())),
{
    let no_ifs: Vec<(u64, u64)> = Vec::new();
    let no_elses: Vec<(u64, u64)> = Vec::new();
    resolve_basic_blocks_with_if(code, base_addr, branch_targets, &no_ifs, &no_elses)
}

/// The analysis of one function.
#[derive(Debug)]
pub struct FunctionAnalysis {
    pub start_address: u64,
    pub end_address: u64,
    /// Number of function parameters. In WASM, locals 0..param_count are the parameters.
    pub param_count: usize,
    /// (block start address, block end address), in the order the blocks end.
    pub blocks: Vec<(u64, u64)>,
    /// (branch instruction address, target address).
    pub branch_targets: Vec<(u64, u64)>,
    /// (`if` instruction address, false-branch target: after the `else` or the `end`).
    pub if_targets: Vec<(u64, u64)>,
    /// (`else` instruction address, address after the `end`): where the true branch continues.
    pub else_targets: Vec<(u64, u64)>,
    /// (`br_table` address, (target of each label, default target)).
    pub br_table_targets: Vec<(u64, (Vec<u64>, u64))>,
    /// Sorted addresses where basic blocks begin.
    pub basic_block_starts: Vec<u64>,
    /// (instruction address, stack depth before it).
    pub instruction_stack_depths: Vec<(u64, u32)>,
}

/// `a` is the analysis of the body `code` at `base` with `param_count`
/// parameters, calls resolved against the functions `fs`.
pub open spec fn is_function_analysis(a: FunctionAnalysis, code: Seq<u8>, base: u64, param_count: usize, fs: Seq<WasmFunction>) -> bool {
    &&& a.start_address == base
    &&& a.end_address == base + code.len()
    &&& a.param_count == param_count
    &&& a.blocks@ == spec_block_ends(code, base)
    &&& (a.branch_targets@, tables_view(a.br_table_targets@)) == spec_branch_targets(code, base, a.blocks@)
    &&& (a.if_targets@, a.else_targets@) == spec_if_else_targets(code, base)
    &&& sorted_distinct_of(
        a.basic_block_starts@,
        start_candidates(code, base, a.branch_targets@, a.if_targets@, a.else_targets@, tables_view(a.br_table_targets@)),
    )
    &&& a.instruction_stack_depths@ == spec_stack_depths(code, base, fs)
}

/// Analyze the body `code` of a function at `base_addr`.
pub fn analyze_function(code: &[u8], base_addr: u64, param_count: usize, module: &WasmModule) -> (r: FunctionAnalysis)
    requires
        base_addr + code@.len() <= u64::MAX,
    ensures
        is_function_analysis(r, code@, base_addr, param_count, module.functions@),
{
    let blocks = resolve_block_indicies(code, base_addr);
    let (branch_targets, br_table_targets) = resolve_branch_targets(code, base_addr, &blocks);
    let (if_targets, else_targets) = resolve_if_else_targets(code, base_addr);
    let basic_block_starts = resolve_basic_blocks_with_br_table(
        code,
        base_addr,
        &branch_targets,
        &if_targets,
        &else_targets,
        &br_table_targets,
    );
    let instruction_stack_depths = analyze_stack_depths(code, base_addr, module);
    FunctionAnalysis {
        start_address: base_addr,
        end_address: base_addr + code.len() as u64,
        param_count,
        blocks,
        branch_targets,
        if_targets,
        else_targets,
        br_table_targets,
        basic_block_starts,
        instruction_stack_depths,
    }
}

/// Each function address occurs once.
pub open spec fn addrs_unique(v: Seq<(u64, FunctionAnalysis)>) -> bool {
    forall|i: int, j: int| 0 <= i < j < v.len() ==> (#[trigger] v[i]).0 != (#[trigger] v[j]).0
}

/// The analyses of the functions of one module.
pub struct WasmModuleAnalysis {
    pub module: WasmModule,
    /// (function address, analysis), each address once.
    pub functions: Vec<(u64, FunctionAnalysis)>,
}

impl WasmModuleAnalysis {
    pub fn new(module: WasmModule) -> (r: WasmModuleAnalysis)
        ensures
            r.module == module,
            r.functions@.len() == 0,
    {
        WasmModuleAnalysis { module, functions: Vec::new() }
    }

    /// Analyze the function at `func_addr` and record the analysis, replacing
    /// the one recorded before for that address.
    pub fn analyze_function(&mut self, func_addr: u64, code: &[u8], param_count: usize)
        requires
            func_addr + code@.len() <= u64::MAX,
            addrs_unique(old(self).functions@),
        ensures
            final(self).module == old(self).module,
            addrs_unique(final(self).functions@),
            (exists|j: int| 0 <= j < old(self).functions@.len() && old(self).functions@[j].0 == func_addr) ==> {
                &&& final(self).functions@.len() == old(self).functions@.len()
                &&& forall|i: int| 0 <= i < old(self).functions@.len() ==> {
                    let o = #[trigger] old(self).functions@[i];
                    let n = final(self).functions@[i];
                    &&& o.0 != func_addr ==> n == o
                    &&& o.0 == func_addr ==> n.0 == func_addr
                        && is_function_analysis(n.1, code@, func_addr, param_count, old(self).module.functions@)
                }
            },
            !(exists|j: int| 0 <= j < old(self).functions@.len() && old(self).functions@[j].0 == func_addr) ==> {
                let n = final(self).functions@;
                &&& n.len() == old(self).functions@.len() + 1
                &&& forall|i: int| 0 <= i < old(self).functions@.len() ==> n[i] == old(self).functions@[i]
                &&& n.last().0 == func_addr
                &&& is_function_analysis(n.last().1, code@, func_addr, param_count, old(self).module.functions@)
            },
    {
        let analysis = analyze_function(code, func_addr, param_count, &self.module);
        let mut k: usize = 0;
        while k < self.functions.len()
            invariant
                k <= self.functions@.len(),
                self.functions == old(self).functions,
                self.module == old(self).module,
                addrs_unique(self.functions@),
                is_function_analysis(analysis, code@, func_addr, param_count, old(self).module.functions@),
                forall|i: int| 0 <= i < k ==> (#[trigger] self.functions@[i]).0 != func_addr,
            decreases self.functions@.len() - k,
        {
            if self.functions[k].0 == func_addr {
                let ghost before = self.functions@;
                self.functions.set(k, (func_addr, analysis));
                proof {
                    assert forall|i: int, j: int| 0 <= i < j < self.functions@.len()
                        implies (#[trigger] self.functions@[i]).0 != (#[trigger] self.functions@[j]).0 by {
                        assert(before[i].0 == self.functions@[i].0 && before[j].0 == self.functions@[j].0);
                    }
                    assert forall|i: int| 0 <= i < before.len() && before[i].0 == func_addr implies i == k by {
                        if i != k {
                            if i < k {
                                assert(before[i].0 != before[k as int].0);
                            } else {
                                assert(before[k as int].0 != before[i].0);
                            }
                        }
                    }
                }
                return;
            }
            k += 1;
        }
        let ghost before = self.functions@;
        self.functions.push((func_addr, analysis));
        proof {
            assert forall|i: int, j: int| 0 <= i < j < self.functions@.len()
                implies (#[trigger] self.functions@[i]).0 != (#[trigger] self.functions@[j]).0 by {
                if j < before.len() {
                    assert(before[i] == self.functions@[i] && before[j] == self.functions@[j]);
                } else {
                    assert(before[i] == self.functions@[i]);
                }
            }
        }
    }

    /// The analysis of the function whose range holds `instruction_addr`.
    pub fn get_function_analysis_for_instruction(&self, instruction_addr: u64) -> (r: Option<&FunctionAnalysis>)
        ensures
            r matches Some(a) ==> exists|i: int| 0 <= i < self.functions@.len()
                && (#[trigger] self.functions@[i]).1 == *a
                && self.functions@[i].0 <= instruction_addr < a.end_address,
            r is None ==> forall|i: int| 0 <= i < self.functions@.len()
                ==> !((#[trigger] self.functions@[i]).0 <= instruction_addr < self.functions@[i].1.end_address),
    {
        let mut k: usize = 0;
        while k < self.functions.len()
            invariant
                k <= self.functions@.len(),
                forall|i: int| 0 <= i < k
                    ==> !((#[trigger] self.functions@[i]).0 <= instruction_addr < self.functions@[i].1.end_address),
            decreases self.functions@.len() - k,
        {
            let entry = &self.functions[k];
            if instruction_addr >= entry.0 && instruction_addr < entry.1.end_address {
                return Some(&entry.1);
            }
            k += 1;
        }
        None
    }

    /// The analysis recorded for the function at `func_addr`.
    pub fn get_function_analysis(&self, func_addr: u64) -> (r: Option<&FunctionAnalysis>)
        ensures
            r matches Some(a) ==> exists|i: int| 0 <= i < self.functions@.len()
                && (#[trigger] self.functions@[i]).0 == func_addr && self.functions@[i].1 == *a,
            r is None ==> forall|i: int| 0 <= i < self.functions@.len() ==> (#[trigger] self.functions@[i]).0 != func_addr,
    {
        let mut k: usize = 0;
        while k < self.functions.len()
            invariant
                k <= self.functions@.len(),
                forall|i: int| 0 <= i < k ==> (#[trigger] self.functions@[i]).0 != func_addr,
            decreases self.functions@.len() - k,
        {
            if self.functions[k].0 == func_addr {
                return Some(&self.functions[k].1);
            }
            k += 1;
        }
        None
    }
}

/// The analyses of every module seen, by view handle.
pub struct AnalyzedModules {
    pub modules: Vec<(u64, WasmModuleAnalysis)>,
}

impl AnalyzedModules {
    pub fn new() -> (r: AnalyzedModules)
        ensures
            r.modules@.len() == 0,
    {
        AnalyzedModules { modules: Vec::new() }
    }
}

} // verus!
