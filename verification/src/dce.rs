//! Dead-block elimination: the walk of the blocks reachable from the entry
//! block, and the removal of every block that the walk does not reach.

use vstd::prelude::*;
use crate::ir::{Block, BlockId, BlockV, Function, FunctionV, InstrV, Instruction};

verus! {

// ============================================================================
// SPECIFICATION
// ============================================================================

/// The index of the first block labelled `id`, if any.
pub open spec fn find_block(blocks: Seq<BlockV>, id: BlockId) -> Option<int>
    decreases blocks.len(),
{
    if blocks.len() == 0 {
        None
    } else {
        match find_block(blocks.drop_last(), id) {
            Some(k) => Some(k),
            None => if blocks.last().id == id {
                Some(blocks.len() - 1)
            } else {
                None
            },
        }
    }
}

/// The blocks that the dead-block walk pushes after visiting block `id`: the
/// targets of the last instruction of the first block labelled `id`.
pub open spec fn walk_successors(f: FunctionV, id: BlockId) -> Seq<BlockId> {
    match find_block(f.blocks, id) {
        None => seq![],
        Some(k) => {
            let instrs = f.blocks[k].instructions;
            if instrs.len() == 0 {
                seq![]
            } else {
                match instrs.last() {
                    InstrV::Branch { then_block, .. } => seq![then_block],
                    InstrV::CondBranch { then_block, else_block, .. } => seq![then_block, else_block],
                    _ => seq![],
                }
            }
        }
    }
}

/// Whether `p` is a walk: each block label in it is a successor of the one before.
pub open spec fn is_walk(f: FunctionV, p: Seq<BlockId>) -> bool {
    forall|i: int| 0 <= i < p.len() - 1 ==> #[trigger] walk_successors(f, p[i]).contains(p[i + 1])
}

/// Whether block `id` is reached from the entry: some walk starts at the
/// entry block and ends at `id`.
pub open spec fn reached(f: FunctionV, id: BlockId) -> bool {
    exists|p: Seq<BlockId>|
        #[trigger] is_walk(f, p) && p.len() > 0 && p[0] == f.entry_block && p.last() == id
}

/// The blocks of `bs` whose label is reached from the entry of `f`, in order.
pub open spec fn live_blocks(f: FunctionV, bs: Seq<BlockV>) -> Seq<BlockV>
    decreases bs.len(),
{
    if bs.len() == 0 {
        seq![]
    } else if reached(f, bs.last().id) {
        live_blocks(f, bs.drop_last()).push(bs.last())
    } else {
        live_blocks(f, bs.drop_last())
    }
}

/// A function after dead-block elimination: the blocks whose label is reached
/// from the entry remain, in their order.
pub open spec fn dce_function(f: FunctionV) -> FunctionV {
    FunctionV { blocks: live_blocks(f, f.blocks), ..f }
}

// ============================================================================
// ELIMINATION
// ============================================================================

/// The number of blocks not yet visited.
pub open spec fn count_unvisited(v: Seq<bool>) -> nat
    decreases v.len(),
{
    if v.len() == 0 {
        0
    } else {
        count_unvisited(v.drop_last()) + if v.last() {
            0nat
        } else {
            1nat
        }
    }
}

proof fn lemma_count_visit(v: Seq<bool>, k: int)
    requires
        0 <= k < v.len(),
        !v[k],
    ensures
        count_unvisited(v.update(k, true)) + 1 == count_unvisited(v),
    decreases v.len(),
{
    let w = v.update(k, true);
    if k < v.len() - 1 {
        assert(w.drop_last() =~= v.drop_last().update(k, true));
        lemma_count_visit(v.drop_last(), k);
    } else {
        assert(w.drop_last() =~= v.drop_last());
    }
}

/// Whether the block labelled `id` has been visited, where a block is
/// labelled so; a label without a block counts as visited.
pub open spec fn seen(bs: Seq<BlockV>, v: Seq<bool>, id: BlockId) -> bool {
    match find_block(bs, id) {
        Some(k) => v[k],
        None => true,
    }
}

/// Whether every successor of block `id` has been visited.
pub open spec fn closed_at(f: FunctionV, v: Seq<bool>, id: BlockId) -> bool {
    forall|t: BlockId| #[trigger] walk_successors(f, id).contains(t) ==> seen(f.blocks, v, t)
}

proof fn lemma_find_block_some(bs: Seq<BlockV>, id: BlockId)
    ensures
        find_block(bs, id) matches Some(k) ==> 0 <= k < bs.len() && bs[k].id == id,
        find_block(bs, id) is None ==> forall|j: int| 0 <= j < bs.len() ==> (#[trigger] bs[j]).id != id,
    decreases bs.len(),
{
    if bs.len() > 0 {
        lemma_find_block_some(bs.drop_last(), id);
        assert forall|j: int| 0 <= j < bs.len() - 1 implies bs.drop_last()[j] == #[trigger] bs[j] by {}
    }
}

/// A walk from the entry that reaches `id` reaches every label on the way.
proof fn lemma_walk_prefix(f: FunctionV, p: Seq<BlockId>, j: int)
    requires
        is_walk(f, p),
        0 < j <= p.len(),
    ensures
        is_walk(f, p.take(j)),
        p.take(j).last() == p[j - 1],
{
    let q = p.take(j);
    assert forall|i: int| 0 <= i < q.len() - 1 implies #[trigger] walk_successors(f, q[i]).contains(q[i + 1]) by {
        assert(walk_successors(f, p[i]).contains(p[i + 1]));
    }
}

/// A walk from the entry, extended by a successor of its last label, is a walk.
proof fn lemma_walk_extend(f: FunctionV, p: Seq<BlockId>, t: BlockId)
    requires
        is_walk(f, p),
        p.len() > 0,
        walk_successors(f, p.last()).contains(t),
    ensures
        is_walk(f, p.push(t)),
{
    let q = p.push(t);
    assert forall|i: int| 0 <= i < q.len() - 1 implies #[trigger] walk_successors(f, q[i]).contains(q[i + 1]) by {
        if i < p.len() - 1 {
            assert(walk_successors(f, p[i]).contains(p[i + 1]));
        }
    }
}

/// When the entry has been visited and every visited block is closed, every
/// block on a walk from the entry has been visited.
proof fn lemma_walk_seen(f: FunctionV, v: Seq<bool>, p: Seq<BlockId>, j: int)
    requires
        v.len() == f.blocks.len(),
        seen(f.blocks, v, f.entry_block),
        forall|k: int| 0 <= k < v.len() && #[trigger] v[k] ==> closed_at(f, v, f.blocks[k].id),
        is_walk(f, p),
        p.len() > 0,
        p[0] == f.entry_block,
        0 <= j < p.len(),
    ensures
        seen(f.blocks, v, p[j]),
    decreases j,
{
    if j > 0 {
        lemma_walk_seen(f, v, p, j - 1);
        assert(walk_successors(f, p[j - 1]).contains(p[(j - 1) + 1]));
        assert(walk_successors(f, p[j - 1]).contains(p[j]));
        lemma_find_block_some(f.blocks, p[j - 1]);
        let k = find_block(f.blocks, p[j - 1])->Some_0;
        assert(closed_at(f, v, f.blocks[k].id));
    }
}

/// The first block labelled `id`.
fn find_block_exec(blocks: &Vec<Block>, id: BlockId) -> (r: Option<usize>)
    ensures
        r is None <==> find_block(blocks@.map_values(|b: Block| b@), id) is None,
        r matches Some(k) ==> k < blocks@.len() && find_block(
            blocks@.map_values(|b: Block| b@),
            id,
        ) == Some(k as int),
{
    let ghost bs = blocks@.map_values(|b: Block| b@);
    let mut i: usize = 0;
    while i < blocks.len()
        invariant
            i <= blocks@.len(),
            bs == blocks@.map_values(|b: Block| b@),
            find_block(bs.take(i as int), id) is None,
        decreases blocks.len() - i,
    {
        assert(bs.take(i + 1).drop_last() =~= bs.take(i as int));
        if blocks[i].id == id {
            proof {
                lemma_find_block_prefix(bs, i + 1, id);
            }
            return Some(i);
        }
        i = i + 1;
    }
    assert(bs.take(blocks.len() as int) =~= bs);
    None
}

proof fn lemma_find_block_prefix(bs: Seq<BlockV>, k: int, id: BlockId)
    requires
        0 <= k <= bs.len(),
        find_block(bs.take(k), id) is Some,
    ensures
        find_block(bs, id) == find_block(bs.take(k), id),
    decreases bs.len(),
{
    if bs.len() == k {
        assert(bs.take(k) =~= bs);
    } else {
        assert(bs.drop_last().take(k) =~= bs.take(k));
        lemma_find_block_prefix(bs.drop_last(), k, id);
    }
}

proof fn lemma_closed_mono(f: FunctionV, v: Seq<bool>, k2: int, id: BlockId)
    requires
        closed_at(f, v, id),
        v.len() == f.blocks.len(),
        0 <= k2 < v.len(),
    ensures
        closed_at(f, v.update(k2, true), id),
{
    assert forall|t: BlockId| #[trigger] walk_successors(f, id).contains(t) implies seen(
        f.blocks,
        v.update(k2, true),
        t,
    ) by {
        assert(seen(f.blocks, v, t));
        lemma_seen_mono(f.blocks, v, k2, t);
    }
}

/// The state of the walk: the entry has been visited; each visited block is the
/// first with its label, and that label is reached; each label on the stack is
/// reached; each visited block whose label is not on the stack has all its
/// successors visited.
pub open spec fn walk_inv(f: FunctionV, v: Seq<bool>, s: Seq<BlockId>) -> bool {
    &&& v.len() == f.blocks.len()
    &&& seen(f.blocks, v, f.entry_block)
    &&& forall|k: int|
        0 <= k < f.blocks.len() && #[trigger] v[k] ==> find_block(f.blocks, f.blocks[k].id) == Some(k) && reached(
            f,
            f.blocks[k].id,
        )
    &&& forall|j: int| 0 <= j < s.len() ==> reached(f, #[trigger] s[j])
    &&& forall|k: int|
        0 <= k < f.blocks.len() && #[trigger] v[k] ==> s.contains(f.blocks[k].id) || closed_at(f, v, f.blocks[k].id)
}

/// What visiting label `t` does to the marks `v` and the stack `s`.
pub open spec fn visit_result(
    bs: Seq<BlockV>,
    v: Seq<bool>,
    s: Seq<BlockId>,
    t: BlockId,
    v2: Seq<bool>,
    s2: Seq<BlockId>,
) -> bool {
    match find_block(bs, t) {
        Some(k) => if v[k] {
            v2 == v && s2 == s
        } else {
            v2 == v.update(k, true) && s2 == s.push(t)
        },
        None => v2 == v && s2 == s,
    }
}

proof fn lemma_seen_mono(bs: Seq<BlockV>, v: Seq<bool>, k2: int, x: BlockId)
    requires
        seen(bs, v, x),
        v.len() == bs.len(),
        0 <= k2 < v.len(),
    ensures
        seen(bs, v.update(k2, true), x),
{
    lemma_find_block_some(bs, x);
}

/// Visiting a successor `t` of the label `id` being processed keeps the state
/// of the walk, with `id` counted as still on the stack.
proof fn lemma_visit_step(
    f: FunctionV,
    v: Seq<bool>,
    s: Seq<BlockId>,
    id: BlockId,
    t: BlockId,
    v2: Seq<bool>,
    s2: Seq<BlockId>,
)
    requires
        walk_inv(f, v, s.push(id)),
        walk_successors(f, id).contains(t),
        visit_result(f.blocks, v, s, t, v2, s2),
    ensures
        walk_inv(f, v2, s2.push(id)),
        seen(f.blocks, v2, t),
        forall|x: BlockId| seen(f.blocks, v, x) ==> #[trigger] seen(f.blocks, v2, x),
        (v2 == v && s2 == s) || count_unvisited(v2) < count_unvisited(v),
{
    let bs = f.blocks;
    lemma_find_block_some(bs, t);
    assert(s.push(id).last() == id);
    assert(reached(f, id));
    if let Some(k) = find_block(bs, t) {
        if !v[k] {
            lemma_count_visit(v, k);
            let p = choose|p: Seq<BlockId>|
                #[trigger] is_walk(f, p) && p.len() > 0 && p[0] == f.entry_block && p.last() == id;
            lemma_walk_extend(f, p, t);
            assert(p.push(t).last() == t);
            assert(reached(f, t));
            assert forall|x: BlockId| seen(bs, v, x) implies #[trigger] seen(bs, v2, x) by {
                lemma_seen_mono(bs, v, k, x);
            }
            let ns = s2.push(id);
            assert forall|j: int| 0 <= j < ns.len() implies reached(f, #[trigger] ns[j]) by {
                if j < s.len() {
                    assert(ns[j] == s.push(id)[j]);
                } else if j == s.len() {
                    assert(ns[j] == t);
                } else {
                    assert(ns[j] == id);
                }
            }
            assert forall|k1: int| 0 <= k1 < bs.len() && #[trigger] v2[k1] implies ns.contains(bs[k1].id)
                || closed_at(f, v2, bs[k1].id) by {
                if k1 == k {
                    assert(ns[s.len() as int] == t);
                } else {
                    assert(v[k1]);
                    if s.push(id).contains(bs[k1].id) {
                        let j = choose|j: int| 0 <= j < s.push(id).len() && s.push(id)[j] == bs[k1].id;
                        if j < s.len() {
                            assert(ns[j] == bs[k1].id);
                        } else {
                            assert(ns[ns.len() - 1] == bs[k1].id);
                        }
                    } else {
                        lemma_closed_mono(f, v, k, bs[k1].id);
                    }
                }
            }
        }
    }
}

/// Once every successor of `id` has been visited, the walk's state holds
/// without `id` on the stack.
proof fn lemma_visit_done(f: FunctionV, v: Seq<bool>, s: Seq<BlockId>, id: BlockId)
    requires
        walk_inv(f, v, s.push(id)),
        closed_at(f, v, id),
    ensures
        walk_inv(f, v, s),
{
    let bs = f.blocks;
    assert forall|j: int| 0 <= j < s.len() implies reached(f, #[trigger] s[j]) by {
        assert(s[j] == s.push(id)[j]);
    }
    assert forall|k1: int| 0 <= k1 < bs.len() && #[trigger] v[k1] implies s.contains(bs[k1].id) || closed_at(
        f,
        v,
        bs[k1].id,
    ) by {
        if bs[k1].id != id && s.push(id).contains(bs[k1].id) {
            let j = choose|j: int| 0 <= j < s.push(id).len() && s.push(id)[j] == bs[k1].id;
            assert(j < s.len());
            assert(s[j] == bs[k1].id);
        }
    }
}

/// The walk's state after the entry block has been visited.
proof fn lemma_visit_entry(f: FunctionV, v: Seq<bool>, v2: Seq<bool>, s2: Seq<BlockId>)
    requires
        v.len() == f.blocks.len(),
        forall|j: int| 0 <= j < v.len() ==> !#[trigger] v[j],
        visit_result(f.blocks, v, seq![], f.entry_block, v2, s2),
    ensures
        walk_inv(f, v2, s2),
{
    let bs = f.blocks;
    let e = f.entry_block;
    lemma_find_block_some(bs, e);
    let p = seq![e];
    assert(is_walk(f, p));
    assert(p[0] == e && p.last() == e);
    assert(reached(f, e));
    if let Some(k) = find_block(bs, e) {
        assert(s2[0] == e);
        assert forall|k1: int| 0 <= k1 < bs.len() && #[trigger] v2[k1] implies s2.contains(bs[k1].id) by {
            assert(k1 == k);
        }
    }
}

/// Visits block `t`: marks the first block labelled `t` and pushes `t`, unless
/// no block is labelled `t` or that block was visited before.
fn visit(blocks: &Vec<Block>, t: BlockId, visited: &mut Vec<bool>, stack: &mut Vec<BlockId>)
    requires
        old(visited)@.len() == blocks@.len(),
    ensures
        final(visited)@.len() == blocks@.len(),
        visit_result(blocks@.map_values(|b: Block| b@), old(visited)@, old(stack)@, t, final(visited)@, final(stack)@),
{
    if let Some(k) = find_block_exec(blocks, t) {
        if !visited[k] {
            visited.set(k, true);
            stack.push(t);
        }
    }
}

/// Removes the blocks whose label is not reached from the entry block, after
/// walking the blocks reachable from the entry.
pub fn eliminate_dead_blocks(func: Function) -> (r: Function)
    ensures
        r@ == dce_function(func@),
{
    let ghost fv = func@;
    let ghost bs = fv.blocks;
    let n = func.blocks.len();
    let mut visited: Vec<bool> = Vec::new();
    let mut i: usize = 0;
    while i < n
        invariant
            i <= n,
            n == func.blocks@.len(),
            visited@.len() == i,
            forall|j: int| 0 <= j < i ==> !#[trigger] visited@[j],
        decreases n - i,
    {
        visited.push(false);
        i = i + 1;
    }
    let mut stack: Vec<BlockId> = Vec::new();
    assert(stack@ =~= seq![]);
    let ghost v0 = visited@;
    self::visit(&func.blocks, func.entry_block, &mut visited, &mut stack);
    proof {
        assert(stack@ =~= stack@);
        lemma_visit_entry(fv, v0, visited@, stack@);
    }
    while stack.len() > 0
        invariant
            fv == func@,
            bs == fv.blocks,
            visited@.len() == bs.len(),
            walk_inv(fv, visited@, stack@),
        decreases count_unvisited(visited@), stack@.len(),
    {
        let ghost v0 = visited@;
        let ghost s0 = stack@;
        let block_id = stack.pop().unwrap();
        let ghost s = stack@;
        assert(s0 == s.push(block_id));
        let found = find_block_exec(&func.blocks, block_id);
        proof {
            lemma_find_block_some(bs, block_id);
        }
        if let Some(k) = found {
            let block = &func.blocks[k];
            let n = block.instructions.len();
            if n > 0 {
                proof {
                    let instrs = fv.blocks[k as int].instructions;
                    assert(fv.blocks == func.blocks@.map_values(|b: Block| b@));
                    assert(instrs == block.instructions@.map_values(|i: Instruction| i@));
                    assert(instrs.last() == block.instructions@[n - 1]@);
                }
                match &block.instructions[n - 1] {
                    Instruction::Branch { then_block: tb, .. } => {
                        assert(walk_successors(fv, block_id) == seq![*tb]);
                        assert(walk_successors(fv, block_id)[0] == *tb);
                        self::visit(&func.blocks, *tb, &mut visited, &mut stack);
                        proof {
                            lemma_visit_step(fv, v0, s, block_id, *tb, visited@, stack@);
                            assert forall|t: BlockId| #[trigger] walk_successors(fv, block_id).contains(t) implies seen(
                                bs,
                                visited@,
                                t,
                            ) by {
                                assert(t == *tb);
                            }
                            lemma_visit_done(fv, visited@, stack@, block_id);
                        }
                    },
                    Instruction::CondBranch { then_block: tb, else_block: eb, .. } => {
                        assert(walk_successors(fv, block_id) == seq![*tb, *eb]);
                        assert(walk_successors(fv, block_id)[0] == *tb);
                        assert(walk_successors(fv, block_id)[1] == *eb);
                        self::visit(&func.blocks, *tb, &mut visited, &mut stack);
                        let ghost v1 = visited@;
                        let ghost s1 = stack@;
                        proof {
                            lemma_visit_step(fv, v0, s, block_id, *tb, v1, s1);
                        }
                        self::visit(&func.blocks, *eb, &mut visited, &mut stack);
                        proof {
                            lemma_visit_step(fv, v1, s1, block_id, *eb, visited@, stack@);
                            assert forall|t: BlockId| #[trigger] walk_successors(fv, block_id).contains(t) implies seen(
                                bs,
                                visited@,
                                t,
                            ) by {
                                if t == *tb {
                                    assert(seen(bs, v1, t));
                                } else {
                                    assert(t == *eb);
                                }
                            }
                            lemma_visit_done(fv, visited@, stack@, block_id);
                        }
                    },
                    _ => {
                        assert(walk_successors(fv, block_id) =~= Seq::<BlockId>::empty());
                        proof {
                            lemma_visit_done(fv, visited@, stack@, block_id);
                        }
                    },
                }
            } else {
                assert(walk_successors(fv, block_id) =~= Seq::<BlockId>::empty());
                proof {
                    lemma_visit_done(fv, visited@, stack@, block_id);
                }
            }
        } else {
            assert(walk_successors(fv, block_id) =~= Seq::<BlockId>::empty());
            proof {
                lemma_visit_done(fv, visited@, stack@, block_id);
            }
        }
    }
    // Mark the blocks whose label is reached.
    let mut keep: Vec<bool> = Vec::new();
    let mut i: usize = 0;
    while i < n
        invariant
            i <= n,
            n == bs.len(),
            fv == func@,
            bs == fv.blocks,
            visited@.len() == bs.len(),
            seen(bs, visited@, fv.entry_block),
            forall|k: int|
                0 <= k < bs.len() && #[trigger] visited@[k] ==> find_block(bs, bs[k].id) == Some(k) && reached(
                    fv,
                    bs[k].id,
                ),
            forall|k: int| 0 <= k < bs.len() && #[trigger] visited@[k] ==> closed_at(fv, visited@, bs[k].id),
            keep@.len() == i,
            forall|j: int| 0 <= j < i ==> #[trigger] keep@[j] == reached(fv, bs[j].id),
        decreases n - i,
    {
        let id = func.blocks[i].id;
        assert(id == bs[i as int].id);
        proof {
            lemma_find_block_some(bs, id);
        }
        let k = find_block_exec(&func.blocks, id).unwrap();
        proof {
            if reached(fv, id) {
                let p = choose|p: Seq<BlockId>|
                    #[trigger] is_walk(fv, p) && p.len() > 0 && p[0] == fv.entry_block && p.last() == id;
                lemma_walk_seen(fv, visited@, p, p.len() - 1);
            }
        }
        keep.push(visited[k]);
        i = i + 1;
    }
    // Keep the live blocks.
    let Function { name, params, ret_type, blocks, entry_block, extra_functions } = func;
    let mut kept: Vec<Block> = Vec::new();
    let mut items = blocks;
    let mut i: usize = 0;
    while items.len() > 0
        invariant
            i <= bs.len(),
            n == bs.len(),
            bs == fv.blocks,
            keep@.len() == bs.len(),
            forall|j: int| 0 <= j < bs.len() ==> #[trigger] keep@[j] == reached(fv, bs[j].id),
            items@.map_values(|b: Block| b@) == bs.subrange(i as int, bs.len() as int),
            items@.len() == bs.len() - i,
            kept@.map_values(|b: Block| b@) == live_blocks(fv, bs.take(i as int)),
        decreases items@.len(),
    {
        let ghost before = items@;
        let b = items.remove(0);
        proof {
            assert(before.map_values(|b: Block| b@)[0] == b@);
            assert(bs.subrange(i as int, bs.len() as int)[0] == b@);
            assert forall|j: int| 0 <= j < items@.len() implies #[trigger] items@[j]@ == bs[i + 1 + j] by {
                assert(items@[j] == before[j + 1]);
                assert(before.map_values(|b: Block| b@)[j + 1] == bs.subrange(i as int, bs.len() as int)[j + 1]);
            }
            assert(bs.take(i + 1).drop_last() =~= bs.take(i as int));
            assert(bs.take(i + 1).last() == b@);
            assert(items@.map_values(|b: Block| b@) =~= bs.subrange(i + 1, bs.len() as int));
        }
        if keep[i] {
            let ghost bv = b@;
            kept.push(b);
            assert(kept@.map_values(|b: Block| b@) =~= live_blocks(fv, bs.take(i as int)).push(bv));
        } else {
            assert(kept@.map_values(|b: Block| b@) =~= live_blocks(fv, bs.take(i + 1)));
        }
        i = i + 1;
    }
    assert(bs.take(bs.len() as int) =~= bs);
    let r = Function { name, params, ret_type, blocks: kept, entry_block, extra_functions };
    assert(r@.extra_functions =~= fv.extra_functions);
    r
}

// ============================================================================
// FUNCTIONS WHOSE ENTRY FALLS THROUGH
// ============================================================================

/// Whether an instruction ends a block by jumping.
pub open spec fn is_branch(i: InstrV) -> bool {
    i is Branch || i is CondBranch
}

/// Whether the first block is the entry block and holds no jump: every block
/// that lowering adds comes after it, and every jump goes into an added block.
pub open spec fn entry_falls_through(f: FunctionV) -> bool {
    &&& f.blocks.len() > 0
    &&& f.blocks[0].id == f.entry_block
    &&& forall|i: int|
        0 <= i < f.blocks[0].instructions.len() ==> !is_branch(#[trigger] f.blocks[0].instructions[i])
}

// ============================================================================
// LAWS
// ============================================================================

/// Every block that elimination keeps is a block of the function.
pub(crate) proof fn lemma_live_blocks_from(f: FunctionV, bs: Seq<BlockV>)
    ensures
        forall|j: int| 0 <= j < live_blocks(f, bs).len() ==> exists|i: int| 0 <= i < bs.len() && #[trigger] live_blocks(f, bs)[j] == bs[i],
    decreases bs.len(),
{
    if bs.len() > 0 {
        let rest = bs.drop_last();
        lemma_live_blocks_from(f, rest);
        let lb = live_blocks(f, bs);
        assert forall|j: int| 0 <= j < lb.len() implies exists|i: int| 0 <= i < bs.len() && #[trigger] lb[j] == bs[i] by {
            if j < live_blocks(f, rest).len() {
                let i = choose|i: int| 0 <= i < rest.len() && live_blocks(f, rest)[j] == rest[i];
                assert(lb[j] == bs[i]);
            } else {
                assert(lb[j] == bs[bs.len() - 1]);
            }
        }
    }
}

proof fn lemma_live_blocks_first(f: FunctionV, bs: Seq<BlockV>)
    requires
        bs.len() > 0,
        reached(f, bs[0].id),
    ensures
        live_blocks(f, bs).len() > 0,
        live_blocks(f, bs)[0] == bs[0],
    decreases bs.len(),
{
    if bs.len() > 1 {
        assert(bs.drop_last()[0] == bs[0]);
        lemma_live_blocks_first(f, bs.drop_last());
    } else {
        assert(live_blocks(f, bs.drop_last()) =~= seq![]);
    }
}

/// The entry is always reached.
pub proof fn law_entry_reached(f: FunctionV)
    ensures
        reached(f, f.entry_block),
{
    let p = seq![f.entry_block];
    assert(is_walk(f, p));
    assert(p[0] == f.entry_block && p.last() == f.entry_block);
}

/// Dead-block elimination keeps a first block labelled with the entry label,
/// in first place, and keeps the entry label.
pub proof fn law_dce_keeps_entry(f: FunctionV)
    requires
        f.blocks.len() > 0,
        f.blocks[0].id == f.entry_block,
    ensures
        dce_function(f).blocks.len() > 0,
        dce_function(f).blocks[0] == f.blocks[0],
        dce_function(f).entry_block == f.entry_block,
{
    law_entry_reached(f);
    lemma_live_blocks_first(f, f.blocks);
}

/// Dead-block elimination keeps exactly the blocks whose label is reached from
/// the entry: each block of the result is reached, and each reached block of
/// the function is in the result.
pub proof fn law_dce_keeps_reached(f: FunctionV)
    ensures
        forall|j: int| 0 <= j < dce_function(f).blocks.len() ==> reached(f, (#[trigger] dce_function(f).blocks[j]).id),
        forall|i: int| 0 <= i < f.blocks.len() && reached(f, (#[trigger] f.blocks[i]).id) ==> dce_function(f).blocks.contains(f.blocks[i]),
{
    lemma_live_blocks_exact(f, f.blocks);
}

proof fn lemma_live_blocks_exact(f: FunctionV, bs: Seq<BlockV>)
    ensures
        forall|j: int| 0 <= j < live_blocks(f, bs).len() ==> reached(f, (#[trigger] live_blocks(f, bs)[j]).id),
        forall|i: int| 0 <= i < bs.len() && reached(f, (#[trigger] bs[i]).id) ==> live_blocks(f, bs).contains(bs[i]),
    decreases bs.len(),
{
    if bs.len() > 0 {
        let rest = bs.drop_last();
        lemma_live_blocks_exact(f, rest);
        let lr = live_blocks(f, rest);
        let lb = live_blocks(f, bs);
        assert forall|j: int| 0 <= j < lb.len() implies reached(f, (#[trigger] lb[j]).id) by {
            if j < lr.len() {
                assert(lb[j] == lr[j]);
            }
        }
        assert forall|i: int| 0 <= i < bs.len() && reached(f, (#[trigger] bs[i]).id) implies lb.contains(bs[i]) by {
            if i < bs.len() - 1 {
                assert(rest[i] == bs[i]);
                let j = choose|j: int| 0 <= j < lr.len() && lr[j] == rest[i];
                assert(lb[j] == lr[j]);
            } else {
                assert(lb[lb.len() - 1] == bs[i]);
            }
        }
    }
}

proof fn lemma_find_live(f: FunctionV, bs: Seq<BlockV>, id: BlockId)
    ensures
        reached(f, id) ==> match find_block(bs, id) {
            Some(k) => find_block(live_blocks(f, bs), id) matches Some(k2) && 0 <= k2 < live_blocks(f, bs).len()
                && live_blocks(f, bs)[k2] == bs[k],
            None => find_block(live_blocks(f, bs), id) is None,
        },
        !reached(f, id) ==> find_block(live_blocks(f, bs), id) is None,
    decreases bs.len(),
{
    if bs.len() > 0 {
        let rest = bs.drop_last();
        let lr = live_blocks(f, rest);
        let lb = live_blocks(f, bs);
        lemma_find_live(f, rest, id);
        lemma_find_block_some(lr, id);
        lemma_find_block_some(rest, id);
        lemma_find_block_some(bs, id);
        if reached(f, bs.last().id) {
            assert(lb.drop_last() =~= lr);
            assert(lb.last() == bs.last());
        }
    }
}

/// The successors of a label in the function after elimination: those it had
/// where the label is reached, none elsewhere.
proof fn lemma_successors_after(f: FunctionV, id: BlockId)
    ensures
        reached(f, id) ==> walk_successors(dce_function(f), id) == walk_successors(f, id),
        !reached(f, id) ==> walk_successors(dce_function(f), id) == Seq::<BlockId>::empty(),
{
    lemma_find_live(f, f.blocks, id);
    lemma_find_block_some(f.blocks, id);
}

proof fn lemma_live_all(f: FunctionV, bs: Seq<BlockV>)
    requires
        forall|j: int| 0 <= j < bs.len() ==> reached(f, (#[trigger] bs[j]).id),
    ensures
        live_blocks(f, bs) == bs,
    decreases bs.len(),
{
    if bs.len() > 0 {
        assert(reached(f, bs[bs.len() - 1].id));
        lemma_live_all(f, bs.drop_last());
        assert(bs.drop_last().push(bs.last()) =~= bs);
    }
}

/// Dead-block elimination is idempotent: eliminating again changes nothing.
pub proof fn law_dce_idempotent(f: FunctionV)
    ensures
        dce_function(dce_function(f)) == dce_function(f),
{
    let g = dce_function(f);
    lemma_live_blocks_exact(f, f.blocks);
    assert forall|j: int| 0 <= j < g.blocks.len() implies reached(g, (#[trigger] g.blocks[j]).id) by {
        let id = g.blocks[j].id;
        assert(reached(f, id));
        let p = choose|p: Seq<BlockId>|
            #[trigger] is_walk(f, p) && p.len() > 0 && p[0] == f.entry_block && p.last() == id;
        assert forall|i: int| 0 <= i < p.len() - 1 implies #[trigger] walk_successors(g, p[i]).contains(p[i + 1]) by {
            assert(walk_successors(f, p[i]).contains(p[i + 1]));
            lemma_walk_prefix(f, p, i + 1);
            let q = p.take(i + 1);
            assert(q[0] == f.entry_block);
            assert(reached(f, p[i]));
            lemma_successors_after(f, p[i]);
        }
        assert(is_walk(g, p));
    }
    lemma_live_all(g, g.blocks);
}


/// The successor of a reached label along a branch target is reached.
proof fn lemma_target_reached(f: FunctionV, id: BlockId, t: BlockId)
    requires
        reached(f, id),
        walk_successors(f, id).contains(t),
    ensures
        reached(f, t),
{
    let p = choose|p: Seq<BlockId>| #[trigger] is_walk(f, p) && p.len() > 0 && p[0] == f.entry_block && p.last() == id;
    lemma_walk_extend(f, p, t);
    assert(p.push(t).last() == t);
    assert(p.push(t)[0] == f.entry_block);
}

/// Whether dead-block elimination keeps every block labelled `id`.
pub open spec fn keeps_label(f: FunctionV, id: BlockId) -> bool {
    forall|j: int| 0 <= j < f.blocks.len() && (#[trigger] f.blocks[j]).id == id ==> dce_function(f).blocks.contains(f.blocks[j])
}

/// Dead-block elimination follows the branches of the IR: it keeps every
/// block labelled with the entry label, and wherever it keeps a block (the
/// first with its label) that ends in a jump, it keeps every block labelled
/// with a target of that jump: the then-target of a `Branch`, both targets of
/// a `CondBranch`.
pub proof fn law_dce_follows_branches(f: FunctionV)
    ensures
        keeps_label(f, f.entry_block),
        forall|k: int|
            0 <= k < f.blocks.len() && find_block(f.blocks, f.blocks[k].id) == Some(k)
                && #[trigger] dce_function(f).blocks.contains(f.blocks[k]) && f.blocks[k].instructions.len() > 0 ==> {
                &&& (f.blocks[k].instructions.last() matches InstrV::Branch { then_block, .. } ==> keeps_label(f, then_block))
                &&& (f.blocks[k].instructions.last() matches InstrV::CondBranch { then_block, else_block, .. }
                    ==> keeps_label(f, then_block) && keeps_label(f, else_block))
            },
{
    law_dce_keeps_reached(f);
    law_entry_reached(f);
    let g = dce_function(f);
    assert forall|k: int|
        0 <= k < f.blocks.len() && find_block(f.blocks, f.blocks[k].id) == Some(k)
            && #[trigger] g.blocks.contains(f.blocks[k]) && f.blocks[k].instructions.len() > 0 implies {
            &&& (f.blocks[k].instructions.last() matches InstrV::Branch { then_block, .. } ==> keeps_label(f, then_block))
            &&& (f.blocks[k].instructions.last() matches InstrV::CondBranch { then_block, else_block, .. }
                ==> keeps_label(f, then_block) && keeps_label(f, else_block))
        } by {
        let id = f.blocks[k].id;
        let j = choose|j: int| 0 <= j < g.blocks.len() && g.blocks[j] == f.blocks[k];
        assert(reached(f, g.blocks[j].id));
        assert(reached(f, id));
        match f.blocks[k].instructions.last() {
            InstrV::Branch { then_block, .. } => {
                assert(walk_successors(f, id)[0] == then_block);
                lemma_target_reached(f, id, then_block);
            },
            InstrV::CondBranch { then_block, else_block, .. } => {
                assert(walk_successors(f, id)[0] == then_block);
                assert(walk_successors(f, id)[1] == else_block);
                lemma_target_reached(f, id, then_block);
                lemma_target_reached(f, id, else_block);
            },
            _ => {},
        }
    }
}

} // verus!
