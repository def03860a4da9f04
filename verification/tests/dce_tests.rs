use zyl::dce::eliminate_dead_blocks;
use zyl::ir::{Block, BlockId, Function, Instruction, IrType, Region, SsaId, SsaValue};

fn cond() -> SsaValue {
    SsaValue { id: SsaId(0), region: Region::Stack }
}

fn block(id: usize, last: Option<Instruction>) -> Block {
    Block { id: BlockId(id), instructions: last.into_iter().collect() }
}

fn jump(to: usize) -> Option<Instruction> {
    Some(Instruction::Branch { cond: cond(), then_block: BlockId(to), else_block: BlockId(to) })
}

fn fork(a: usize, b: usize) -> Option<Instruction> {
    Some(Instruction::CondBranch { cond: cond(), then_block: BlockId(a), else_block: BlockId(b) })
}

fn ret() -> Option<Instruction> {
    Some(Instruction::Return { value: None })
}

fn function(blocks: Vec<Block>) -> Function {
    Function {
        name: "f".to_string(),
        params: vec![],
        ret_type: IrType::Int,
        blocks,
        entry_block: BlockId(0),
        extra_functions: vec![],
    }
}

fn ids(f: &Function) -> Vec<usize> {
    f.blocks.iter().map(|b| b.id.0).collect()
}

#[test]
fn unreachable_blocks_are_removed() {
    let f = function(vec![block(0, jump(2)), block(1, ret()), block(2, ret())]);
    assert_eq!(ids(&eliminate_dead_blocks(f)), vec![0, 2]);
}

#[test]
fn both_arms_of_a_conditional_branch_are_kept_in_order() {
    let f = function(vec![block(3, ret()), block(0, fork(2, 3)), block(1, ret()), block(2, jump(4))]);
    assert_eq!(ids(&eliminate_dead_blocks(f)), vec![3, 0, 2]);
}

#[test]
fn a_loop_between_blocks_terminates_and_is_kept() {
    let f = function(vec![block(0, jump(1)), block(1, fork(0, 2)), block(2, jump(1)), block(5, jump(0))]);
    assert_eq!(ids(&eliminate_dead_blocks(f)), vec![0, 1, 2]);
}

#[test]
fn a_self_loop_terminates() {
    let f = function(vec![block(0, jump(0)), block(1, jump(1))]);
    assert_eq!(ids(&eliminate_dead_blocks(f)), vec![0]);
}

#[test]
fn every_block_with_a_reached_label_is_kept() {
    let f = function(vec![block(0, jump(1)), block(1, ret()), block(1, jump(7)), block(7, ret())]);
    assert_eq!(ids(&eliminate_dead_blocks(f)), vec![0, 1, 1]);
}

#[test]
fn a_function_without_an_entry_block_loses_every_block() {
    let f = function(vec![block(1, jump(2)), block(2, ret())]);
    assert!(eliminate_dead_blocks(f).blocks.is_empty());
}

#[test]
fn an_empty_entry_block_stands_alone() {
    let f = function(vec![block(0, None), block(1, ret())]);
    assert_eq!(ids(&eliminate_dead_blocks(f)), vec![0]);
}
