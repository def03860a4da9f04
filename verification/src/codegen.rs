//! Code generation from the SSA IR: a register allocator, an x86_64 assembly
//! generator, and an LLVM IR printer.

use vstd::prelude::*;
use std::collections::HashMap;
use crate::ir::{
    BinOp, Block, BlockId, BlockV, Function, FunctionV, IcnfProgram, InstrV, Instruction, IrType,
    IrValue, IrValueV, ProgramV, Region, SsaId, SsaValue, UnaryOp,
};
use crate::debug_text::{instruction_debug, instruction_debug_text, ir_value_debug, ir_value_debug_text};
use crate::text::{
    concat, int_text, join, join_strings, lemma_run_lines_fault, lemma_run_lines_step, nat_text, push_char,
    push_i64, push_u64, push_usize, run_lines, string_of,
};
use vstd::utf8::encode_utf8;

verus! {

broadcast use vstd::std_specs::hash::group_hash_axioms;

// ============================================================================
// CODE GENERATION ERRORS
// ============================================================================

/// Errors of code generation.
#[derive(Debug)]
pub enum CodegenError {
    UnsupportedInstruction(String),
    TypeMismatch { expected: IrType, got: IrType },
    RegisterAllocationFailed { id: SsaId },
    LinkError { msg: String },
    WriteError { msg: String },
}

/// Abstract code generation error.
pub enum CodegenErrorV {
    UnsupportedInstruction(Seq<char>),
    TypeMismatch { expected: IrType, got: IrType },
    RegisterAllocationFailed { id: SsaId },
    LinkError { msg: Seq<char> },
    WriteError { msg: Seq<char> },
}

impl View for CodegenError {
    type V = CodegenErrorV;

    open spec fn view(&self) -> CodegenErrorV {
        match self {
            CodegenError::UnsupportedInstruction(s) => CodegenErrorV::UnsupportedInstruction(s@),
            CodegenError::TypeMismatch { expected, got } => CodegenErrorV::TypeMismatch {
                expected: *expected,
                got: *got,
            },
            CodegenError::RegisterAllocationFailed { id } => CodegenErrorV::RegisterAllocationFailed {
                id: *id,
            },
            CodegenError::LinkError { msg } => CodegenErrorV::LinkError { msg: msg@ },
            CodegenError::WriteError { msg } => CodegenErrorV::WriteError { msg: msg@ },
        }
    }
}

// ============================================================================
// TARGET ARCHITECTURE
// ============================================================================

/// Target architectures.
#[derive(Debug, Clone, Copy, PartialEq, Eq, Structural)]
pub enum Arch {
    X86_64,
    AArch64,
    Riscv64,
}

/// The name of an architecture.
pub open spec fn arch_name(a: Arch) -> Seq<char> {
    match a {
        Arch::X86_64 => "x86_64"@,
        Arch::AArch64 => "aarch64"@,
        Arch::Riscv64 => "riscv64"@,
    }
}

impl Arch {
    /// The name of the architecture.
    pub fn name(&self) -> (s: &'static str)
        ensures
            s@ == arch_name(*self),
    {
        match self {
            Arch::X86_64 => "x86_64",
            Arch::AArch64 => "aarch64",
            Arch::Riscv64 => "riscv64",
        }
    }
}

// ============================================================================
// REGISTERS
// ============================================================================

/// Machine registers (x86_64).
#[derive(Debug, Clone, Copy, PartialEq, Eq, Structural)]
pub enum Reg {
    // Integer registers (x86_64 calling convention)
    Rax, Rcx, Rdx, Rsi, Rdi, R8, R9, R10, R11,
    // Float registers
    Xmm0, Xmm1, Xmm2, Xmm3, Xmm4, Xmm5, Xmm6, Xmm7,
    // General purpose
    Rbx, Rsp, Rbp, R12, R13, R14, R15,
}

/// The assembly name of a register.
pub open spec fn reg_name(r: Reg) -> Seq<char> {
    match r {
        Reg::Rax => "rax"@,
        Reg::Rcx => "rcx"@,
        Reg::Rdx => "rdx"@,
        Reg::Rsi => "rsi"@,
        Reg::Rdi => "rdi"@,
        Reg::R8 => "r8"@,
        Reg::R9 => "r9"@,
        Reg::R10 => "r10"@,
        Reg::R11 => "r11"@,
        Reg::Xmm0 => "xmm0"@,
        Reg::Xmm1 => "xmm1"@,
        Reg::Xmm2 => "xmm2"@,
        Reg::Xmm3 => "xmm3"@,
        Reg::Xmm4 => "xmm4"@,
        Reg::Xmm5 => "xmm5"@,
        Reg::Xmm6 => "xmm6"@,
        Reg::Xmm7 => "xmm7"@,
        Reg::Rbx => "rbx"@,
        Reg::Rsp => "rsp"@,
        Reg::Rbp => "rbp"@,
        Reg::R12 => "r12"@,
        Reg::R13 => "r13"@,
        Reg::R14 => "r14"@,
        Reg::R15 => "r15"@,
    }
}

/// Whether a register is an SSE (float) register.
pub open spec fn is_xmm(r: Reg) -> bool {
    match r {
        Reg::Xmm0 | Reg::Xmm1 | Reg::Xmm2 | Reg::Xmm3 | Reg::Xmm4 | Reg::Xmm5 | Reg::Xmm6
        | Reg::Xmm7 => true,
        _ => false,
    }
}

impl Reg {
    /// The assembly name of the register.
    pub fn name(&self) -> (s: &'static str)
        ensures
            s@ == reg_name(*self),
    {
        match self {
            Reg::Rax => "rax",
            Reg::Rcx => "rcx",
            Reg::Rdx => "rdx",
            Reg::Rsi => "rsi",
            Reg::Rdi => "rdi",
            Reg::R8 => "r8",
            Reg::R9 => "r9",
            Reg::R10 => "r10",
            Reg::R11 => "r11",
            Reg::Xmm0 => "xmm0",
            Reg::Xmm1 => "xmm1",
            Reg::Xmm2 => "xmm2",
            Reg::Xmm3 => "xmm3",
            Reg::Xmm4 => "xmm4",
            Reg::Xmm5 => "xmm5",
            Reg::Xmm6 => "xmm6",
            Reg::Xmm7 => "xmm7",
            Reg::Rbx => "rbx",
            Reg::Rsp => "rsp",
            Reg::Rbp => "rbp",
            Reg::R12 => "r12",
            Reg::R13 => "r13",
            Reg::R14 => "r14",
            Reg::R15 => "r15",
        }
    }

    /// Whether the register is an SSE (float) register.
    pub fn is_xmm(&self) -> (b: bool)
        ensures
            b == is_xmm(*self),
    {
        match self {
            Reg::Xmm0 | Reg::Xmm1 | Reg::Xmm2 | Reg::Xmm3 | Reg::Xmm4 | Reg::Xmm5 | Reg::Xmm6
            | Reg::Xmm7 => true,
            _ => false,
        }
    }
}

// ============================================================================
// REGISTER ALLOCATION
// ============================================================================

/// The registers a fresh allocator hands out, in order.
pub open spec fn initial_free_regs() -> Seq<Reg> {
    seq![
        Reg::Rax, Reg::Rcx, Reg::Rdx, Reg::Rsi, Reg::Rdi,
        Reg::R8, Reg::R9, Reg::R10, Reg::R11,
        Reg::Xmm0, Reg::Xmm1, Reg::Xmm2, Reg::Xmm3,
    ]
}

/// The first register of `regs` of the requested class (float or integer).
pub open spec fn first_of_class(regs: Seq<Reg>, is_float: bool) -> Option<Reg>
    decreases regs.len(),
{
    if regs.len() == 0 {
        None
    } else if is_xmm(regs[0]) == is_float {
        Some(regs[0])
    } else {
        first_of_class(regs.drop_first(), is_float)
    }
}

/// The register that allocating `id` gives: the one it has, or else the
/// first free register of its class.
pub open spec fn allocated_reg(alloc: Map<usize, Reg>, free: Seq<Reg>, id: usize, is_float: bool) -> Option<Reg> {
    if alloc.contains_key(id) {
        Some(alloc[id])
    } else {
        first_of_class(free, is_float)
    }
}

/// The allocation after allocating `id`: unchanged if `id` has a register or
/// none is free, else with `id` mapped to the register it gets.
pub open spec fn after_allocation(alloc: Map<usize, Reg>, free: Seq<Reg>, id: usize, is_float: bool) -> Map<usize, Reg> {
    if alloc.contains_key(id) {
        alloc
    } else {
        match first_of_class(free, is_float) {
            Some(reg) => alloc.insert(id, reg),
            None => alloc,
        }
    }
}

/// The free registers after allocating `id`: unchanged if `id` has a register
/// or none of its class is free, else without the register it gets.
pub open spec fn free_after_allocation(alloc: Map<usize, Reg>, free: Seq<Reg>, id: usize, is_float: bool) -> Seq<Reg> {
    if alloc.contains_key(id) {
        free
    } else {
        match first_of_class(free, is_float) {
            Some(reg) => free.remove_value(reg),
            None => free,
        }
    }
}

/// Register allocator: maps SSA values to registers.
pub struct RegAllocator {
    /// Maps SSA ids to registers.
    allocation: HashMap<usize, Reg>,
    /// Registers available for allocation.
    free_regs: Vec<Reg>,
}

impl RegAllocator {
    /// Every allocator gives distinct values distinct registers, none of them
    /// free, and holds no register free twice.
    #[verifier::type_invariant]
    spec fn distinct_registers(self) -> bool {
        registers_distinct(self.allocation@, self.free_regs@)
    }

    /// The allocation: SSA id number to register.
    pub closed spec fn allocation(&self) -> Map<usize, Reg> {
        self.allocation@
    }

    /// The registers available for allocation, in the order they are tried.
    pub closed spec fn free_regs(&self) -> Seq<Reg> {
        self.free_regs@
    }

    /// Creates an allocator with an empty allocation.
    pub fn new() -> (a: Self)
        ensures
            a.allocation() == Map::<usize, Reg>::empty(),
            a.free_regs() == initial_free_regs(),
            registers_distinct(a.allocation(), a.free_regs()),
    {
        let mut free_regs: Vec<Reg> = Vec::new();
        free_regs.push(Reg::Rax);
        free_regs.push(Reg::Rcx);
        free_regs.push(Reg::Rdx);
        free_regs.push(Reg::Rsi);
        free_regs.push(Reg::Rdi);
        free_regs.push(Reg::R8);
        free_regs.push(Reg::R9);
        free_regs.push(Reg::R10);
        free_regs.push(Reg::R11);
        free_regs.push(Reg::Xmm0);
        free_regs.push(Reg::Xmm1);
        free_regs.push(Reg::Xmm2);
        free_regs.push(Reg::Xmm3);
        proof {
            law_fresh_registers_distinct();
        }
        assert(free_regs@ =~= initial_free_regs());
        let allocation: HashMap<usize, Reg> = HashMap::new();
        assert(allocation@ =~= Map::<usize, Reg>::empty());
        let a = RegAllocator { allocation, free_regs };
        a
    }

    /// Allocates a register for an SSA value: the register it already has, or
    /// else the first free register of its class (float or integer).
    pub fn allocate(&mut self, id: SsaId, is_float: bool) -> (r: Result<Reg, CodegenError>)
        ensures
            final(self).free_regs() == free_after_allocation(
                old(self).allocation(),
                old(self).free_regs(),
                id.0,
                is_float,
            ),
            final(self).allocation() == after_allocation(
                old(self).allocation(),
                old(self).free_regs(),
                id.0,
                is_float,
            ),
            match allocated_reg(old(self).allocation(), old(self).free_regs(), id.0, is_float) {
                Some(reg) => r == Ok::<Reg, CodegenError>(reg),
                None => r matches Err(CodegenError::RegisterAllocationFailed { id: e }) && e == id,
            },
            registers_distinct(old(self).allocation(), old(self).free_regs()),
            registers_distinct(final(self).allocation(), final(self).free_regs()),
            r matches Ok(reg) ==> forall|other: usize|
                #[trigger] old(self).allocation().contains_key(other) && other != id.0 ==> old(self).allocation()[other]
                    != reg,
    {
        proof {
            use_type_invariant(&*self);
            law_allocation_keeps_registers_distinct(self.allocation@, self.free_regs@, id.0, is_float);
            lemma_first_of_class_in(self.free_regs@, is_float);
        }
        if let Some(reg) = self.allocation.get(&id.0) {
            return Ok(*reg);
        }
        let mut i: usize = 0;
        assert(self.free_regs@.skip(0) =~= self.free_regs@);
        while i < self.free_regs.len()
            invariant
                i <= self.free_regs@.len(),
                !old(self).allocation@.contains_key(id.0),
                first_of_class(self.free_regs@, is_float) == first_of_class(
                    self.free_regs@.skip(i as int),
                    is_float,
                ),
                self.allocation@ == old(self).allocation@,
                self.free_regs@ == old(self).free_regs@,
                registers_distinct(old(self).allocation@, old(self).free_regs@),
                registers_distinct(
                    after_allocation(old(self).allocation@, old(self).free_regs@, id.0, is_float),
                    free_after_allocation(old(self).allocation@, old(self).free_regs@, id.0, is_float),
                ),
                forall|j: int| 0 <= j < i ==> is_xmm(#[trigger] self.free_regs@[j]) != is_float,
            decreases self.free_regs.len() - i,
        {
            let reg = self.free_regs[i];
            assert(self.free_regs@.skip(i as int)[0] == reg);
            assert(self.free_regs@.skip(i as int).drop_first() =~= self.free_regs@.skip(
                i + 1,
            ));
            if reg.is_xmm() == is_float {
                proof {
                    let fr = self.free_regs@;
                    fr.index_of_first_ensures(reg);
                    assert(fr.contains(reg)) by {
                        assert(fr[i as int] == reg);
                    }
                    let k = fr.index_of_first(reg)->0;
                    if k < i {
                        assert(is_xmm(fr[k]) != is_float);
                    }
                    assert(fr.index_of_first(reg) == Some(i as int));
                }
                let mut allocation: HashMap<usize, Reg> = HashMap::new();
                let mut free_regs: Vec<Reg> = Vec::new();
                std::mem::swap(&mut allocation, &mut self.allocation);
                std::mem::swap(&mut free_regs, &mut self.free_regs);
                allocation.insert(id.0, reg);
                free_regs.remove(i);
                assert(allocation@ == after_allocation(old(self).allocation@, old(self).free_regs@, id.0, is_float));
                assert(free_regs@ == free_after_allocation(old(self).allocation@, old(self).free_regs@, id.0, is_float));
                self.free_regs = free_regs;
                self.allocation = allocation;
                return Ok(reg);
            }
            i = i + 1;
        }
        assert(self.free_regs@.skip(i as int).len() == 0);
        Err(CodegenError::RegisterAllocationFailed { id })
    }

    /// The register allocated to an SSA value, if any.
    pub fn get(&self, id: SsaId) -> (r: Option<Reg>)
        ensures
            r == (if self.allocation().contains_key(id.0) {
                Some(self.allocation()[id.0])
            } else {
                None
            }),
    {
        match self.allocation.get(&id.0) {
            Some(reg) => Some(*reg),
            None => None,
        }
    }
}


/// After a register is allocated to an SSA value, looking the value up gives
/// that register.
pub proof fn law_allocated_is_found(alloc: Map<usize, Reg>, free: Seq<Reg>, id: usize, is_float: bool)
    ensures
        allocated_reg(alloc, free, id, is_float) matches Some(reg) ==> after_allocation(
            alloc,
            free,
            id,
            is_float,
        ).contains_key(id) && after_allocation(alloc, free, id, is_float)[id] == reg,
{
}

/// Allocating a value a second time, whatever class is asked for, gives the
/// register it got the first time and leaves the allocation unchanged.
pub proof fn law_allocation_is_stable(alloc: Map<usize, Reg>, free: Seq<Reg>, id: usize, is_float: bool, again_float: bool)
    requires
        allocated_reg(alloc, free, id, is_float) is Some,
    ensures
        allocated_reg(
            after_allocation(alloc, free, id, is_float),
            free_after_allocation(alloc, free, id, is_float),
            id,
            again_float,
        ) == allocated_reg(alloc, free, id, is_float),
        after_allocation(
            after_allocation(alloc, free, id, is_float),
            free_after_allocation(alloc, free, id, is_float),
            id,
            again_float,
        ) == after_allocation(alloc, free, id, is_float),
        free_after_allocation(
            after_allocation(alloc, free, id, is_float),
            free_after_allocation(alloc, free, id, is_float),
            id,
            again_float,
        ) == free_after_allocation(alloc, free, id, is_float),
{
}

/// Allocating one value leaves the registers of every other value as they were.
pub proof fn law_allocation_keeps_others(alloc: Map<usize, Reg>, free: Seq<Reg>, id: usize, is_float: bool, other: usize)
    requires
        other != id,
    ensures
        after_allocation(alloc, free, id, is_float).contains_key(other) == alloc.contains_key(other),
        alloc.contains_key(other) ==> after_allocation(alloc, free, id, is_float)[other] == alloc[other],
{
}

/// Whether the allocation gives distinct values distinct registers, none of
/// which is still free, and no register is free twice.
pub open spec fn registers_distinct(alloc: Map<usize, Reg>, free: Seq<Reg>) -> bool {
    &&& free.no_duplicates()
    &&& forall|a: usize| #[trigger] alloc.contains_key(a) ==> !free.contains(alloc[a])
    &&& forall|a: usize, b: usize|
        #[trigger] alloc.contains_key(a) && #[trigger] alloc.contains_key(b) && a != b ==> alloc[a] != alloc[b]
}

proof fn lemma_first_of_class_in(regs: Seq<Reg>, is_float: bool)
    ensures
        first_of_class(regs, is_float) matches Some(r) ==> regs.contains(r),
    decreases regs.len(),
{
    if regs.len() > 0 && is_xmm(regs[0]) != is_float {
        lemma_first_of_class_in(regs.drop_first(), is_float);
        if let Some(r) = first_of_class(regs.drop_first(), is_float) {
            let k = choose|k: int| 0 <= k < regs.drop_first().len() && regs.drop_first()[k] == r;
            assert(regs[k + 1] == r);
        }
    } else if regs.len() > 0 {
        assert(regs[0] == regs[0]);
    }
}

/// A fresh allocator gives distinct values distinct registers.
pub proof fn law_fresh_registers_distinct()
    ensures
        registers_distinct(Map::empty(), initial_free_regs()),
{
    let regs = initial_free_regs();
    assert forall|i: int, j: int| 0 <= i < regs.len() && 0 <= j < regs.len() && i != j implies regs[i] != regs[j] by {
    }
}

/// Allocation keeps distinct values in distinct registers: a register, once
/// allocated, is no longer free, so no later value gets it.
pub proof fn law_allocation_keeps_registers_distinct(alloc: Map<usize, Reg>, free: Seq<Reg>, id: usize, is_float: bool)
    requires
        registers_distinct(alloc, free),
    ensures
        registers_distinct(
            after_allocation(alloc, free, id, is_float),
            free_after_allocation(alloc, free, id, is_float),
        ),
{
    if !alloc.contains_key(id) {
        if let Some(reg) = first_of_class(free, is_float) {
            lemma_first_of_class_in(free, is_float);
            free.index_of_first_ensures(reg);
            let k = free.index_of_first(reg)->0;
            let nf = free.remove(k);
            assert(free.remove_value(reg) == nf);
            let na = alloc.insert(id, reg);
            assert forall|x: Reg| nf.contains(x) implies free.contains(x) && x != reg by {
                let j = choose|j: int| 0 <= j < nf.len() && nf[j] == x;
                if j < k {
                    assert(free[j] == x);
                    assert(free[j] != free[k]);
                } else {
                    assert(free[j + 1] == x);
                    assert(free[j + 1] != free[k]);
                }
            }
            assert(nf.no_duplicates()) by {
                assert forall|i: int, j: int| 0 <= i < nf.len() && 0 <= j < nf.len() && i != j implies nf[i] != nf[j] by {
                    let fi = if i < k { i } else { i + 1 };
                    let fj = if j < k { j } else { j + 1 };
                    assert(nf[i] == free[fi]);
                    assert(nf[j] == free[fj]);
                }
            }
            assert forall|a: usize| #[trigger] na.contains_key(a) implies !nf.contains(na[a]) by {
                if a != id {
                    assert(!free.contains(alloc[a]));
                }
            }
            assert forall|a: usize, b: usize|
                #[trigger] na.contains_key(a) && #[trigger] na.contains_key(b) && a != b implies na[a] != na[b] by {
                if a == id && b != id {
                    assert(!free.contains(alloc[b]));
                } else if b == id && a != id {
                    assert(!free.contains(alloc[a]));
                }
            }
        }
    }
}

/// A fresh allocator has a register of each class, so allocation from it
/// never fails: integers get `rax` and floats get `xmm0`.
pub proof fn law_fresh_allocation_succeeds(id: usize, is_float: bool)
    ensures
        allocated_reg(Map::empty(), initial_free_regs(), id, is_float) == Some(
            if is_float { Reg::Xmm0 } else { Reg::Rax },
        ),
{
    let regs = initial_free_regs();
    reveal_with_fuel(first_of_class, 11);
    assert(regs.drop_first() =~= seq![Reg::Rcx, Reg::Rdx, Reg::Rsi, Reg::Rdi, Reg::R8, Reg::R9, Reg::R10, Reg::R11, Reg::Xmm0, Reg::Xmm1, Reg::Xmm2, Reg::Xmm3]);
}

// ============================================================================
// ASSEMBLY CODE GENERATOR (x86_64): specification
// ============================================================================

/// The register that holds the value of SSA number `i` modulo 9.
pub open spec fn slot_reg(i: nat) -> Reg {
    if i == 0 { Reg::Rax }
    else if i == 1 { Reg::Rcx }
    else if i == 2 { Reg::Rdx }
    else if i == 3 { Reg::Rsi }
    else if i == 4 { Reg::Rdi }
    else if i == 5 { Reg::R8 }
    else if i == 6 { Reg::R9 }
    else if i == 7 { Reg::R10 }
    else { Reg::R11 }
}

/// The register assigned to an SSA value: the nine integer scratch registers in turn.
pub open spec fn ssa_reg(id: SsaId) -> Reg {
    slot_reg((id.0 % 9) as nat)
}

/// The assembly operand text of an SSA value (`%reg`).
pub open spec fn opnd(v: SsaValue) -> Seq<char> {
    "%"@ + reg_name(ssa_reg(v.id))
}

/// The text of a block label (`bbN`).
pub open spec fn block_text(b: BlockId) -> Seq<char> {
    "bb"@ + nat_text(b.0 as nat)
}

/// The text of an SSA id (`%N`).
pub open spec fn ssa_text(id: SsaId) -> Seq<char> {
    "%"@ + nat_text(id.0 as nat)
}

/// The System V register that carries argument `i` (`i < 6`).
pub open spec fn arg_reg(i: nat) -> Seq<char> {
    if i == 0 { "rdi"@ }
    else if i == 1 { "rsi"@ }
    else if i == 2 { "rdx"@ }
    else if i == 3 { "rcx"@ }
    else if i == 4 { "r8"@ }
    else { "r9"@ }
}


/// The line that loads a constant into `d`.
pub open spec fn const_line(value: IrValueV, d: Seq<char>) -> Seq<char> {
    match value {
        IrValueV::Int(v) => "\tmovq $"@ + int_text(v as int) + ", "@ + d,
        IrValueV::Float(f) => "\tmovq $"@ + nat_text(f.bits as nat) + ", "@ + d,
        IrValueV::Bool(b) => "\tmovq $"@ + (if b { "1"@ } else { "0"@ }) + ", "@ + d,
        IrValueV::StringLit(s) => "\tlea .LCstr_"@ + nat_text((encode_utf8(s).len() as usize) as nat) + ", "@ + d,
        IrValueV::Unit => "\tmovq $0, "@ + d,
        IrValueV::FuncRef(n) => "\tlea "@ + n + "(%rip), "@ + d,
    }
}

/// The `setCC` line of a comparison operator.
pub open spec fn set_line(op: BinOp) -> Seq<char> {
    match op {
        BinOp::Ne => "\tsetne %al"@,
        BinOp::Lt => "\tsetl %al"@,
        BinOp::Gt => "\tsetg %al"@,
        _ => "\tsete %al"@,
    }
}

/// The lines of a binary operation on operands `l`, `r` into `d`.
pub open spec fn binop_lines(op: BinOp, l: Seq<char>, r: Seq<char>, d: Seq<char>) -> Seq<Seq<char>> {
    match op {
        BinOp::Add => seq!["\taddq "@ + r + ", "@ + l, "\tmovq "@ + l + ", "@ + d],
        BinOp::Sub => seq!["\tmovq "@ + l + ", "@ + d, "\tsubq "@ + r + ", "@ + d],
        BinOp::Mul => seq![
            "\tmovq "@ + l + ", "@ + "%rax"@,
            "\timulq "@ + r + ", "@ + "%rax"@,
            "\tmovq "@ + "%rax"@ + ", "@ + d,
        ],
        BinOp::Div => seq![
            "\tmovq "@ + l + ", "@ + "%rax"@,
            "\tcqo"@,
            "\tidivq "@ + r,
            "\tmovq "@ + "%rax"@ + ", "@ + d,
        ],
        _ => seq![
            "\tmovq "@ + l + ", "@ + "%rax"@,
            "\tcmpq "@ + r + ", "@ + "%rax"@,
            set_line(op),
            "\tmovzbq %al, "@ + d,
        ],
    }
}

/// The lines of a unary operation on operand `x` into `d`.
pub open spec fn unop_lines(op: UnaryOp, x: Seq<char>, d: Seq<char>) -> Seq<Seq<char>> {
    match op {
        UnaryOp::Neg => seq!["\tnegq "@ + x, "\tmovq "@ + x + ", "@ + d],
        UnaryOp::Not => seq!["\txorq $1, "@ + x, "\tmovq "@ + x + ", "@ + d],
    }
}

/// The line that passes argument `a` in argument register `i`.
pub open spec fn arg_line(a: SsaValue, i: nat) -> Seq<char> {
    "\tmovq "@ + opnd(a) + ", %"@ + arg_reg(i)
}

/// The lines that pass the arguments of a call, up to the sixth.
pub open spec fn args_lines(args: Seq<SsaValue>) -> Seq<Seq<char>> {
    let n = if args.len() <= 6 { args.len() } else { 6 };
    Seq::new(n, |i: int| arg_line(args[i], i as nat))
}

/// The error for a call with more than six arguments.
pub open spec fn too_many_args() -> CodegenErrorV {
    CodegenErrorV::UnsupportedInstruction("Too many call args: "@ + nat_text(6))
}

/// The error for a function with more than six parameters.
pub open spec fn too_many_params() -> CodegenErrorV {
    CodegenErrorV::UnsupportedInstruction("Too many params: "@ + nat_text(6))
}

/// The line that stores captured value `v` at slot `i` of a closure held in `d`.
pub open spec fn env_line(v: SsaValue, i: nat, d: Seq<char>) -> Seq<char> {
    "\tmovq "@ + opnd(v) + ", "@ + nat_text(8 + i * 8) + "(%"@ + d + ")"@
}

/// Whether an instruction's sizes fit the machine (a closure's byte size).
pub open spec fn instr_fits(i: InstrV) -> bool {
    match i {
        InstrV::ClosureCreate { env_values, .. } => 8 + env_values.len() * 8 <= usize::MAX,
        _ => true,
    }
}

/// The assembly lines of an instruction, and the error it raises, if any
/// (the lines are those written before the error).
pub open spec fn instr_lines(ins: InstrV) -> (Seq<Seq<char>>, Option<CodegenErrorV>) {
    match ins {
        InstrV::Const { value, dest } => (seq![const_line(value, opnd(dest))], None),
        InstrV::BinOp { op, left, right, dest } => (
            binop_lines(op, opnd(left), opnd(right), opnd(dest)),
            None,
        ),
        InstrV::UnaryOp { op, operand, dest } => (unop_lines(op, opnd(operand), opnd(dest)), None),
        InstrV::Call { func, args, dest } => if args.len() > 6 {
            (args_lines(args), Some(too_many_args()))
        } else {
            match func {
                IrValueV::FuncRef(name) => (
                    args_lines(args) + seq!["\tcall "@ + name, "\tmovq %rax, "@ + opnd(dest)],
                    None,
                ),
                _ => (
                    args_lines(args),
                    Some(
                        CodegenErrorV::UnsupportedInstruction(
                            "Call with non-funcref value: "@ + ir_value_debug_text(func),
                        ),
                    ),
                ),
            }
        },
        InstrV::CallIndirect { func, args, dest } => if args.len() > 6 {
            (args_lines(args), Some(too_many_args()))
        } else {
            (
                args_lines(args) + seq!["\tcall *"@ + opnd(func), "\tmovq %rax, "@ + opnd(dest)],
                None,
            )
        },
        InstrV::ClosureCreate { func_name, env_values, dest } => (
            seq![
                "\tmovq $"@ + nat_text(8 + env_values.len() * 8) + ", %rdi"@,
                "\tcall malloc"@,
                "\tmovq %rax, "@ + opnd(dest),
                "\tlea "@ + func_name + "(%rip), %rcx"@,
                "\tmovq %rcx, ("@ + opnd(dest) + ")"@,
            ] + Seq::new(env_values.len(), |i: int| env_line(env_values[i], i as nat, opnd(dest))),
            None,
        ),
        InstrV::Load { region, dest, .. } => (
            seq![
                if region == Region::Stack {
                    "\tmovq "@ + "-(%rbp)"@ + ", "@ + opnd(dest)
                } else {
                    "\tmovq "@ + "0(%rip)"@ + ", "@ + opnd(dest)
                },
            ],
            None,
        ),
        InstrV::Store { value, region, .. } => (
            seq![
                if region == Region::Stack {
                    "\tmovq "@ + opnd(value) + ", -(%rbp)"@
                } else {
                    "\tmovq "@ + opnd(value) + ", 0(%rip)"@
                },
            ],
            None,
        ),
        InstrV::Branch { cond, else_block, .. } => (
            seq!["\ttestq "@ + opnd(cond) + ", "@ + opnd(cond), "\tje "@ + block_text(else_block)],
            None,
        ),
        InstrV::CondBranch { cond, then_block, else_block } => (
            seq![
                "\ttestq "@ + opnd(cond) + ", "@ + opnd(cond),
                "\tje "@ + block_text(else_block),
                "\tjmp "@ + block_text(then_block),
            ],
            None,
        ),
        InstrV::Return { value } => (
            seq![
                match value {
                    Some(v) => "\tmovq "@ + opnd(v) + ", %rax"@,
                    None => "\tmovq $0, %rax"@,
                },
                "\tret"@,
            ],
            None,
        ),
        _ => (seq![], None),
    }
}

/// `instr_lines` as a step of `run_lines`.
pub open spec fn instr_step() -> spec_fn(InstrV) -> (Seq<Seq<char>>, Option<CodegenErrorV>) {
    |i: InstrV| instr_lines(i)
}

/// `block_lines` as a step of `run_lines`.
pub open spec fn block_step() -> spec_fn(BlockV) -> (Seq<Seq<char>>, Option<CodegenErrorV>) {
    |b: BlockV| block_lines(b)
}

/// `function_step` as a step of `run_lines`.
pub open spec fn function_step_fn() -> spec_fn(FunctionV) -> (Seq<Seq<char>>, Option<(CodegenErrorV, Seq<char>)>) {
    |f: FunctionV| function_step(f)
}

/// The lines of a block: its label, then its instructions up to the first error.
pub open spec fn block_lines(b: BlockV) -> (Seq<Seq<char>>, Option<CodegenErrorV>) {
    let (l, e) = run_lines(b.instructions, instr_step());
    (seq![block_text(b.id) + ":"@] + l, e)
}

/// The line that saves parameter `i` in its stack slot.
pub open spec fn param_line(i: nat) -> Seq<char> {
    "\tmovq "@ + arg_reg(i) + ", -"@ + nat_text((i + 2) * 8) + "(%rbp)"@
}

/// The lines that save the parameters, up to the sixth.
pub open spec fn params_lines(n: nat) -> Seq<Seq<char>> {
    Seq::new(if n <= 6 { n } else { 6 }, |i: int| param_line(i as nat))
}

/// The lines of a function (label, prologue, parameter saves, blocks, epilogue)
/// and the error it raises, if any.
pub open spec fn function_lines(f: FunctionV) -> (Seq<Seq<char>>, Option<CodegenErrorV>) {
    let head = seq![f.name + ":"@, "\tpushq %rbp"@, "\tmovq %rsp, %rbp"@] + params_lines(
        f.params.len(),
    );
    if f.params.len() > 6 {
        (head, Some(too_many_params()))
    } else {
        let (bl, e) = run_lines(f.blocks, block_step());
        if e is Some {
            (head + bl, e)
        } else {
            (head + bl + seq!["\tmovq $0, %rax"@, "\tpopq %rbp"@, "\tret"@], None)
        }
    }
}

/// The outcome of one function for the program loop: its lines, and on error
/// the error together with the name of the function that raised it.
pub open spec fn function_step(f: FunctionV) -> (Seq<Seq<char>>, Option<(CodegenErrorV, Seq<char>)>) {
    let (l, e) = function_lines(f);
    match e {
        Some(x) => (l, Some((x, f.name))),
        None => (l, None),
    }
}

/// The lines of a global definition, given the string-label counter, and the
/// counter after it.
pub open spec fn global_lines(g: (Seq<char>, IrType, IrValueV), counter: nat) -> (Seq<Seq<char>>, nat) {
    let name = g.0;
    let head = seq![".globl "@ + name, name + ":"@];
    match (g.1, g.2) {
        (IrType::Int, IrValueV::Int(v)) => (head + seq!["\t.quad "@ + int_text(v as int)], counter),
        (IrType::Float, IrValueV::Float(f)) => (head + seq!["\t.double "@ + f.text], counter),
        (IrType::Bool, IrValueV::Bool(b)) => (
            head + seq!["\t.byte "@ + (if b { "1"@ } else { "0"@ })],
            counter,
        ),
        (IrType::String, IrValueV::StringLit(s)) => {
            let label = ".LC"@ + nat_text(counter);
            (
                head + seq![label + ":"@, "\t.string \""@ + s + "\""@, "\t.quad "@ + label],
                counter + 1,
            )
        },
        _ => (head + seq!["\t.zero 8"@], counter),
    }
}

/// The lines of the globals in order, threading the string-label counter.
pub open spec fn globals_lines(gs: Seq<(Seq<char>, IrType, IrValueV)>, counter: nat) -> (Seq<Seq<char>>, nat)
    decreases gs.len(),
{
    if gs.len() == 0 {
        (seq![], counter)
    } else {
        let (p, c) = globals_lines(gs.drop_last(), counter);
        let (q, c2) = global_lines(gs.last(), c);
        (p + q, c2)
    }
}

/// Whether every closure in the function's blocks fits the machine.
pub open spec fn function_fits(f: FunctionV) -> bool {
    forall|b: int, i: int|
        0 <= b < f.blocks.len() && 0 <= i < f.blocks[b].instructions.len() ==> #[trigger] instr_fits(
            f.blocks[b].instructions[i],
        )
}

/// Whether every closure of the program fits the machine, and the string-label
/// counter cannot overflow while the globals are emitted from `counter`.
pub open spec fn program_fits(p: ProgramV, counter: nat) -> bool {
    &&& forall|k: int| 0 <= k < p.functions.len() ==> #[trigger] function_fits(p.functions[k])
    &&& counter + p.globals.len() <= usize::MAX
}



// ============================================================================
// ASSEMBLY CODE GENERATOR (x86_64)
// ============================================================================

/// Generates x86_64 assembly text from an IR program.
pub struct AsmGenerator {
    arch: Arch,
    output: Vec<String>,
    label_counter: usize,
    current_function: Option<String>,
}

/// The text of an optional string.
pub open spec fn opt_text(s: Option<String>) -> Option<Seq<char>> {
    match s {
        Some(x) => Some(x@),
        None => None,
    }
}

impl AsmGenerator {
    /// The target architecture.
    pub closed spec fn arch(&self) -> Arch {
        self.arch
    }

    /// The lines written so far.
    pub closed spec fn output(&self) -> Seq<Seq<char>> {
        self.output@.map_values(|l: String| l@)
    }

    /// The counter of string-literal labels.
    pub closed spec fn label_counter(&self) -> usize {
        self.label_counter
    }

    /// The function being generated, if any.
    pub closed spec fn current_function(&self) -> Option<Seq<char>> {
        opt_text(self.current_function)
    }

    /// Creates a generator for `arch` with no output.
    pub fn new(arch: Arch) -> (g: Self)
        ensures
            g.arch() == arch,
            g.output() == Seq::<Seq<char>>::empty(),
            g.label_counter() == 0,
            g.current_function() == None::<Seq<char>>,
    {
        let g = AsmGenerator { arch, output: Vec::new(), label_counter: 0, current_function: None };
        assert(g.output() =~= Seq::<Seq<char>>::empty());
        g
    }

    fn emit(&mut self, line: String)
        ensures
            final(self).output() == old(self).output().push(line@),
            final(self).arch == old(self).arch,
            final(self).label_counter == old(self).label_counter,
            final(self).current_function == old(self).current_function,
    {
        let ghost l = line@;
        self.output.push(line);
        assert(final(self).output() =~= old(self).output().push(l));
    }

    fn emit_lit(&mut self, line: &str)
        ensures
            final(self).output() == old(self).output().push(line@),
            final(self).arch == old(self).arch,
            final(self).label_counter == old(self).label_counter,
            final(self).current_function == old(self).current_function,
    {
        self.emit(string_of(line));
    }

    /// Generates assembly for an IR program: an `.extern malloc` line, the
    /// globals, then each function; on success, all lines written so far
    /// joined by newlines.
    pub fn generate(&mut self, program: &IcnfProgram) -> (r: Result<String, CodegenError>)
        requires
            program_fits(program@, old(self).label_counter() as nat),
        ensures
            ({
                let (gl, c) = globals_lines(program@.globals, old(self).label_counter() as nat);
                let (fl, e) = run_lines(program@.functions, function_step_fn());
                &&& final(self).output() == old(self).output() + seq![".extern malloc"@] + gl + fl
                &&& final(self).label_counter() == c
                &&& final(self).arch() == old(self).arch()
                &&& match e {
                    None => r is Ok && r->Ok_0@ == join(final(self).output(), "\n"@)
                        && final(self).current_function() == (if program@.functions.len() > 0 {
                            None
                        } else {
                            old(self).current_function()
                        }),
                    Some((err, name)) => r is Err && r->Err_0@ == err
                        && final(self).current_function() == Some(name),
                }
            }),
    {
        self.emit_lit(".extern malloc");
        let ghost out0 = self.output();
        let ghost c0 = self.label_counter as nat;
        let ghost gs = program@.globals;
        let mut i: usize = 0;
        while i < program.globals.len()
            invariant
                i <= program.globals@.len(),
                gs == program@.globals,
                program_fits(program@, old(self).label_counter() as nat),
                c0 == old(self).label_counter() as nat,
                out0 == old(self).output().push(".extern malloc"@),
                self.output() == out0 + globals_lines(gs.take(i as int), c0).0,
                self.label_counter as nat == globals_lines(gs.take(i as int), c0).1,
                self.label_counter as nat <= c0 + i,
                self.arch == old(self).arch,
                self.current_function == old(self).current_function,
            decreases program.globals.len() - i,
        {
            proof {
                assert(gs.take(i + 1).drop_last() =~= gs.take(i as int));
                assert(gs.take(i + 1).last() == gs[i as int]);
                assert(gs[i as int] == (program.globals@[i as int].0@, program.globals@[i as int].1, program.globals@[i as int].2@));
            }
            self.gen_global(&program.globals[i]);
            assert(self.output() =~= out0 + globals_lines(gs.take(i + 1), c0).0);
            i = i + 1;
        }
        assert(gs.take(program.globals.len() as int) =~= gs);
        let ghost out1 = self.output();
        let ghost fs = program@.functions;
        let ghost step = function_step_fn();
        let mut k: usize = 0;
        while k < program.functions.len()
            invariant
                k <= program.functions@.len(),
                fs == program@.functions,
                program_fits(program@, old(self).label_counter() as nat),
                step == function_step_fn(),
                self.output() == out1 + run_lines(fs.take(k as int), step).0,
                out1 == old(self).output() + seq![".extern malloc"@] + globals_lines(gs, c0).0,
                c0 == old(self).label_counter() as nat,
                gs == program@.globals,
                run_lines(fs.take(k as int), step).1 is None,
                self.label_counter == globals_lines(gs, c0).1,
                self.arch == old(self).arch,
                k == 0 ==> self.current_function == old(self).current_function,
                k > 0 ==> self.current_function is None,
            decreases program.functions.len() - k,
        {
            proof {
                lemma_run_lines_step(fs, k as int, step);
                assert(fs[k as int] == program.functions@[k as int]@);
                assert(function_fits(fs[k as int]));
            }
            let res = self.gen_function(&program.functions[k]);
            match res {
                Ok(()) => {
                    assert(self.output() =~= out1 + run_lines(fs.take(k + 1), step).0);
                },
                Err(e) => {
                    proof {
                        assert(self.output() =~= out1 + run_lines(fs.take(k + 1), step).0);
                        assert(run_lines(fs.take(k + 1), step).1 == Some((e@, fs[k as int].name)));
                        lemma_run_lines_fault(fs, k + 1, step);
                    }
                    return Err(e);
                },
            }
            k = k + 1;
        }
        assert(fs.take(program.functions.len() as int) =~= fs);
        Ok(join_strings(&self.output, "\n"))
    }

    fn gen_global(&mut self, global: &(String, IrType, IrValue))
        requires
            old(self).label_counter < usize::MAX,
        ensures
            ({
                let (l, c) = global_lines(
                    (global.0@, global.1, global.2@),
                    old(self).label_counter as nat,
                );
                &&& final(self).output() == old(self).output() + l
                &&& final(self).label_counter as nat == c
            }),
            final(self).label_counter <= old(self).label_counter + 1,
            final(self).arch == old(self).arch,
            final(self).current_function == old(self).current_function,
    {
        let (name, ty, value) = global;
        let ghost out0 = self.output();
        let mut l1 = string_of(".globl ");
        l1.append(name.as_str());
        self.emit(l1);
        let mut l2 = name.clone();
        l2.append(":");
        self.emit(l2);
        let ghost head = seq![".globl "@ + name@, name@ + ":"@];
        assert(self.output() =~= out0 + head);
        match (ty, value) {
            (IrType::Int, IrValue::Int(v)) => {
                let mut l = string_of("\t.quad ");
                push_i64(&mut l, *v);
                self.emit(l);
            },
            (IrType::Float, IrValue::Float(v)) => {
                let mut l = string_of("\t.double ");
                l.append(v.text.as_str());
                self.emit(l);
            },
            (IrType::Bool, IrValue::Bool(v)) => {
                let mut l = string_of("\t.byte ");
                if *v {
                    l.append("1");
                } else {
                    l.append("0");
                }
                self.emit(l);
            },
            (IrType::String, IrValue::StringLit(s)) => {
                let mut label = string_of(".LC");
                push_usize(&mut label, self.label_counter);
                self.label_counter = self.label_counter + 1;
                let mut a = label.clone();
                a.append(":");
                self.emit(a);
                let mut b = string_of("\t.string \"");
                b.append(s.as_str());
                b.append("\"");
                self.emit(b);
                let mut c = string_of("\t.quad ");
                c.append(label.as_str());
                self.emit(c);
            },
            _ => {
                self.emit_lit("\t.zero 8");
            },
        }
        assert(self.output() =~= out0 + global_lines(
            (global.0@, global.1, global.2@),
            old(self).label_counter as nat,
        ).0);
    }

    fn gen_function(&mut self, func: &Function) -> (r: Result<(), CodegenError>)
        requires
            function_fits(func@),
        ensures
            ({
                let (l, e) = function_lines(func@);
                &&& final(self).output() == old(self).output() + l
                &&& match e {
                    None => r is Ok && final(self).current_function() == None::<Seq<char>>,
                    Some(err) => r is Err && r->Err_0@ == err
                        && final(self).current_function() == Some(func@.name),
                }
            }),
            final(self).arch == old(self).arch,
            final(self).label_counter == old(self).label_counter,
    {
        let ghost out0 = self.output();
        let ghost fv = func@;
        self.current_function = Some(func.name.clone());
        let mut l = func.name.clone();
        l.append(":");
        self.emit(l);
        self.emit_lit("\tpushq %rbp");
        self.emit_lit("\tmovq %rsp, %rbp");
        let ghost head0 = seq![fv.name + ":"@, "\tpushq %rbp"@, "\tmovq %rsp, %rbp"@];
        assert(self.output() =~= out0 + head0);
        let mut i: usize = 0;
        while i < func.params.len()
            invariant
                i <= func.params@.len(),
                i <= 6,
                fv == func@,
                self.output() == out0 + head0 + params_lines(i as nat),
                out0 == old(self).output(),
                head0 == seq![fv.name + ":"@, "\tpushq %rbp"@, "\tmovq %rsp, %rbp"@],
                self.current_function() == Some(fv.name),
                self.arch == old(self).arch,
                self.label_counter == old(self).label_counter,
            decreases func.params.len() - i,
        {
            let reg = if i == 0 {
                "rdi"
            } else if i == 1 {
                "rsi"
            } else if i == 2 {
                "rdx"
            } else if i == 3 {
                "rcx"
            } else if i == 4 {
                "r8"
            } else if i == 5 {
                "r9"
            } else {
                let mut msg = string_of("Too many params: ");
                push_usize(&mut msg, i);
                assert(params_lines(func@.params.len()) =~= params_lines(6));
                assert(function_lines(fv).0 == seq![fv.name + ":"@, "\tpushq %rbp"@, "\tmovq %rsp, %rbp"@] + params_lines(fv.params.len()));
                assert(self.output() =~= out0 + function_lines(fv).0);
                return Err(CodegenError::UnsupportedInstruction(msg));
            };
            let stack_offset = (i + 2) * 8;
            let mut p = string_of("\tmovq ");
            p.append(reg);
            p.append(", -");
            push_usize(&mut p, stack_offset);
            p.append("(%rbp)");
            assert(p@ =~= param_line(i as nat));
            self.emit(p);
            assert(params_lines((i + 1) as nat) =~= params_lines(i as nat).push(param_line(i as nat)));
            i = i + 1;
        }
        assert(params_lines(i as nat) =~= params_lines(fv.params.len()));
        let ghost out1 = self.output();
        let ghost bs = fv.blocks;
        let ghost step = block_step();
        let mut k: usize = 0;
        while k < func.blocks.len()
            invariant
                k <= func.blocks@.len(),
                fv == func@,
                bs == fv.blocks,
                fv.params.len() <= 6,
                function_fits(fv),
                step == block_step(),
                self.output() == out1 + run_lines(bs.take(k as int), step).0,
                out1 == out0 + head0 + params_lines(fv.params.len()),
                out0 == old(self).output(),
                head0 == seq![fv.name + ":"@, "\tpushq %rbp"@, "\tmovq %rsp, %rbp"@],
                run_lines(bs.take(k as int), step).1 is None,
                self.current_function() == Some(fv.name),
                self.arch == old(self).arch,
                self.label_counter == old(self).label_counter,
            decreases func.blocks.len() - k,
        {
            proof {
                lemma_run_lines_step(bs, k as int, step);
                assert(bs[k as int] == func.blocks@[k as int]@);
            }
            let res = self.gen_block(&func.blocks[k], func);
            match res {
                Ok(()) => {
                    assert(self.output() =~= out1 + run_lines(bs.take(k + 1), step).0);
                },
                Err(e) => {
                    proof {
                        assert(self.output() =~= out1 + run_lines(bs.take(k + 1), step).0);
                        assert(run_lines(bs.take(k + 1), step).1 == Some(e@));
                        lemma_run_lines_fault(bs, k + 1, step);
                        assert(self.output() =~= out0 + function_lines(fv).0);
                    }
                    return Err(e);
                },
            }
            k = k + 1;
        }
        assert(bs.take(func.blocks.len() as int) =~= bs);
        let last = if func.blocks.len() > 0 {
            Some(func.blocks[func.blocks.len() - 1].id)
        } else {
            None
        };
        if !self.has_ending_return(&last) {
            self.emit_lit("\tmovq $0, %rax");
        }
        self.emit_lit("\tpopq %rbp");
        self.emit_lit("\tret");
        self.current_function = None;
        assert(self.output() =~= out0 + function_lines(fv).0);
        Ok(())
    }

    fn gen_block(&mut self, block: &Block, _func: &Function) -> (r: Result<(), CodegenError>)
        requires
            forall|i: int| 0 <= i < block@.instructions.len() ==> #[trigger] instr_fits(block@.instructions[i]),
        ensures
            ({
                let (l, e) = block_lines(block@);
                &&& final(self).output() == old(self).output() + l
                &&& match e {
                    None => r is Ok,
                    Some(err) => r is Err && r->Err_0@ == err,
                }
            }),
            final(self).arch == old(self).arch,
            final(self).label_counter == old(self).label_counter,
            final(self).current_function == old(self).current_function,
    {
        let ghost out0 = self.output();
        let mut l = block_label(block.id);
        l.append(":");
        self.emit(l);
        let ghost out1 = self.output();
        let ghost is = block@.instructions;
        let ghost step = instr_step();
        let mut k: usize = 0;
        while k < block.instructions.len()
            invariant
                k <= block.instructions@.len(),
                is == block@.instructions,
                forall|i: int| 0 <= i < is.len() ==> #[trigger] instr_fits(is[i]),
                step == instr_step(),
                self.output() == out1 + run_lines(is.take(k as int), step).0,
                out1 == out0.push(block_text(block.id) + ":"@),
                out0 == old(self).output(),
                run_lines(is.take(k as int), step).1 is None,
                self.arch == old(self).arch,
                self.label_counter == old(self).label_counter,
                self.current_function == old(self).current_function,
            decreases block.instructions.len() - k,
        {
            proof {
                lemma_run_lines_step(is, k as int, step);
                assert(is[k as int] == block.instructions@[k as int]@);
            }
            let res = self.gen_instruction(&block.instructions[k]);
            match res {
                Ok(()) => {
                    assert(self.output() =~= out1 + run_lines(is.take(k + 1), step).0);
                },
                Err(e) => {
                    proof {
                        assert(self.output() =~= out1 + run_lines(is.take(k + 1), step).0);
                        assert(run_lines(is.take(k + 1), step).1 == Some(e@));
                        lemma_run_lines_fault(is, k + 1, step);
                        assert(self.output() =~= out0 + block_lines(block@).0);
                    }
                    return Err(e);
                },
            }
            k = k + 1;
        }
        assert(is.take(block.instructions.len() as int) =~= is);
        assert(self.output() =~= out0 + block_lines(block@).0);
        Ok(())
    }

    fn gen_call_args(&mut self, args: &Vec<SsaValue>) -> (r: Result<(), CodegenError>)
        ensures
            final(self).output() == old(self).output() + args_lines(args@),
            args@.len() > 6 ==> r is Err && r->Err_0@ == too_many_args(),
            args@.len() <= 6 ==> r is Ok,
            final(self).arch == old(self).arch,
            final(self).label_counter == old(self).label_counter,
            final(self).current_function == old(self).current_function,
    {
        let ghost out0 = self.output();
        let mut i: usize = 0;
        while i < args.len()
            invariant
                i <= args@.len(),
                i <= 6,
                out0 == old(self).output(),
                self.output() == out0 + args_lines(args@.take(i as int)),
                self.arch == old(self).arch,
                self.label_counter == old(self).label_counter,
                self.current_function == old(self).current_function,
            decreases args.len() - i,
        {
            let reg = self.gen_load_operand(&args[i])?;
            let target_reg = if i == 0 {
                "rdi"
            } else if i == 1 {
                "rsi"
            } else if i == 2 {
                "rdx"
            } else if i == 3 {
                "rcx"
            } else if i == 4 {
                "r8"
            } else if i == 5 {
                "r9"
            } else {
                let mut msg = string_of("Too many call args: ");
                push_usize(&mut msg, i);
                assert(args_lines(args@.take(6)) =~= args_lines(args@));
                assert(msg@ =~= "Too many call args: "@ + nat_text(6));
                assert(self.output() =~= old(self).output() + args_lines(args@));
                return Err(CodegenError::UnsupportedInstruction(msg));
            };
            let mut l = string_of("\tmovq ");
            l.append(reg.as_str());
            l.append(", %");
            l.append(target_reg);
            assert(l@ =~= arg_line(args@[i as int], i as nat));
            self.emit(l);
            assert(args_lines(args@.take(i + 1)) =~= args_lines(args@.take(i as int)).push(
                arg_line(args@[i as int], i as nat),
            ));
            i = i + 1;
        }
        assert(args@.take(i as int) =~= args@);
        Ok(())
    }

    fn gen_instruction(&mut self, instr: &Instruction) -> (r: Result<(), CodegenError>)
        requires
            instr_fits(instr@),
        ensures
            ({
                let (l, e) = instr_lines(instr@);
                &&& final(self).output() == old(self).output() + l
                &&& match e {
                    None => r is Ok,
                    Some(err) => r is Err && r->Err_0@ == err,
                }
            }),
            final(self).arch == old(self).arch,
            final(self).label_counter == old(self).label_counter,
            final(self).current_function == old(self).current_function,
    {
        match instr {
            Instruction::Const { value, dest } => {
                let dest_reg = self.gen_dest_reg(dest)?;
                let l = const_text(value, &dest_reg);
                self.emit(l);
                assert(self.output() =~= old(self).output() + instr_lines(instr@).0);
            },
            Instruction::BinOp { op, left, right, dest } => {
                let left_reg = self.gen_load_operand(left)?;
                let right_reg = self.gen_load_operand(right)?;
                let dest_reg = self.gen_dest_reg(dest)?;
                self.gen_binop(*op, left_reg.as_str(), right_reg.as_str(), dest_reg.as_str());
            },
            Instruction::UnaryOp { op, operand, dest } => {
                let reg = self.gen_load_operand(operand)?;
                let dest_reg = self.gen_dest_reg(dest)?;
                match op {
                    UnaryOp::Neg => {
                        self.emit2("\tnegq ", reg.as_str());
                        self.emit4("\tmovq ", reg.as_str(), ", ", dest_reg.as_str());
                    },
                    UnaryOp::Not => {
                        self.emit2("\txorq $1, ", reg.as_str());
                        self.emit4("\tmovq ", reg.as_str(), ", ", dest_reg.as_str());
                    },
                }
                assert(self.output() =~= old(self).output() + instr_lines(instr@).0);
            },
            Instruction::Call { func, args, dest } => {
                return self.gen_call(instr);
            },
            Instruction::CallIndirect { func, args, dest } => {
                self.gen_call_args(args)?;
                let dest_reg = self.gen_dest_reg(dest)?;
                let func_reg = self.gen_load_operand(func)?;
                self.emit2("\tcall *", func_reg.as_str());
                self.emit2("\tmovq %rax, ", dest_reg.as_str());
                assert(self.output() =~= old(self).output() + instr_lines(instr@).0);
            },
            Instruction::ClosureCreate { .. } => {
                return self.gen_closure(instr);
            },
            Instruction::Load { name: _, region, dest } => {
                let dest_reg = self.gen_dest_reg(dest)?;
                let offset = match region {
                    Region::Stack => "-(%rbp)",
                    _ => "0(%rip)",
                };
                self.emit4("\tmovq ", offset, ", ", dest_reg.as_str());
                assert(self.output() =~= old(self).output() + instr_lines(instr@).0);
            },
            Instruction::Store { name: _, value, region } => {
                let reg = self.gen_load_operand(value)?;
                match region {
                    Region::Stack => {
                        self.emit3("\tmovq ", reg.as_str(), ", -(%rbp)");
                    },
                    _ => {
                        self.emit3("\tmovq ", reg.as_str(), ", 0(%rip)");
                    },
                }
                assert(self.output() =~= old(self).output() + instr_lines(instr@).0);
            },
            Instruction::Branch { cond, then_block: _, else_block: default_block } => {
                let reg = self.gen_load_operand(cond)?;
                self.emit4("\ttestq ", reg.as_str(), ", ", reg.as_str());
                let b = block_label(*default_block);
                self.emit2("\tje ", b.as_str());
                assert(self.output() =~= old(self).output() + instr_lines(instr@).0);
            },
            Instruction::CondBranch { cond, then_block, else_block } => {
                let reg = self.gen_load_operand(cond)?;
                self.emit4("\ttestq ", reg.as_str(), ", ", reg.as_str());
                let e = block_label(*else_block);
                self.emit2("\tje ", e.as_str());
                let t = block_label(*then_block);
                self.emit2("\tjmp ", t.as_str());
                assert(self.output() =~= old(self).output() + instr_lines(instr@).0);
            },
            Instruction::Return { value } => {
                if let Some(v) = value {
                    let reg = self.gen_load_operand(v)?;
                    self.emit3("\tmovq ", reg.as_str(), ", %rax");
                } else {
                    self.emit_lit("\tmovq $0, %rax");
                }
                self.emit_lit("\tret");
                assert(self.output() =~= old(self).output() + instr_lines(instr@).0);
            },
            Instruction::Phi { .. } | Instruction::Alloc { .. } | Instruction::Cast { .. }
            | Instruction::Spawn { .. } | Instruction::Send { .. } | Instruction::FfiCall { .. }
            | Instruction::Assert { .. } | Instruction::Nop => {
                // These are handled specially or are no-ops in this generator.
                assert(self.output() =~= old(self).output() + instr_lines(instr@).0);
            },
        }
        Ok(())
    }

    fn gen_binop(&mut self, op: BinOp, l: &str, r: &str, d: &str)
        ensures
            final(self).output() == old(self).output() + binop_lines(op, l@, r@, d@),
            final(self).arch == old(self).arch,
            final(self).label_counter == old(self).label_counter,
            final(self).current_function == old(self).current_function,
    {
        match op {
            BinOp::Add => {
                self.emit4("\taddq ", r, ", ", l);
                self.emit4("\tmovq ", l, ", ", d);
            },
            BinOp::Sub => {
                self.emit4("\tmovq ", l, ", ", d);
                self.emit4("\tsubq ", r, ", ", d);
            },
            BinOp::Mul => {
                let rax = "%rax";
                self.emit4("\tmovq ", l, ", ", rax);
                self.emit4("\timulq ", r, ", ", rax);
                self.emit4("\tmovq ", rax, ", ", d);
            },
            BinOp::Div => {
                let rax = "%rax";
                self.emit4("\tmovq ", l, ", ", rax);
                self.emit_lit("\tcqo");
                self.emit2("\tidivq ", r);
                self.emit4("\tmovq ", rax, ", ", d);
            },
            BinOp::Eq => {
                self.emit_compare(l, r, "\tsete %al", d);
            },
            BinOp::Ne => {
                self.emit_compare(l, r, "\tsetne %al", d);
            },
            BinOp::Lt => {
                self.emit_compare(l, r, "\tsetl %al", d);
            },
            BinOp::Gt => {
                self.emit_compare(l, r, "\tsetg %al", d);
            },
            _ => {
                // Other operators: a generic comparison.
                self.emit_compare(l, r, "\tsete %al", d);
            },
        }
        assert(final(self).output() =~= old(self).output() + binop_lines(op, l@, r@, d@));
    }

    fn gen_call(&mut self, instr: &Instruction) -> (r: Result<(), CodegenError>)
        requires
            instr is Call,
        ensures
            ({
                let (l, e) = instr_lines(instr@);
                &&& final(self).output() == old(self).output() + l
                &&& match e {
                    None => r is Ok,
                    Some(err) => r is Err && r->Err_0@ == err,
                }
            }),
            final(self).arch == old(self).arch,
            final(self).label_counter == old(self).label_counter,
            final(self).current_function == old(self).current_function,
    {
        if let Instruction::Call { func, args, dest } = instr {
            self.gen_call_args(args)?;
            let dest_reg = self.gen_dest_reg(dest)?;
            match func {
                IrValue::FuncRef(name) => {
                    self.emit2("\tcall ", name.as_str());
                },
                _ => {
                    let mut msg = string_of("Call with non-funcref value: ");
                    let dbg = ir_value_debug(func);
                    msg.append(dbg.as_str());
                    return Err(CodegenError::UnsupportedInstruction(msg));
                },
            }
            self.emit2("\tmovq %rax, ", dest_reg.as_str());
            assert(self.output() =~= old(self).output() + instr_lines(instr@).0);
        }
        Ok(())
    }

    fn gen_closure(&mut self, instr: &Instruction) -> (r: Result<(), CodegenError>)
        requires
            instr is ClosureCreate,
            instr_fits(instr@),
        ensures
            ({
                let (l, e) = instr_lines(instr@);
                &&& final(self).output() == old(self).output() + l
                &&& match e {
                    None => r is Ok,
                    Some(err) => r is Err && r->Err_0@ == err,
                }
            }),
            final(self).arch == old(self).arch,
            final(self).label_counter == old(self).label_counter,
            final(self).current_function == old(self).current_function,
    {
        if let Instruction::ClosureCreate { func_name, env_values, dest } = instr {
            let ghost out0 = self.output();
            let size = 8 + (env_values.len() * 8);
            let mut l1 = string_of("\tmovq $");
            push_usize(&mut l1, size);
            l1.append(", %rdi");
            self.emit(l1);
            self.emit_lit("\tcall malloc");
            let dest_reg = self.gen_dest_reg(dest)?;
            self.emit2("\tmovq %rax, ", dest_reg.as_str());
            self.emit3("\tlea ", func_name.as_str(), "(%rip), %rcx");
            self.emit3("\tmovq %rcx, (", dest_reg.as_str(), ")");
            let ghost d = opnd(*dest);
            let ghost ev = env_values@;
            let ghost head = seq![
                "\tmovq $"@ + nat_text(8 + ev.len() * 8) + ", %rdi"@,
                "\tcall malloc"@,
                "\tmovq %rax, "@ + d,
                "\tlea "@ + func_name@ + "(%rip), %rcx"@,
                "\tmovq %rcx, ("@ + d + ")"@,
            ];
            assert(self.output() =~= out0 + head);
            let mut i: usize = 0;
            while i < env_values.len()
                invariant
                    i <= ev.len(),
                    ev == env_values@,
                    8 + ev.len() * 8 <= usize::MAX,
                    dest_reg@ == d,
                    self.output() == out0 + head + Seq::new(
                        i as nat,
                        |j: int| env_line(ev[j], j as nat, d),
                    ),
                    self.arch == old(self).arch,
                    self.label_counter == old(self).label_counter,
                    self.current_function == old(self).current_function,
                decreases env_values.len() - i,
            {
                let offset = 8 + (i * 8);
                let val_reg = self.gen_load_operand(&env_values[i])?;
                let mut l = string_of("\tmovq ");
                l.append(val_reg.as_str());
                l.append(", ");
                push_usize(&mut l, offset);
                l.append("(%");
                l.append(dest_reg.as_str());
                l.append(")");
                assert(l@ =~= env_line(ev[i as int], i as nat, d));
                self.emit(l);
                assert(Seq::new((i + 1) as nat, |j: int| env_line(ev[j], j as nat, d)) =~= Seq::new(
                    i as nat,
                    |j: int| env_line(ev[j], j as nat, d),
                ).push(env_line(ev[i as int], i as nat, d)));
                i = i + 1;
            }
            assert(self.output() =~= out0 + instr_lines(instr@).0);
        }
        Ok(())
    }

    fn emit2(&mut self, a: &str, b: &str)
        ensures
            final(self).output() == old(self).output().push(a@ + b@),
            final(self).arch == old(self).arch,
            final(self).label_counter == old(self).label_counter,
            final(self).current_function == old(self).current_function,
    {
        let mut l = string_of(a);
        l.append(b);
        self.emit(l);
    }

    fn emit3(&mut self, a: &str, b: &str, c: &str)
        ensures
            final(self).output() == old(self).output().push(a@ + b@ + c@),
            final(self).arch == old(self).arch,
            final(self).label_counter == old(self).label_counter,
            final(self).current_function == old(self).current_function,
    {
        let mut l = string_of(a);
        l.append(b);
        l.append(c);
        self.emit(l);
    }

    fn emit4(&mut self, a: &str, b: &str, c: &str, d: &str)
        ensures
            final(self).output() == old(self).output().push(a@ + b@ + c@ + d@),
            final(self).arch == old(self).arch,
            final(self).label_counter == old(self).label_counter,
            final(self).current_function == old(self).current_function,
    {
        let mut l = string_of(a);
        l.append(b);
        l.append(c);
        l.append(d);
        self.emit(l);
    }

    fn emit_compare(&mut self, l: &str, r: &str, set: &str, d: &str)
        ensures
            final(self).output() == old(self).output() + seq![
                "\tmovq "@ + l@ + ", "@ + "%rax"@,
                "\tcmpq "@ + r@ + ", "@ + "%rax"@,
                set@,
                "\tmovzbq %al, "@ + d@,
            ],
            final(self).arch == old(self).arch,
            final(self).label_counter == old(self).label_counter,
            final(self).current_function == old(self).current_function,
    {
        let rax = "%rax";
        self.emit4("\tmovq ", l, ", ", rax);
        self.emit4("\tcmpq ", r, ", ", rax);
        self.emit_lit(set);
        self.emit2("\tmovzbq %al, ", d);
        assert(final(self).output() =~= old(self).output() + seq![
            "\tmovq "@ + l@ + ", "@ + "%rax"@,
            "\tcmpq "@ + r@ + ", "@ + "%rax"@,
            set@,
            "\tmovzbq %al, "@ + d@,
        ]);
    }

    /// The operand text of an SSA value.
    fn gen_load_operand(&mut self, value: &SsaValue) -> (r: Result<String, CodegenError>)
        ensures
            r is Ok && r->Ok_0@ == opnd(*value),
            *final(self) == *old(self),
    {
        if let Some(reg) = self.get_ssa_reg(value.id) {
            let mut s = string_of("%");
            s.append(reg.name());
            Ok(s)
        } else {
            // Load from the value's memory slot.
            let mut s = string_of("-");
            push_usize(&mut s, value.id.0 * 8);
            s.append("(%rbp)");
            Ok(s)
        }
    }

    /// The register text of an SSA destination.
    fn gen_dest_reg(&mut self, dest: &SsaValue) -> (r: Result<String, CodegenError>)
        ensures
            r is Ok && r->Ok_0@ == opnd(*dest),
            *final(self) == *old(self),
    {
        if let Some(reg) = self.get_ssa_reg(dest.id) {
            let mut s = string_of("%");
            s.append(reg.name());
            return Ok(s);
        }
        let reg = slot_register(dest.id.0 % 9);
        let mut c = string_of("; allocated reg ");
        c.append(reg.name());
        c.append(" for SSA id ");
        let t = ssa_label(dest.id);
        c.append(t.as_str());
        self.emit(c);
        let mut s = string_of("%");
        s.append(reg.name());
        Ok(s)
    }

    fn get_ssa_reg(&self, id: SsaId) -> (r: Option<Reg>)
        ensures
            r == Some(ssa_reg(id)),
    {
        Some(slot_register(id.0 % 9))
    }

    fn has_ending_return(&self, _last_block_id: &Option<BlockId>) -> (b: bool)
        ensures
            !b,
    {
        false
    }
}

/// The register of scratch slot `i`.
fn slot_register(i: usize) -> (r: Reg)
    requires
        i < 9,
    ensures
        r == slot_reg(i as nat),
{
    if i == 0 {
        Reg::Rax
    } else if i == 1 {
        Reg::Rcx
    } else if i == 2 {
        Reg::Rdx
    } else if i == 3 {
        Reg::Rsi
    } else if i == 4 {
        Reg::Rdi
    } else if i == 5 {
        Reg::R8
    } else if i == 6 {
        Reg::R9
    } else if i == 7 {
        Reg::R10
    } else {
        Reg::R11
    }
}

/// The line that loads constant `value` into the register text `dest_reg`.
fn const_text(value: &IrValue, dest_reg: &String) -> (l: String)
    ensures
        l@ == const_line(value@, dest_reg@),
{
    let mut l = String::new();
    match value {
        IrValue::Int(v) => {
            l.append("\tmovq $");
            push_i64(&mut l, *v);
            l.append(", ");
            l.append(dest_reg.as_str());
        },
        IrValue::Float(v) => {
            l.append("\tmovq $");
            push_u64(&mut l, v.bits);
            l.append(", ");
            l.append(dest_reg.as_str());
        },
        IrValue::Bool(v) => {
            l.append("\tmovq $");
            if *v {
                l.append("1");
            } else {
                l.append("0");
            }
            l.append(", ");
            l.append(dest_reg.as_str());
        },
        IrValue::StringLit(s) => {
            l.append("\tlea .LCstr_");
            push_usize(&mut l, s.as_str().len());
            l.append(", ");
            l.append(dest_reg.as_str());
        },
        IrValue::Unit => {
            l.append("\tmovq $0, ");
            l.append(dest_reg.as_str());
        },
        IrValue::FuncRef(name) => {
            l.append("\tlea ");
            l.append(name.as_str());
            l.append("(%rip), ");
            l.append(dest_reg.as_str());
        },
    }
    assert(l@ =~= const_line(value@, dest_reg@));
    l
}

/// The label text of a block (`bbN`).
pub fn block_label(b: BlockId) -> (s: String)
    ensures
        s@ == block_text(b),
{
    let mut s = string_of("bb");
    push_usize(&mut s, b.0);
    s
}

/// The text of an SSA id (`%N`).
pub fn ssa_label(id: SsaId) -> (s: String)
    ensures
        s@ == ssa_text(id),
{
    let mut s = string_of("%");
    push_usize(&mut s, id.0);
    s
}


// ============================================================================
// LLVM CODE GENERATOR
// ============================================================================

/// The LLVM type of an IR type.
pub open spec fn llvm_type(t: IrType) -> Seq<char> {
    match t {
        IrType::Int => "i64"@,
        IrType::Float => "double"@,
        IrType::Bool => "i1"@,
        IrType::String => "i8*"@,
        IrType::Unit => "void"@,
        IrType::Fun(_, ret) => match *ret {
            IrType::Unit => "void"@,
            _ => "i64"@,
        },
        IrType::Tuple(_) => "i64"@,
        IrType::ActorRef => "i64"@,
        IrType::Ptr(_) => "i8*"@,
    }
}

/// The LLVM mnemonic of a binary operator (other operators print as `add`).
pub open spec fn llvm_binop(op: BinOp) -> Seq<char> {
    match op {
        BinOp::Add => "add"@,
        BinOp::Sub => "sub"@,
        BinOp::Mul => "mul"@,
        BinOp::Div => "sdiv"@,
        _ => "add"@,
    }
}

/// The LLVM text of an instruction.
pub open spec fn llvm_instr(i: InstrV) -> Seq<char> {
    match i {
        InstrV::Const { value, dest } => match value {
            IrValueV::Int(v) => ssa_text(dest.id) + " = const i64 "@ + int_text(v as int),
            IrValueV::Float(f) => ssa_text(dest.id) + " = const double "@ + f.text,
            IrValueV::Bool(b) => ssa_text(dest.id) + " = const i1 "@ + (if b {
                "true"@
            } else {
                "false"@
            }),
            _ => ssa_text(dest.id) + " = const"@,
        },
        InstrV::BinOp { op, left, right, dest } => ssa_text(dest.id) + " = "@ + llvm_binop(op)
            + " i64 "@ + ssa_text(left.id) + ", "@ + ssa_text(right.id),
        InstrV::Return { value } => match value {
            Some(v) => "ret i64 "@ + ssa_text(v.id),
            None => "ret void"@,
        },
        _ => instruction_debug_text(i),
    }
}

/// The LLVM text of a parameter.
pub open spec fn llvm_param(p: (Seq<char>, IrType)) -> Seq<char> {
    llvm_type(p.1) + " %"@ + p.0
}

/// The LLVM text of a block: its label line, then one line per instruction.
pub open spec fn llvm_block(b: BlockV) -> Seq<char> {
    "  "@ + block_text(b.id) + ":\n"@ + concat(
        b.instructions.map_values(|i: InstrV| "    "@ + llvm_instr(i) + "\n"@),
    )
}

/// The LLVM text of a function definition.
pub open spec fn llvm_function(f: FunctionV) -> Seq<char> {
    "define "@ + llvm_type(f.ret_type) + " @"@ + f.name + "("@ + join(
        f.params.map_values(|p: (Seq<char>, IrType)| llvm_param(p)),
        ", "@,
    ) + ")\n{\n"@ + concat(f.blocks.map_values(|b: BlockV| llvm_block(b))) + "}\n\n"@
}

/// The LLVM module text of a program.
pub open spec fn llvm_module(p: ProgramV) -> Seq<char> {
    "; Zyl ICNF -> LLVM IR\n"@ + "target triple = \"x86_64-unknown-linux-gnu\"\n\n"@ + concat(
        p.functions.map_values(|f: FunctionV| llvm_function(f)),
    )
}

/// Generates LLVM IR text for a program.
pub fn generate_llvm_ir(program: &IcnfProgram) -> (r: Result<String, CodegenError>)
    ensures
        r is Ok && r->Ok_0@ == llvm_module(program@),
{
    let mut ir = String::new();
    ir.append("; Zyl ICNF -> LLVM IR\n");
    ir.append("target triple = \"x86_64-unknown-linux-gnu\"\n\n");
    let ghost head = "; Zyl ICNF -> LLVM IR\n"@ + "target triple = \"x86_64-unknown-linux-gnu\"\n\n"@;
    let ghost fs = program@.functions.map_values(|f: FunctionV| llvm_function(f));
    let mut k: usize = 0;
    while k < program.functions.len()
        invariant
            k <= program.functions@.len(),
            fs == program@.functions.map_values(|f: FunctionV| llvm_function(f)),
            head == "; Zyl ICNF -> LLVM IR\n"@ + "target triple = \"x86_64-unknown-linux-gnu\"\n\n"@,
            ir@ == head + concat(fs.take(k as int)),
        decreases program.functions.len() - k,
    {
        let t = llvm_function_text(&program.functions[k]);
        ir.append(t.as_str());
        assert(fs.take(k + 1).drop_last() =~= fs.take(k as int));
        assert(fs[k as int] == llvm_function(program.functions@[k as int]@));
        assert(ir@ =~= head + concat(fs.take(k + 1)));
        k = k + 1;
    }
    assert(fs.take(program.functions.len() as int) =~= fs);
    Ok(ir)
}

fn llvm_function_text(func: &Function) -> (s: String)
    ensures
        s@ == llvm_function(func@),
{
    let mut ir = string_of("define ");
    ir.append(ir_type_to_llvm(&func.ret_type));
    ir.append(" @");
    ir.append(func.name.as_str());
    ir.append("(");
    let mut params: Vec<String> = Vec::new();
    let ghost pv = func@.params;
    let mut i: usize = 0;
    while i < func.params.len()
        invariant
            i <= func.params@.len(),
            pv == func@.params,
            params@.len() == i,
            forall|j: int| 0 <= j < i ==> #[trigger] params@[j]@ == llvm_param(pv[j]),
        decreases func.params.len() - i,
    {
        let (name, ty) = &func.params[i];
        let mut p = string_of(ir_type_to_llvm(ty));
        p.append(" %");
        p.append(name.as_str());
        assert(pv[i as int] == (func.params@[i as int].0@, func.params@[i as int].1));
        params.push(p);
        i = i + 1;
    }
    let joined = join_strings(&params, ", ");
    assert(params@.map_values(|l: String| l@) =~= pv.map_values(
        |p: (Seq<char>, IrType)| llvm_param(p),
    ));
    ir.append(joined.as_str());
    ir.append(")\n{\n");
    let ghost pre = ir@;
    let ghost bs = func@.blocks.map_values(|b: BlockV| llvm_block(b));
    let mut k: usize = 0;
    while k < func.blocks.len()
        invariant
            k <= func.blocks@.len(),
            bs == func@.blocks.map_values(|b: BlockV| llvm_block(b)),
            ir@ == pre + concat(bs.take(k as int)),
        decreases func.blocks.len() - k,
    {
        let t = llvm_block_text(&func.blocks[k]);
        ir.append(t.as_str());
        assert(bs.take(k + 1).drop_last() =~= bs.take(k as int));
        assert(bs[k as int] == llvm_block(func.blocks@[k as int]@));
        assert(ir@ =~= pre + concat(bs.take(k + 1)));
        k = k + 1;
    }
    assert(bs.take(func.blocks.len() as int) =~= bs);
    ir.append("}\n\n");
    assert(ir@ =~= llvm_function(func@));
    ir
}

fn llvm_block_text(block: &Block) -> (s: String)
    ensures
        s@ == llvm_block(block@),
{
    let mut ir = string_of("  ");
    let label = block_label(block.id);
    ir.append(label.as_str());
    ir.append(":\n");
    let ghost pre = ir@;
    let ghost is = block@.instructions.map_values(|i: InstrV| "    "@ + llvm_instr(i) + "\n"@);
    let mut k: usize = 0;
    while k < block.instructions.len()
        invariant
            k <= block.instructions@.len(),
            is == block@.instructions.map_values(|i: InstrV| "    "@ + llvm_instr(i) + "\n"@),
            ir@ == pre + concat(is.take(k as int)),
        decreases block.instructions.len() - k,
    {
        let t = ir_instruction(&block.instructions[k]);
        ir.append("    ");
        ir.append(t.as_str());
        ir.append("\n");
        assert(is.take(k + 1).drop_last() =~= is.take(k as int));
        assert(is[k as int] == "    "@ + llvm_instr(block.instructions@[k as int]@) + "\n"@);
        assert(ir@ =~= pre + concat(is.take(k + 1)));
        k = k + 1;
    }
    assert(is.take(block.instructions.len() as int) =~= is);
    assert(ir@ =~= llvm_block(block@));
    ir
}

/// The LLVM type name of an IR type.
fn ir_type_to_llvm(ty: &IrType) -> (s: &'static str)
    ensures
        s@ == llvm_type(*ty),
{
    match ty {
        IrType::Int => "i64",
        IrType::Float => "double",
        IrType::Bool => "i1",
        IrType::String => "i8*",
        IrType::Unit => "void",
        IrType::Fun(_, ret) => {
            match &**ret {
                IrType::Unit => "void",
                _ => "i64",
            }
        },
        IrType::Tuple(_) => "i64",  // Simplified
        IrType::ActorRef => "i64",
        IrType::Ptr(_) => "i8*",
    }
}

/// The LLVM text of an instruction.
fn ir_instruction(instr: &Instruction) -> (s: String)
    ensures
        s@ == llvm_instr(instr@),
{
    match instr {
        Instruction::Const { value, dest } => {
            let mut s = ssa_label(dest.id);
            match value {
                IrValue::Int(v) => {
                    s.append(" = const i64 ");
                    push_i64(&mut s, *v);
                },
                IrValue::Float(v) => {
                    s.append(" = const double ");
                    s.append(v.text.as_str());
                },
                IrValue::Bool(v) => {
                    s.append(" = const i1 ");
                    s.append(if *v { "true" } else { "false" });
                },
                _ => {
                    s.append(" = const");
                },
            }
            assert(s@ =~= llvm_instr(instr@));
            s
        },
        Instruction::BinOp { op, left, right, dest } => {
            let op_str = match op {
                BinOp::Add => "add",
                BinOp::Sub => "sub",
                BinOp::Mul => "mul",
                BinOp::Div => "sdiv",
                _ => "add",
            };
            let mut s = ssa_label(dest.id);
            s.append(" = ");
            s.append(op_str);
            s.append(" i64 ");
            let l = ssa_label(left.id);
            s.append(l.as_str());
            s.append(", ");
            let r = ssa_label(right.id);
            s.append(r.as_str());
            assert(s@ =~= llvm_instr(instr@));
            s
        },
        Instruction::Return { value } => {
            match value {
                Some(v) => {
                    let mut s = string_of("ret i64 ");
                    let t = ssa_label(v.id);
                    s.append(t.as_str());
                    assert(s@ =~= llvm_instr(instr@));
                    s
                },
                None => string_of("ret void"),
            }
        },
        _ => instruction_debug(instr),
    }
}

// ============================================================================
// COMPILATION PIPELINE
// ============================================================================

/// Generates code for a target architecture.
pub struct CodeGenerator {
    arch: Arch,
}

impl CodeGenerator {
    /// The target architecture.
    pub closed spec fn arch(&self) -> Arch {
        self.arch
    }

    /// Creates a code generator for `arch`.
    pub fn new(arch: Arch) -> (g: Self)
        ensures
            g.arch() == arch,
    {
        Self { arch }
    }

    /// Generates the assembly text of a program with a fresh assembly generator:
    /// the text that the system assembler turns into object code.
    pub fn generate(&self, program: &IcnfProgram) -> (r: Result<String, CodegenError>)
        requires
            program_fits(program@, 0),
        ensures
            match asm_outcome(program@) {
                Ok(text) => r is Ok && r->Ok_0@ == text,
                Err(e) => r is Err && r->Err_0@ == e,
            },
    {
        let mut asm_gen = AsmGenerator::new(self.arch);
        let r = asm_gen.generate(program);
        assert(asm_gen.output() =~= asm_lines(program@));
        r
    }

    /// Generates LLVM IR text for a program.
    pub fn generate_llvm(&self, program: &IcnfProgram) -> (r: Result<String, CodegenError>)
        ensures
            r is Ok && r->Ok_0@ == llvm_module(program@),
    {
        generate_llvm_ir(program)
    }
}

/// The lines that a fresh generator writes for a program (up to its first error).
pub open spec fn asm_lines(p: ProgramV) -> Seq<Seq<char>> {
    seq![".extern malloc"@] + globals_lines(p.globals, 0).0 + run_lines(
        p.functions,
        function_step_fn(),
    ).0
}

/// The assembly text of a program, or the error its generation raises.
pub open spec fn asm_outcome(p: ProgramV) -> Result<Seq<char>, CodegenErrorV> {
    match run_lines(p.functions, function_step_fn()).1 {
        None => Ok(join(asm_lines(p), "\n"@)),
        Some((e, _)) => Err(e),
    }
}

/// Generates the assembly text of a program for the given architecture.
pub fn compile(program: &IcnfProgram, arch: Arch) -> (r: Result<String, CodegenError>)
    requires
        program_fits(program@, 0),
    ensures
        match asm_outcome(program@) {
            Ok(text) => r is Ok && r->Ok_0@ == text,
            Err(e) => r is Err && r->Err_0@ == e,
        },
{
    let generator = CodeGenerator::new(arch);
    generator.generate(program)
}


// ============================================================================
// LAWS
// ============================================================================

/// Every function that generates without error starts with its label and the
/// frame set-up, and ends with the default return of 0 and the frame's tear-down.
pub proof fn law_function_frame(f: FunctionV)
    requires
        function_lines(f).1 is None,
    ensures
        ({
            let l = function_lines(f).0;
            &&& l.len() >= 6
            &&& l[0] == f.name + ":"@
            &&& l[1] == "\tpushq %rbp"@
            &&& l[2] == "\tmovq %rsp, %rbp"@
            &&& l[l.len() - 3] == "\tmovq $0, %rax"@
            &&& l[l.len() - 2] == "\tpopq %rbp"@
            &&& l[l.len() - 1] == "\tret"@
        }),
{
}

proof fn lemma_join_starts(lines: Seq<Seq<char>>, sep: Seq<char>)
    requires
        lines.len() > 0,
    ensures
        join(lines, sep).len() >= lines[0].len(),
        join(lines, sep).subrange(0, lines[0].len() as int) == lines[0],
    decreases lines.len(),
{
    if lines.len() > 1 {
        lemma_join_starts(lines.drop_last(), sep);
        let j = join(lines.drop_last(), sep);
        let full = j + sep + lines.last();
        assert(full.subrange(0, lines[0].len() as int) =~= j.subrange(0, lines[0].len() as int));
    } else {
        assert(join(lines, sep).subrange(0, lines[0].len() as int) =~= lines[0]);
    }
}

/// The assembly text of every program that generates without error starts by
/// declaring `malloc` external.
pub proof fn law_program_declares_malloc(p: ProgramV)
    requires
        asm_outcome(p) is Ok,
    ensures
        asm_outcome(p)->Ok_0.len() >= ".extern malloc"@.len(),
        asm_outcome(p)->Ok_0.subrange(0, ".extern malloc"@.len() as int) == ".extern malloc"@,
{
    let lines = asm_lines(p);
    assert(lines[0] == ".extern malloc"@);
    lemma_join_starts(lines, "\n"@);
}
} // verus!
