//! The SSA intermediate representation (ICNF) that the compiler lowers
//! programs to and that the code generators consume, with its abstract view.

use vstd::prelude::*;

verus! {

/// Identifier of an SSA value.
#[derive(Debug, Clone, Copy, PartialEq, Eq, Hash, Structural)]
pub struct SsaId(pub usize);

/// Identifier of a basic block.
#[derive(Debug, Clone, Copy, PartialEq, Eq, Hash, Structural)]
pub struct BlockId(pub usize);

/// Memory region a value lives in.
#[derive(Debug, Clone, Copy, PartialEq, Eq, Structural)]
pub enum Region {
    Stack,
    Heap,
    Pin,
}

/// An SSA value: its identifier and the region it lives in.
#[derive(Debug, Clone, Copy, PartialEq, Eq, Structural)]
pub struct SsaValue {
    pub id: SsaId,
    pub region: Region,
}

/// Types of the IR.
#[derive(Debug)]
pub enum IrType {
    Int,
    Float,
    Bool,
    String,
    Unit,
    Fun(Vec<IrType>, Box<IrType>),
    Tuple(Vec<IrType>),
    ActorRef,
    Ptr(Box<IrType>),
}

/// A floating-point constant, held as its IEEE-754 bit pattern together with
/// its shortest decimal rendering (the text that `{}` formatting gives it).
#[derive(Debug, Clone, PartialEq, Eq)]
pub struct FloatLit {
    pub bits: u64,
    pub text: String,
}

/// Constant values of the IR.
#[derive(Debug, Clone, PartialEq, Eq)]
pub enum IrValue {
    Int(i64),
    Float(FloatLit),
    Bool(bool),
    StringLit(String),
    Unit,
    FuncRef(String),
}

/// Binary operators.
#[derive(Debug, Clone, Copy, PartialEq, Eq, Structural)]
pub enum BinOp {
    Add,
    Sub,
    Mul,
    Div,
    Mod,
    Eq,
    Ne,
    Lt,
    Gt,
    Le,
    Ge,
    And,
    Or,
}

/// Unary operators.
#[derive(Debug, Clone, Copy, PartialEq, Eq, Structural)]
pub enum UnaryOp {
    Neg,
    Not,
}

/// Instructions of the IR.
#[allow(inconsistent_fields)]
#[derive(Debug)]
pub enum Instruction {
    Const { value: IrValue, dest: SsaValue },
    BinOp { op: BinOp, left: SsaValue, right: SsaValue, dest: SsaValue },
    UnaryOp { op: UnaryOp, operand: SsaValue, dest: SsaValue },
    Call { func: IrValue, args: Vec<SsaValue>, dest: SsaValue },
    CallIndirect { func: SsaValue, args: Vec<SsaValue>, dest: SsaValue },
    ClosureCreate { func_name: String, env_values: Vec<SsaValue>, dest: SsaValue },
    Load { name: String, region: Region, dest: SsaValue },
    Store { name: String, value: SsaValue, region: Region },
    Branch { cond: SsaValue, then_block: BlockId, else_block: BlockId },
    CondBranch { cond: SsaValue, then_block: BlockId, else_block: BlockId },
    Return { value: Option<SsaValue> },
    Phi { inputs: Vec<(BlockId, SsaValue)>, dest: SsaValue },
    Alloc { ty: IrType, region: Region, dest: SsaValue },
    Cast { value: SsaValue, to: IrType, dest: SsaValue },
    Spawn { body: SsaValue, dest: SsaValue },
    Send { target: SsaValue, message: SsaValue },
    FfiCall { name: String, args: Vec<SsaValue>, timeout_ms: u64, dest: SsaValue },
    Assert { condition: SsaValue, message: String },
    Nop,
}

/// A basic block: its label and its instructions in order.
#[derive(Debug)]
pub struct Block {
    pub id: BlockId,
    pub instructions: Vec<Instruction>,
}

/// A function of the IR. Its last block is the one being filled.
#[derive(Debug)]
pub struct Function {
    pub name: String,
    pub params: Vec<(String, IrType)>,
    pub ret_type: IrType,
    pub blocks: Vec<Block>,
    pub entry_block: BlockId,
    /// Functions generated while lowering this one (lambda bodies).
    pub extra_functions: Vec<Function>,
}

/// A whole program: its functions and its global definitions.
#[derive(Debug)]
pub struct IcnfProgram {
    pub functions: Vec<Function>,
    pub globals: Vec<(String, IrType, IrValue)>,
}

// ---------------------------------------------------------------------------
// Abstract view
// ---------------------------------------------------------------------------

/// Abstract floating-point constant.
pub struct FloatLitV {
    pub bits: u64,
    pub text: Seq<char>,
}

/// Abstract constant value.
pub enum IrValueV {
    Int(i64),
    Float(FloatLitV),
    Bool(bool),
    StringLit(Seq<char>),
    Unit,
    FuncRef(Seq<char>),
}

/// Abstract instruction: an instruction with sequences in place of vectors.
#[allow(inconsistent_fields)]
pub enum InstrV {
    Const { value: IrValueV, dest: SsaValue },
    BinOp { op: BinOp, left: SsaValue, right: SsaValue, dest: SsaValue },
    UnaryOp { op: UnaryOp, operand: SsaValue, dest: SsaValue },
    Call { func: IrValueV, args: Seq<SsaValue>, dest: SsaValue },
    CallIndirect { func: SsaValue, args: Seq<SsaValue>, dest: SsaValue },
    ClosureCreate { func_name: Seq<char>, env_values: Seq<SsaValue>, dest: SsaValue },
    Load { name: Seq<char>, region: Region, dest: SsaValue },
    Store { name: Seq<char>, value: SsaValue, region: Region },
    Branch { cond: SsaValue, then_block: BlockId, else_block: BlockId },
    CondBranch { cond: SsaValue, then_block: BlockId, else_block: BlockId },
    Return { value: Option<SsaValue> },
    Phi { inputs: Seq<(BlockId, SsaValue)>, dest: SsaValue },
    Alloc { ty: IrType, region: Region, dest: SsaValue },
    Cast { value: SsaValue, to: IrType, dest: SsaValue },
    Spawn { body: SsaValue, dest: SsaValue },
    Send { target: SsaValue, message: SsaValue },
    FfiCall { name: Seq<char>, args: Seq<SsaValue>, timeout_ms: u64, dest: SsaValue },
    Assert { condition: SsaValue, message: Seq<char> },
    Nop,
}

/// Abstract basic block.
pub struct BlockV {
    pub id: BlockId,
    pub instructions: Seq<InstrV>,
}

/// Abstract function.
pub struct FunctionV {
    pub name: Seq<char>,
    pub params: Seq<(Seq<char>, IrType)>,
    pub ret_type: IrType,
    pub blocks: Seq<BlockV>,
    pub entry_block: BlockId,
    pub extra_functions: Seq<FunctionV>,
}

/// Abstract program.
pub struct ProgramV {
    pub functions: Seq<FunctionV>,
    pub globals: Seq<(Seq<char>, IrType, IrValueV)>,
}

impl View for FloatLit {
    type V = FloatLitV;

    open spec fn view(&self) -> FloatLitV {
        FloatLitV { bits: self.bits, text: self.text@ }
    }
}

impl View for IrValue {
    type V = IrValueV;

    open spec fn view(&self) -> IrValueV {
        match self {
            IrValue::Int(v) => IrValueV::Int(*v),
            IrValue::Float(f) => IrValueV::Float(f@),
            IrValue::Bool(b) => IrValueV::Bool(*b),
            IrValue::StringLit(s) => IrValueV::StringLit(s@),
            IrValue::Unit => IrValueV::Unit,
            IrValue::FuncRef(s) => IrValueV::FuncRef(s@),
        }
    }
}

impl View for Instruction {
    type V = InstrV;

    open spec fn view(&self) -> InstrV {
        match self {
            Instruction::Const { value, dest } => InstrV::Const { value: value@, dest: *dest },
            Instruction::BinOp { op, left, right, dest } => InstrV::BinOp {
                op: *op,
                left: *left,
                right: *right,
                dest: *dest,
            },
            Instruction::UnaryOp { op, operand, dest } => InstrV::UnaryOp {
                op: *op,
                operand: *operand,
                dest: *dest,
            },
            Instruction::Call { func, args, dest } => InstrV::Call {
                func: func@,
                args: args@,
                dest: *dest,
            },
            Instruction::CallIndirect { func, args, dest } => InstrV::CallIndirect {
                func: *func,
                args: args@,
                dest: *dest,
            },
            Instruction::ClosureCreate { func_name, env_values, dest } => InstrV::ClosureCreate {
                func_name: func_name@,
                env_values: env_values@,
                dest: *dest,
            },
            Instruction::Load { name, region, dest } => InstrV::Load {
                name: name@,
                region: *region,
                dest: *dest,
            },
            Instruction::Store { name, value, region } => InstrV::Store {
                name: name@,
                value: *value,
                region: *region,
            },
            Instruction::Branch { cond, then_block, else_block } => InstrV::Branch {
                cond: *cond,
                then_block: *then_block,
                else_block: *else_block,
            },
            Instruction::CondBranch { cond, then_block, else_block } => InstrV::CondBranch {
                cond: *cond,
                then_block: *then_block,
                else_block: *else_block,
            },
            Instruction::Return { value } => InstrV::Return { value: *value },
            Instruction::Phi { inputs, dest } => InstrV::Phi { inputs: inputs@, dest: *dest },
            Instruction::Alloc { ty, region, dest } => InstrV::Alloc {
                ty: *ty,
                region: *region,
                dest: *dest,
            },
            Instruction::Cast { value, to, dest } => InstrV::Cast {
                value: *value,
                to: *to,
                dest: *dest,
            },
            Instruction::Spawn { body, dest } => InstrV::Spawn { body: *body, dest: *dest },
            Instruction::Send { target, message } => InstrV::Send {
                target: *target,
                message: *message,
            },
            Instruction::FfiCall { name, args, timeout_ms, dest } => InstrV::FfiCall {
                name: name@,
                args: args@,
                timeout_ms: *timeout_ms,
                dest: *dest,
            },
            Instruction::Assert { condition, message } => InstrV::Assert {
                condition: *condition,
                message: message@,
            },
            Instruction::Nop => InstrV::Nop,
        }
    }
}

impl View for Block {
    type V = BlockV;

    open spec fn view(&self) -> BlockV {
        BlockV {
            id: self.id,
            instructions: self.instructions@.map_values(|i: Instruction| i@),
        }
    }
}

/// The abstract view of a function (recursive through the generated functions).
pub open spec fn function_view(f: Function) -> FunctionV
    decreases f,
{
    FunctionV {
        name: f.name@,
        params: f.params@.map_values(|p: (String, IrType)| (p.0@, p.1)),
        ret_type: f.ret_type,
        blocks: f.blocks@.map_values(|b: Block| b@),
        entry_block: f.entry_block,
        extra_functions: Seq::new(
            f.extra_functions@.len(),
            |i: int|
                if 0 <= i < f.extra_functions@.len() {
                    function_view(f.extra_functions@[i])
                } else {
                    FunctionV {
                        name: seq![],
                        params: seq![],
                        ret_type: IrType::Unit,
                        blocks: seq![],
                        entry_block: BlockId(0),
                        extra_functions: seq![],
                    }
                },
        ),
    }
}

impl View for Function {
    type V = FunctionV;

    open spec fn view(&self) -> FunctionV {
        function_view(*self)
    }
}

impl View for IcnfProgram {
    type V = ProgramV;

    open spec fn view(&self) -> ProgramV {
        ProgramV {
            functions: self.functions@.map_values(|f: Function| f@),
            globals: self.globals@.map_values(
                |g: (String, IrType, IrValue)| (g.0@, g.1, g.2@),
            ),
        }
    }
}

impl FunctionV {
    /// The function with `i` appended to its last block.
    pub open spec fn push_instr(self, i: InstrV) -> FunctionV
        recommends
            self.blocks.len() > 0,
    {
        let last = self.blocks.last();
        FunctionV {
            blocks: self.blocks.update(
                self.blocks.len() - 1,
                BlockV { id: last.id, instructions: last.instructions.push(i) },
            ),
            ..self
        }
    }

    /// The function with a fresh empty block appended, labelled by the
    /// number of blocks it had.
    pub open spec fn add_block(self) -> FunctionV {
        FunctionV {
            blocks: self.blocks.push(
                BlockV { id: BlockId(self.blocks.len() as usize), instructions: seq![] },
            ),
            ..self
        }
    }

    /// The function with its last block relabelled `id`.
    pub open spec fn relabel_last(self, id: BlockId) -> FunctionV
        recommends
            self.blocks.len() > 0,
    {
        let last = self.blocks.last();
        FunctionV {
            blocks: self.blocks.update(
                self.blocks.len() - 1,
                BlockV { id, instructions: last.instructions },
            ),
            ..self
        }
    }

    /// The number of instructions in the last block.
    pub open spec fn last_len(self) -> nat {
        if self.blocks.len() == 0 {
            0
        } else {
            self.blocks.last().instructions.len()
        }
    }
}

impl Block {
    /// Appends an instruction to the block.
    pub fn add_instruction(&mut self, instr: Instruction)
        ensures
            final(self)@ == (BlockV {
                id: old(self).id,
                instructions: old(self)@.instructions.push(instr@),
            }),
    {
        self.instructions.push(instr);
        assert(final(self)@.instructions =~= old(self)@.instructions.push(instr@));
    }
}

/// A function with the given signature and a single empty entry block labelled 0.
pub open spec fn new_function_view(name: Seq<char>, params: Seq<(Seq<char>, IrType)>, ret_type: IrType) -> FunctionV {
    FunctionV {
        name,
        params,
        ret_type,
        blocks: seq![BlockV { id: BlockId(0), instructions: seq![] }],
        entry_block: BlockId(0),
        extra_functions: seq![],
    }
}

impl Function {
    /// Creates a function with a single empty entry block labelled 0.
    pub fn new(name: String, params: Vec<(String, IrType)>, ret_type: IrType) -> (f: Function)
        ensures
            f@ == new_function_view(
                name@,
                params@.map_values(|p: (String, IrType)| (p.0@, p.1)),
                ret_type,
            ),
            f.blocks@.len() == 1,
    {
        let mut blocks: Vec<Block> = Vec::new();
        let b = Block { id: BlockId(0), instructions: Vec::new() };
        assert(b@.instructions =~= Seq::<InstrV>::empty());
        blocks.push(b);
        let f = Function {
            name,
            params,
            ret_type,
            blocks,
            entry_block: BlockId(0),
            extra_functions: Vec::new(),
        };
        assert(f@.blocks =~= seq![BlockV { id: BlockId(0), instructions: seq![] }]);
        assert(f@.extra_functions =~= Seq::<FunctionV>::empty());
        f
    }

    /// The number of instructions in the block being filled.
    pub fn current_len(&self) -> (n: usize)
        requires
            self.blocks@.len() > 0,
        ensures
            n == self@.last_len(),
    {
        self.blocks[self.blocks.len() - 1].instructions.len()
    }

    /// Appends an instruction to the block being filled.
    pub fn add_instruction(&mut self, instr: Instruction)
        requires
            old(self).blocks@.len() > 0,
        ensures
            final(self)@ == old(self)@.push_instr(instr@),
            final(self).blocks@.len() == old(self).blocks@.len(),
    {
        let mut b = self.blocks.pop().unwrap();
        b.add_instruction(instr);
        self.blocks.push(b);
        assert(final(self)@.blocks =~= old(self)@.push_instr(instr@).blocks);
    }

    /// Appends a fresh empty block, labelled by the number of blocks before it,
    /// and returns its label. The new block becomes the one being filled.
    pub fn add_block(&mut self) -> (id: BlockId)
        ensures
            id == BlockId(old(self).blocks@.len() as usize),
            final(self)@ == old(self)@.add_block(),
            final(self).blocks@.len() == old(self).blocks@.len() + 1,
    {
        let id = BlockId(self.blocks.len());
        let b = Block { id, instructions: Vec::new() };
        assert(b@.instructions =~= Seq::<InstrV>::empty());
        self.blocks.push(b);
        assert(final(self)@.blocks =~= old(self)@.add_block().blocks);
        id
    }

    /// Relabels the block being filled.
    pub fn relabel_current(&mut self, id: BlockId)
        requires
            old(self).blocks@.len() > 0,
        ensures
            final(self)@ == old(self)@.relabel_last(id),
            final(self).blocks@.len() == old(self).blocks@.len(),
    {
        let mut b = self.blocks.pop().unwrap();
        b.id = id;
        self.blocks.push(b);
        assert(final(self)@.blocks =~= old(self)@.relabel_last(id).blocks);
    }
}

/// An empty program.
pub fn new_program() -> (p: IcnfProgram)
    ensures
        p@.functions == Seq::<FunctionV>::empty(),
        p@.globals == Seq::<(Seq<char>, IrType, IrValueV)>::empty(),
{
    let p = IcnfProgram { functions: Vec::new(), globals: Vec::new() };
    assert(p@.functions =~= Seq::<FunctionV>::empty());
    assert(p@.globals =~= Seq::<(Seq<char>, IrType, IrValueV)>::empty());
    p
}

impl IcnfProgram {
    /// Appends a function to the program.
    pub fn add_function(&mut self, f: Function)
        ensures
            final(self)@.functions == old(self)@.functions.push(f@),
            final(self)@.globals == old(self)@.globals,
    {
        self.functions.push(f);
        assert(final(self)@.functions =~= old(self)@.functions.push(f@));
    }
}

} // verus!
