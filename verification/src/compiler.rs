//! The compiler pipeline: lowering a checked program to the SSA IR,
//! optimization, code generation, linking, and hash finalization.

use vstd::prelude::*;
use sha2::{Digest, Sha256};
use crate::ast::{Expr, PrimType, Program, TypeExpr};
use crate::codegen::{self, asm_outcome, function_fits, instr_fits, Arch, CodegenError};
use crate::dce::{dce_function, eliminate_dead_blocks, law_dce_idempotent, lemma_live_blocks_from};
use crate::ir::{Function, FunctionV, IcnfProgram, IrType, IrValueV, ProgramV};
use crate::lowering::{
    defn_param_list, defn_start, expr_to_blocks, finish, hoist_into, hoisted, lemma_hoisted_shape,
    lemma_lowered_function_shape, lemma_start_shape, lowered_function, lowered_shape, main_start, ret_ir_type,
    well_lowered,
};
use crate::text::{bytes_hex, hex_string, lemma_bytes_hex_len, nat_text, push_usize, string_of};

verus! {

// ============================================================================
// COMPILER ERRORS
// ============================================================================

/// Errors of compilation.
#[derive(Debug)]
pub enum CompilerError {
    Lex(String),
    Parse(String),
    Type(String),
    Region(String),
    Macro(String),
    Ir(String),
    Codegen(CodegenError),
    Link { msg: String },
    PhaseViolation { phase: usize },
}

// ============================================================================
// COMPILATION RESULT
// ============================================================================

/// The outcome of a compilation.
#[derive(Debug)]
pub struct CompilationResult {
    /// The compiled binary (object code).
    pub object_code: Vec<u8>,
    /// SHA-256 hash of the final binary, in lowercase hexadecimal.
    pub hash: String,
    /// Warnings produced during compilation.
    pub warnings: Vec<String>,
}

/// The report lines of a compilation outcome.
pub open spec fn report_text(size: nat, hash: Seq<char>, warnings: Seq<Seq<char>>) -> Seq<char> {
    "Compilation successful\n"@ + "  Object code size: "@ + nat_text(size) + " bytes\n"@
        + "  Binary hash: "@ + hash + "\n"@ + if warnings.len() == 0 {
        seq![]
    } else {
        "  Warnings: "@ + nat_text(warnings.len()) + "\n"@ + crate::text::concat(
            warnings.map_values(|w: Seq<char>| "    - "@ + w + "\n"@),
        )
    }
}

impl CompilationResult {
    /// The human-readable report of the compilation.
    pub fn report(&self) -> (s: String)
        ensures
            s@ == report_text(
                self.object_code@.len(),
                self.hash@,
                self.warnings@.map_values(|w: String| w@),
            ),
    {
        let mut s = string_of("Compilation successful\n");
        s.append("  Object code size: ");
        push_usize(&mut s, self.object_code.len());
        s.append(" bytes\n");
        s.append("  Binary hash: ");
        s.append(self.hash.as_str());
        s.append("\n");
        let ghost ws = self.warnings@.map_values(|w: String| w@);
        if self.warnings.len() > 0 {
            s.append("  Warnings: ");
            push_usize(&mut s, self.warnings.len());
            s.append("\n");
            let ghost pre = s@;
            let ghost lines = ws.map_values(|w: Seq<char>| "    - "@ + w + "\n"@);
            let mut i: usize = 0;
            while i < self.warnings.len()
                invariant
                    i <= self.warnings@.len(),
                    ws == self.warnings@.map_values(|w: String| w@),
                    lines == ws.map_values(|w: Seq<char>| "    - "@ + w + "\n"@),
                    s@ == pre + crate::text::concat(lines.take(i as int)),
                decreases self.warnings.len() - i,
            {
                s.append("    - ");
                s.append(self.warnings[i].as_str());
                s.append("\n");
                assert(lines.take(i + 1).drop_last() =~= lines.take(i as int));
                assert(s@ =~= pre + crate::text::concat(lines.take(i + 1)));
                i = i + 1;
            }
            assert(lines.take(self.warnings.len() as int) =~= lines);
        }
        assert(s@ =~= report_text(self.object_code@.len(), self.hash@, ws));
        s
    }
}

// ============================================================================
// HASHING
// ============================================================================

/// The SHA-256 digest of a byte string.
pub uninterp spec fn sha256(data: Seq<u8>) -> Seq<u8>;

/// The SHA-256 digest of `data`, from sha2's `Sha256` through the `Digest::digest`
/// function of the digest crate: a function of the bytes alone, named `sha256`,
/// and 32 bytes long (`Sha256`'s output size).
#[verifier::external_body]
fn sha256_digest(data: &[u8]) -> (r: Vec<u8>)
    ensures
        r@ == sha256(data@),
        r@.len() == 32,
{
    Sha256::digest(data).to_vec()
}

// ============================================================================
// PROGRAMS
// ============================================================================

/// The functions of the first `k` definitions, lowered in order from counter `c`
/// (definitions other than functions contribute none).
pub open spec fn defs_functions(defs: Seq<Expr>, k: nat, c: nat) -> Option<(Seq<FunctionV>, nat)>
    decreases k,
{
    if k == 0 || k > defs.len() {
        Some((seq![], c))
    } else {
        match defs_functions(defs, (k - 1) as nat, c) {
            None => None,
            Some((fs, c1)) => match defs[k - 1] {
                Expr::Defn { name, params, body, ret_type } => match lowered_function(
                    defn_start(name@, params@, ret_type),
                    c1,
                    *body,
                ) {
                    None => None,
                    Some((g, c2)) => Some((fs + hoisted(g), c2)),
                },
                _ => Some((fs, c1)),
            },
        }
    }
}

/// The IR program of a checked program, lowered from lambda counter `c`: the
/// functions of its body (as `main`), then those of its definitions.
pub open spec fn icnf_program(p: Program, c: nat) -> Option<(ProgramV, nat)> {
    match lowered_function(main_start(), c, p.body) {
        None => None,
        Some((m, c1)) => match defs_functions(p.defs@, p.defs@.len(), c1) {
            None => None,
            Some((fs, c2)) => Some((ProgramV { functions: hoisted(m) + fs, globals: seq![] }, c2)),
        },
    }
}

/// The program after the optimizations of a level: dead-block elimination in
/// every function at levels 1 to 3, nothing at level 0.
pub open spec fn optimize(level: nat, p: ProgramV) -> ProgramV {
    if 1 <= level <= 3 {
        ProgramV { functions: p.functions.map_values(|f: FunctionV| dce_function(f)), globals: p.globals }
    } else {
        p
    }
}

/// Whether every function of the program has the shape of a lowered one.
pub open spec fn program_lowered(p: ProgramV) -> bool {
    forall|k: int| 0 <= k < p.functions.len() ==> lowered_shape(#[trigger] p.functions[k])
}

proof fn lemma_defs_none(defs: Seq<Expr>, k: nat, k2: nat, c: nat)
    requires
        defs_functions(defs, k, c) is None,
        k <= k2 <= defs.len(),
    ensures
        defs_functions(defs, k2, c) is None,
    decreases k2 - k,
{
    if k2 > k {
        lemma_defs_none(defs, k, (k2 - 1) as nat, c);
    }
}

/// Dead-block elimination keeps the shape of a lowered function.
proof fn lemma_dce_shape(f: FunctionV)
    requires
        lowered_shape(f),
    ensures
        function_fits(dce_function(f)),
{
    let g = dce_function(f);
    lemma_live_blocks_from(f, f.blocks);
    assert forall|b: int, i: int|
        0 <= b < g.blocks.len() && 0 <= i < g.blocks[b].instructions.len() implies #[trigger] instr_fits(
            g.blocks[b].instructions[i],
        ) by {
        let b0 = choose|b0: int| 0 <= b0 < f.blocks.len() && g.blocks[b] == f.blocks[b0];
        assert(instr_fits(f.blocks[b0].instructions[i]));
    }
}

// ============================================================================
// COMPILER
// ============================================================================

/// The notes that type and region inference record at a level: both at
/// levels 2 and above, none below.
pub open spec fn inference_notes(level: nat) -> Seq<Seq<char>> {
    if level >= 2 {
        seq!["Type inference complete"@, "Region inference complete"@]
    } else {
        seq![]
    }
}

/// The optimization level that a requested level sets: the level itself, at
/// most 3.
pub open spec fn capped_level(level: usize) -> nat {
    if level < 3 {
        level as nat
    } else {
        3
    }
}

/// Whether two compilation results are the same: the same assembly text, or
/// the same code generation error.
pub open spec fn same_result(r1: Result<String, CompilerError>, r2: Result<String, CompilerError>) -> bool {
    &&& r1 is Ok <==> r2 is Ok
    &&& r1 matches Ok(s1) ==> (r2 matches Ok(s2) && s1@ == s2@)
    &&& r1 matches Err(CompilerError::Codegen(e1)) ==> (r2 matches Err(CompilerError::Codegen(e2)) && e1@ == e2@)
}

/// Whether `r` is the outcome of generating code for `p`: its assembly text,
/// or the code generation error wrapped as a compiler error.
pub open spec fn codegen_outcome(r: Result<String, CompilerError>, p: ProgramV) -> bool {
    match asm_outcome(p) {
        Ok(text) => r matches Ok(s) && s@ == text,
        Err(e) => r matches Err(CompilerError::Codegen(x)) && x@ == e,
    }
}

/// The compiler: a target, an optimization level, the warnings recorded so
/// far, and the counter that numbers lambdas.
pub struct Compiler {
    arch: Arch,
    opt_level: usize,
    warnings: Vec<String>,
    lambda_counter: usize,
}

impl Compiler {
    /// The target architecture.
    pub closed spec fn target(&self) -> Arch {
        self.arch
    }

    /// The optimization level.
    pub closed spec fn level(&self) -> nat {
        self.opt_level as nat
    }

    /// The warnings recorded and not yet handed out.
    pub closed spec fn pending_warnings(&self) -> Seq<Seq<char>> {
        self.warnings@.map_values(|w: String| w@)
    }

    /// The number of the next lambda.
    pub closed spec fn lambdas(&self) -> nat {
        self.lambda_counter as nat
    }

    /// A compiler for `arch` at optimization level 1, with no warnings and no
    /// lambda numbered yet.
    pub fn new(arch: Arch) -> (c: Self)
        ensures
            c.target() == arch,
            c.level() == 1,
            c.pending_warnings() == Seq::<Seq<char>>::empty(),
            c.lambdas() == 0,
    {
        let c = Compiler { arch, opt_level: 1, warnings: Vec::new(), lambda_counter: 0 };
        assert(c.pending_warnings() =~= Seq::<Seq<char>>::empty());
        c
    }

    /// The compiler with its optimization level set to `level`, at most 3.
    pub fn with_optimization(self, level: usize) -> (c: Self)
        ensures
            c.level() == capped_level(level),
            c.target() == self.target(),
            c.pending_warnings() == self.pending_warnings(),
            c.lambdas() == self.lambdas(),
    {
        let mut c = self;
        c.opt_level = if level < 3 { level } else { 3 };
        c
    }

    /// Records a warning.
    fn warn(&mut self, msg: &str)
        ensures
            final(self).pending_warnings() == old(self).pending_warnings().push(msg@),
            final(self).target() == old(self).target(),
            final(self).level() == old(self).level(),
            final(self).lambdas() == old(self).lambdas(),
    {
        self.warnings.push(string_of(msg));
        assert(final(self).pending_warnings() =~= old(self).pending_warnings().push(msg@));
    }

    /// The checked program with each function definition instantiated at its
    /// types: every definition is kept as it is.
    fn phase_monomorphization(&self, program: Program) -> (r: Program)
        ensures
            r.defs@ == program.defs@,
            r.body == program.body,
    {
        let Program { defs, body } = program;
        let ghost ds = defs@;
        let mut new_defs: Vec<Expr> = Vec::new();
        let mut rest = defs;
        let ghost mut i: int = 0;
        while rest.len() > 0
            invariant
                0 <= i <= ds.len(),
                rest@ == ds.subrange(i, ds.len() as int),
                new_defs@ == ds.take(i),
            decreases rest@.len(),
        {
            let d = rest.remove(0);
            let kept = match d {
                Expr::Defn { name, params, body, ret_type } => self.monomorphize_def(name, params, body, ret_type),
                other => other,
            };
            new_defs.push(kept);
            proof {
                assert(rest@ =~= ds.subrange(i + 1, ds.len() as int));
                assert(new_defs@ =~= ds.take(i + 1));
                i = i + 1;
            }
        }
        assert(ds.take(i) =~= ds);
        Program::new(new_defs, body)
    }

    /// A function definition instantiated at its types: the definition itself.
    fn monomorphize_def(
        &self,
        name: String,
        params: Vec<String>,
        body: Box<Expr>,
        ret_type: Option<TypeExpr>,
    ) -> (r: Expr)
        ensures
            r == (Expr::Defn { name, params, body, ret_type }),
    {
        Expr::Defn { name, params, body, ret_type }
    }

    /// Lowers the body of a program to the `main` function.
    fn expr_to_icnf(&mut self, expr: &Expr) -> (r: Option<Function>)
        ensures
            match lowered_function(main_start(), old(self).lambdas(), *expr) {
                None => r is None,
                Some((f, c)) => r matches Some(g) && g@ == f && final(self).lambdas() == c,
            },
            r matches Some(g) ==> well_lowered(g@),
            final(self).target() == old(self).target(),
            final(self).level() == old(self).level(),
            final(self).pending_warnings() == old(self).pending_warnings(),
    {
        let mut func = Function::new(string_of("main"), Vec::new(), IrType::Int);
        proof {
            assert(func@ == main_start()) by {
                assert(Seq::<(String, IrType)>::empty().map_values(|p: (String, IrType)| (p.0@, p.1)) =~= seq![]);
            }
            assert(func@.blocks[0].instructions.len() == 0);
        }
        if !expr_to_blocks(expr, &mut func, &mut self.lambda_counter) {
            return None;
        }
        finish(&mut func);
        Some(func)
    }

    /// Lowers a function definition to a function of the IR.
    fn defn_to_icnf(
        &mut self,
        name: &String,
        params: &Vec<String>,
        body: &Expr,
        ret_type: &Option<TypeExpr>,
    ) -> (r: Option<Function>)
        ensures
            match lowered_function(defn_start(name@, params@, *ret_type), old(self).lambdas(), *body) {
                None => r is None,
                Some((f, c)) => r matches Some(g) && g@ == f && final(self).lambdas() == c,
            },
            r matches Some(g) ==> well_lowered(g@),
            final(self).target() == old(self).target(),
            final(self).level() == old(self).level(),
            final(self).pending_warnings() == old(self).pending_warnings(),
    {
        let ret_ty = match ret_type {
            Some(TypeExpr::Prim(PrimType::Int)) => IrType::Int,
            Some(TypeExpr::Prim(PrimType::Float)) => IrType::Float,
            Some(TypeExpr::Prim(PrimType::Bool)) => IrType::Bool,
            Some(TypeExpr::Prim(PrimType::String)) => IrType::String,
            Some(TypeExpr::Prim(PrimType::Unit)) => IrType::Unit,
            _ => IrType::Int,
        };
        let param_tys = defn_param_list(params);
        let mut func = Function::new(name.clone(), param_tys, ret_ty);
        assert(func@.blocks[0].instructions.len() == 0);
        if !expr_to_blocks(body, &mut func, &mut self.lambda_counter) {
            return None;
        }
        finish(&mut func);
        Some(func)
    }

    /// Lowers a program to the IR: the functions of its body, then those of
    /// its function definitions, in order.
    fn phase_icnf_generation(&mut self, program: &Program) -> (r: Option<IcnfProgram>)
        ensures
            match icnf_program(*program, old(self).lambdas()) {
                None => r is None,
                Some((p, c)) => r matches Some(q) && q@ == p && final(self).lambdas() == c,
            },
            r matches Some(q) ==> program_lowered(q@),
            final(self).target() == old(self).target(),
            final(self).level() == old(self).level(),
            final(self).pending_warnings() == old(self).pending_warnings(),
    {
        let mut icnf = crate::ir::new_program();
        let main_func = match self.expr_to_icnf(&program.body) {
            None => return None,
            Some(f) => f,
        };
        proof {
            lemma_hoisted_shape(main_func@);
        }
        let ghost c1 = self.lambdas();
        let ghost mv = main_func@;
        assert(lowered_function(main_start(), old(self).lambdas(), program.body) == Some((mv, c1)));
        hoist_into(&mut icnf.functions, main_func);
        let ghost head = hoisted(main_func@);
        assert(icnf@.functions =~= head);
        let defs = &program.defs;
        let mut i: usize = 0;
        let ghost mut fs: Seq<FunctionV> = seq![];
        assert(head + fs =~= head);
        while i < defs.len()
            invariant
                i <= defs@.len(),
                defs == program.defs,
                defs_functions(defs@, i as nat, c1) == Some((fs, self.lambdas())),
                icnf@.functions == head + fs,
                lowered_function(main_start(), old(self).lambdas(), program.body) == Some((mv, c1)),
                head == hoisted(mv),
                icnf@.globals == Seq::<(Seq<char>, IrType, IrValueV)>::empty(),
                program_lowered(icnf@),
                self.target() == old(self).target(),
                self.level() == old(self).level(),
                self.pending_warnings() == old(self).pending_warnings(),
                forall|k: int| 0 <= k < head.len() ==> lowered_shape(#[trigger] head[k]),
            decreases defs.len() - i,
        {
            if let Expr::Defn { name, params, body, ret_type } = &defs[i] {
                let func = match self.defn_to_icnf(name, params, body, ret_type) {
                    None => {
                        proof {
                            assert(defs_functions(defs@, (i + 1) as nat, c1) is None);
                            lemma_defs_none(defs@, (i + 1) as nat, defs@.len(), c1);
                            assert(icnf_program(*program, old(self).lambdas()) is None);
                        }
                        return None;
                    },
                    Some(f) => f,
                };
                proof {
                    lemma_hoisted_shape(func@);
                }
                let ghost before = icnf@.functions;
                hoist_into(&mut icnf.functions, func);
                proof {
                    assert(icnf@.functions =~= before + hoisted(func@));
                    assert(head + (fs + hoisted(func@)) =~= before + hoisted(func@));
                    fs = fs + hoisted(func@);
                    assert forall|k: int| 0 <= k < icnf@.functions.len() implies lowered_shape(#[trigger] icnf@.functions[k]) by {
                        if k >= before.len() {
                            assert(icnf@.functions[k] == hoisted(func@)[k - before.len()]);
                        }
                    }
                }
            }
            i = i + 1;
        }
        Some(icnf)
    }

    /// Removes, in every function, the blocks that are not reachable from its
    /// entry block.
    fn opt_dead_code_elim(&self, program: &mut IcnfProgram)
        ensures
            final(program)@ == optimize(1, old(program)@),
    {
        let ghost p0 = program@;
        let mut fs: Vec<Function> = Vec::new();
        std::mem::swap(&mut fs, &mut program.functions);
        let ghost src = p0.functions;
        let ghost want = src.map_values(|f: FunctionV| dce_function(f));
        let mut out: Vec<Function> = Vec::new();
        let mut rest = fs;
        let ghost mut i: int = 0;
        while rest.len() > 0
            invariant
                0 <= i <= src.len(),
                rest@.len() == src.len() - i,
                forall|j: int| 0 <= j < rest@.len() ==> #[trigger] rest@[j]@ == src[i + j],
                out@.map_values(|f: Function| f@) == want.take(i),
                want == src.map_values(|f: FunctionV| dce_function(f)),
                src == p0.functions,
            decreases rest@.len(),
        {
            let ghost before = rest@;
            let f = rest.remove(0);
            proof {
                assert(f@ == src[i]);
                assert forall|j: int| 0 <= j < rest@.len() implies #[trigger] rest@[j]@ == src[i + 1 + j] by {
                    assert(rest@[j] == before[j + 1]);
                }
            }
            let ghost o0 = out@;
            out.push(eliminate_dead_blocks(f));
            proof {
                assert(out@.map_values(|f: Function| f@) =~= o0.map_values(|f: Function| f@).push(want[i]));
                assert(want.take(i + 1) =~= want.take(i).push(want[i]));
                i = i + 1;
            }
        }
        assert(want.take(i) =~= want);
        program.functions = out;
        assert(program@.functions =~= want);
    }

    /// Inlines small functions: no function is inlined yet.
    fn opt_inline(&self, program: &mut IcnfProgram)
        ensures
            *final(program) == *old(program),
    {
    }

    /// Unrolls small loops: no loop is unrolled yet.
    fn opt_loop_unroll(&self, program: &mut IcnfProgram)
        ensures
            *final(program) == *old(program),
    {
    }

    /// The safe optimizations of the compiler's level.
    fn phase_optimization(&self, program: IcnfProgram) -> (r: IcnfProgram)
        ensures
            r@ == optimize(self.level(), program@),
    {
        let mut optimized = program;
        if self.opt_level == 1 {
            self.opt_dead_code_elim(&mut optimized);
        } else if self.opt_level == 2 {
            self.opt_dead_code_elim(&mut optimized);
            self.opt_inline(&mut optimized);
        } else if self.opt_level == 3 {
            self.opt_dead_code_elim(&mut optimized);
            self.opt_inline(&mut optimized);
            self.opt_loop_unroll(&mut optimized);
        }
        optimized
    }

    /// Generates the assembly text of the optimized program.
    fn phase_code_generation(&self, program: &IcnfProgram) -> (r: Result<String, CompilerError>)
        requires
            codegen::program_fits(program@, 0),
        ensures
            codegen_outcome(r, program@),
    {
        match codegen::compile(program, self.arch) {
            Ok(text) => Ok(text),
            Err(e) => Err(CompilerError::Codegen(e)),
        }
    }

    /// Links the object code: it is its own linked form.
    fn phase_linking(&self, object_code: &[u8]) -> (r: Vec<u8>)
        ensures
            r@ == object_code@,
    {
        let mut r: Vec<u8> = Vec::new();
        let mut i: usize = 0;
        while i < object_code.len()
            invariant
                i <= object_code@.len(),
                r@ == object_code@.take(i as int),
            decreases object_code.len() - i,
        {
            r.push(object_code[i]);
            assert(r@ =~= object_code@.take(i + 1));
            i = i + 1;
        }
        assert(object_code@.take(object_code@.len() as int) =~= object_code@);
        r
    }

    /// The hash of the final binary: its SHA-256 digest in lowercase hexadecimal.
    fn phase_hash_finalization(&self, data: &[u8]) -> (s: String)
        ensures
            s@ == bytes_hex(sha256(data@)),
            s@.len() == 64,
    {
        let digest = sha256_digest(data);
        proof {
            lemma_bytes_hex_len(digest@);
        }
        hex_string(digest.as_slice())
    }

    /// Compiles a checked program to assembly text, or tells that its
    /// lowering cannot complete (`None`): an operand whose block defines no
    /// value, or a lambda counter at the largest machine integer. Type and
    /// region inference record their notes at levels 2 and above.
    pub fn compile_checked(&mut self, program: Program) -> (r: Option<Result<String, CompilerError>>)
        ensures
            final(self).target() == old(self).target(),
            final(self).level() == old(self).level(),
            final(self).pending_warnings() == old(self).pending_warnings() + inference_notes(old(self).level()),
            match icnf_program(program, old(self).lambdas()) {
                None => r is None,
                Some((p, c)) => r matches Some(x) && final(self).lambdas() == c && codegen_outcome(
                    x,
                    optimize(old(self).level(), p),
                ),
            },
    {
        let ghost w0 = self.pending_warnings();
        if self.opt_level >= 2 {
            self.warn("Type inference complete");
            self.warn("Region inference complete");
        }
        assert(self.pending_warnings() =~= w0 + inference_notes(old(self).level()));
        let program = self.phase_monomorphization(program);
        let icnf = match self.phase_icnf_generation(&program) {
            None => return None,
            Some(p) => p,
        };
        let ghost pv = icnf@;
        let optimized = self.phase_optimization(icnf);
        proof {
            if 1 <= self.level() <= 3 {
                assert forall|k: int| 0 <= k < optimized@.functions.len() implies #[trigger] function_fits(
                    optimized@.functions[k],
                ) by {
                    assert(lowered_shape(pv.functions[k]));
                    lemma_dce_shape(pv.functions[k]);
                }
            } else {
                assert forall|k: int| 0 <= k < optimized@.functions.len() implies #[trigger] function_fits(
                    optimized@.functions[k],
                ) by {
                    assert(lowered_shape(pv.functions[k]));
                }
            }
        }
        Some(self.phase_code_generation(&optimized))
    }

    /// Compiles a checked program to assembly text: lowering to the IR,
    /// the optimizations of the compiler's level, and code generation. Type and
    /// region inference record their notes at levels 2 and above.
    pub fn compile(&mut self, program: Program) -> (r: Result<String, CompilerError>)
        requires
            icnf_program(program, old(self).lambdas()) is Some,
        ensures
            final(self).target() == old(self).target(),
            final(self).level() == old(self).level(),
            final(self).pending_warnings() == old(self).pending_warnings() + inference_notes(old(self).level()),
            icnf_program(program, old(self).lambdas()) matches Some((p, c)) && final(self).lambdas() == c
                && codegen_outcome(r, optimize(old(self).level(), p)),
    {
        match self.compile_checked(program) {
            Some(r) => r,
            None => {
                proof {
                    assert(false);
                }
                Err(CompilerError::PhaseViolation { phase: 6 })
            },
        }
    }

    /// Finishes a compilation from the object code assembled from its text:
    /// links it, hashes it, and hands out the recorded warnings.
    pub fn finish(&mut self, object_code: &[u8]) -> (r: CompilationResult)
        ensures
            r.object_code@ == object_code@,
            r.hash@ == bytes_hex(sha256(object_code@)),
            r.hash@.len() == 64,
            r.warnings@.map_values(|w: String| w@) == old(self).pending_warnings(),
            final(self).pending_warnings() == Seq::<Seq<char>>::empty(),
            final(self).target() == old(self).target(),
            final(self).level() == old(self).level(),
            final(self).lambdas() == old(self).lambdas(),
    {
        let linked = self.phase_linking(object_code);
        let hash = self.phase_hash_finalization(linked.as_slice());
        let mut warnings: Vec<String> = Vec::new();
        std::mem::swap(&mut warnings, &mut self.warnings);
        assert(self.pending_warnings() =~= Seq::<Seq<char>>::empty());
        CompilationResult { object_code: linked, hash, warnings }
    }
}

// ============================================================================
// PUBLIC API
// ============================================================================

/// Compiles a checked program for x86_64 at optimization level 1, to assembly text.
pub fn compile(program: Program) -> (r: Result<String, CompilerError>)
    requires
        icnf_program(program, 0) is Some,
    ensures
        icnf_program(program, 0) matches Some((p, _)) && codegen_outcome(r, optimize(1, p)),
{
    let mut compiler = Compiler::new(Arch::X86_64);
    compiler.compile(program)
}

/// Compiles a checked program for `arch` at optimization level 1, to assembly text.
pub fn compile_with_arch(program: Program, arch: Arch) -> (r: Result<String, CompilerError>)
    requires
        icnf_program(program, 0) is Some,
    ensures
        icnf_program(program, 0) matches Some((p, _)) && codegen_outcome(r, optimize(1, p)),
{
    let mut compiler = Compiler::new(arch);
    compiler.compile(program)
}

/// Compiles a checked program for x86_64 at optimization level `opt_level`
/// (at most 3), to assembly text.
pub fn compile_optimized(program: Program, opt_level: usize) -> (r: Result<String, CompilerError>)
    requires
        icnf_program(program, 0) is Some,
    ensures
        icnf_program(program, 0) matches Some((p, _)) && codegen_outcome(
            r,
            optimize(capped_level(opt_level), p),
        ),
{
    let mut compiler = Compiler::new(Arch::X86_64);
    compiler = compiler.with_optimization(opt_level);
    compiler.compile(program)
}

// ============================================================================
// LAWS
// ============================================================================

/// Optimization is idempotent: optimizing an optimized program changes nothing.
pub proof fn law_optimize_idempotent(level: nat, p: ProgramV)
    ensures
        optimize(level, optimize(level, p)) == optimize(level, p),
{
    if 1 <= level <= 3 {
        let once = optimize(level, p);
        assert forall|k: int| 0 <= k < once.functions.len() implies #[trigger] dce_function(once.functions[k])
            == once.functions[k] by {
            law_dce_idempotent(p.functions[k]);
        }
        assert(optimize(level, once).functions =~= once.functions);
    }
}

/// Compilation is deterministic: two code generations of the same program
/// give the same assembly text, or the same error.
pub proof fn law_codegen_deterministic(r1: Result<String, CompilerError>, r2: Result<String, CompilerError>, p: ProgramV)
    requires
        codegen_outcome(r1, p),
        codegen_outcome(r2, p),
    ensures
        same_result(r1, r2),
{
}

/// `compile`, `compile_with_arch` for every target and `compile_optimized` at
/// level 1 all compile a program alike, and each gives the same result on
/// every call: any two results that their contracts allow for one program
/// are the same.
pub proof fn law_default_compilations_agree(program: Program, r1: Result<String, CompilerError>, r2: Result<String, CompilerError>)
    requires
        icnf_program(program, 0) matches Some((p, _)) && codegen_outcome(r1, optimize(1, p)) && codegen_outcome(
            r2,
            optimize(capped_level(1), p),
        ),
    ensures
        same_result(r1, r2),
{
    let p = icnf_program(program, 0)->Some_0.0;
    law_codegen_deterministic(r1, r2, optimize(1, p));
}

/// A requested optimization level of 3 or more compiles as level 3 does.
pub proof fn law_levels_above_three_compile_as_three(
    program: Program,
    level: usize,
    r1: Result<String, CompilerError>,
    r2: Result<String, CompilerError>,
)
    requires
        level >= 3,
        icnf_program(program, 0) matches Some((p, _)) && codegen_outcome(r1, optimize(capped_level(level), p))
            && codegen_outcome(r2, optimize(capped_level(3), p)),
    ensures
        same_result(r1, r2),
{
    let p = icnf_program(program, 0)->Some_0.0;
    law_codegen_deterministic(r1, r2, optimize(3, p));
}

/// The binary hash is determined by the object code alone, and is 64
/// lowercase hexadecimal digits.
pub proof fn law_hash_deterministic(a: Seq<u8>, b: Seq<u8>)
    requires
        a == b,
        sha256(a).len() == 32,
    ensures
        bytes_hex(sha256(a)) == bytes_hex(sha256(b)),
        bytes_hex(sha256(a)).len() == 64,
{
    lemma_bytes_hex_len(sha256(a));
}

} // verus!
