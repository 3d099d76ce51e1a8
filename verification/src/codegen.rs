//! The code generator: walks a type-checked program and emits an IR
//! module, one IR function per source function, with one stack slot per
//! declared variable and a terminated final block.
//!
//! Coercion policy: a value stored into a slot (or returned) of the other
//! numeric type is converted explicitly — an integer value is widened
//! into a float slot, a float value is truncated into an integer slot.
//! In a binary operation, if either operand is float-typed the other is
//! promoted to float first. Statements after a `return` are unreachable
//! and are discarded. A body without a `return` still terminates: an
//! implicit return of the zero value of the declared type is emitted.

use vstd::prelude::*;

use crate::ast::{Expr, FloatLit, Function, Program, Statement, Type};
use crate::ir::{BasicBlock, BinOp, Inst, IrFunction, IrModule, Terminator};
use vstd::string::StringExecFns;

verus! {

/// The error class of the code generator. The first five report
/// violations the type checker should have rejected; `Internal` is
/// distinct: it marks a failed self-check of the generator itself, a
/// compiler bug rather than a user error.
#[derive(Debug, PartialEq)]
pub enum CodegenError {
    /// An assignment to, or use of, a name with no prior declaration in
    /// the same function.
    UnknownVariable(String),
    /// A second declaration of a name already declared in this function.
    Redeclared(String),
    /// A string literal used as an arithmetic value.
    StringInExpr,
    /// A `printf` argument that is neither a string literal nor a
    /// variable.
    BadPrintArg,
    /// A `scanf` argument that is not a variable.
    BadScanArg,
    /// A generated function failed the terminator self-check.
    Internal,
}

/// One entry of the per-function variable table: a declared name, its
/// type, and the id of its stack slot.
#[derive(Debug, PartialEq)]
pub struct VarSlot {
    pub name: String,
    pub ty: Type,
    pub slot: usize,
}

/// The first table entry for `name`, if the name is declared.
pub open spec fn lookup_var(vars: Seq<VarSlot>, name: Seq<char>) -> Option<VarSlot>
    decreases vars.len(),
{
    if vars.len() == 0 {
        None
    } else if vars[0].name@ == name {
        Some(vars[0])
    } else {
        lookup_var(vars.drop_first(), name)
    }
}

/// The code generator state within one function: the variable table, the
/// next value id, the instructions emitted so far, and the terminator
/// once a `return` has been compiled.
#[verifier::ext_equal]
pub ghost struct CgSt {
    pub vars: Seq<VarSlot>,
    pub next: int,
    pub insts: Seq<Inst>,
    pub term: Option<Terminator>,
}

/// The instructions appended to coerce value `id` of type `from` to type
/// `to`, with the next id and the id of the coerced value.
pub open spec fn coerce_tail(from: Type, to: Type, next: int, id: int) -> (Seq<Inst>, int, int) {
    if from == to {
        (seq![], next, id)
    } else if (to matches Type::Float) {
        (seq![(Inst::IntToFloat { dest: next as usize, src: id as usize })], next + 1, next)
    } else {
        (seq![(Inst::FloatToInt { dest: next as usize, src: id as usize })], next + 1, next)
    }
}

/// The instructions appended after both operands of a binary operation
/// are available: a promotion of the integer side if either side is
/// float-typed, then the arithmetic instruction at the common type.
/// Yields (tail, next id, result id, result type).
pub open spec fn combine_tail(op: BinOp, id_a: int, ta: Type, n2: int, id_b: int, tb: Type) -> (
    Seq<Inst>,
    int,
    int,
    Type,
) {
    if (ta matches Type::Float) || (tb matches Type::Float) {
        if (ta matches Type::Int) {
            (
                seq![
                    (Inst::IntToFloat { dest: n2 as usize, src: id_a as usize }),
                    (Inst::Bin {
                        dest: (n2 + 1) as usize,
                        op,
                        ty: Type::Float,
                        lhs: n2 as usize,
                        rhs: id_b as usize,
                    }),
                ],
                n2 + 2,
                n2 + 1,
                Type::Float,
            )
        } else if (tb matches Type::Int) {
            (
                seq![
                    (Inst::IntToFloat { dest: n2 as usize, src: id_b as usize }),
                    (Inst::Bin {
                        dest: (n2 + 1) as usize,
                        op,
                        ty: Type::Float,
                        lhs: id_a as usize,
                        rhs: n2 as usize,
                    }),
                ],
                n2 + 2,
                n2 + 1,
                Type::Float,
            )
        } else {
            (
                seq![
                    (Inst::Bin {
                        dest: n2 as usize,
                        op,
                        ty: Type::Float,
                        lhs: id_a as usize,
                        rhs: id_b as usize,
                    }),
                ],
                n2 + 1,
                n2,
                Type::Float,
            )
        }
    } else {
        (
            seq![
                (Inst::Bin {
                    dest: n2 as usize,
                    op,
                    ty: Type::Int,
                    lhs: id_a as usize,
                    rhs: id_b as usize,
                }),
            ],
            n2 + 1,
            n2,
            Type::Int,
        )
    }
}

/// Compiles an expression against the variable table `vars`, allocating
/// value ids from `next`. Yields (emitted instructions, next id, result
/// id, result type), or the first error in left-to-right order.
pub open spec fn spec_compile_expr(e: Expr, vars: Seq<VarSlot>, next: int) -> Result<
    (Seq<Inst>, int, int, Type),
    CodegenError,
>
    decreases e, 1int,
{
    match e {
        Expr::IntLiteral(v) => Ok(
            (seq![(Inst::ConstInt { dest: next as usize, value: v })], next + 1, next, Type::Int),
        ),
        Expr::FloatLiteral(f) => Ok(
            (
                seq![(Inst::ConstFloat { dest: next as usize, value: f })],
                next + 1,
                next,
                Type::Float,
            ),
        ),
        Expr::Variable(n) => match lookup_var(vars, n@) {
            None => Err(CodegenError::UnknownVariable(n)),
            Some(vs) => Ok(
                (
                    seq![(Inst::Load { dest: next as usize, ty: vs.ty, slot: vs.slot })],
                    next + 1,
                    next,
                    vs.ty,
                ),
            ),
        },
        Expr::StringLiteral(_) => Err(CodegenError::StringInExpr),
        Expr::Add(_, _) => spec_compile_bin(BinOp::Add, e, vars, next),
        Expr::Sub(_, _) => spec_compile_bin(BinOp::Sub, e, vars, next),
        Expr::Mul(_, _) => spec_compile_bin(BinOp::Mul, e, vars, next),
        Expr::Div(_, _) => spec_compile_bin(BinOp::Div, e, vars, next),
    }
}

/// Compiles a binary-operation expression `e` carrying operation `op`:
/// left operand, right operand, then the combining tail.
pub open spec fn spec_compile_bin(op: BinOp, e: Expr, vars: Seq<VarSlot>, next: int) -> Result<
    (Seq<Inst>, int, int, Type),
    CodegenError,
>
    decreases e, 0int,
{
    match e {
        Expr::Add(a, b) | Expr::Sub(a, b) | Expr::Mul(a, b) | Expr::Div(a, b) => match
            spec_compile_expr(*a, vars, next) {
            Err(er) => Err(er),
            Ok(ra) => match spec_compile_expr(*b, vars, ra.1) {
                Err(er) => Err(er),
                Ok(rb) => {
                    let c = combine_tail(op, ra.2, ra.3, rb.1, rb.2, rb.3);
                    Ok((ra.0 + rb.0 + c.0, c.1, c.2, c.3))
                },
            },
        },
        _ => Err(CodegenError::Internal),
    }
}

/// Compiles the `printf` arguments from index `k` on: a string literal
/// becomes a `print_str` call; a variable is loaded and printed through
/// `print_int` or `print_float` per its declared type; anything else is
/// rejected.
pub open spec fn spec_compile_print(args: Seq<Expr>, k: int, st: CgSt) -> Result<CgSt, CodegenError>
    decreases args.len() - k,
{
    if k < 0 || k >= args.len() {
        Ok(st)
    } else {
        match args[k] {
            Expr::StringLiteral(s) => spec_compile_print(
                args,
                k + 1,
                CgSt { insts: st.insts.push(Inst::PrintStr { text: s }), ..st },
            ),
            Expr::Variable(n) => match lookup_var(st.vars, n@) {
                None => Err(CodegenError::UnknownVariable(n)),
                Some(vs) => {
                    let load = Inst::Load { dest: st.next as usize, ty: vs.ty, slot: vs.slot };
                    let pr = if (vs.ty matches Type::Int) {
                        Inst::PrintInt { src: st.next as usize }
                    } else {
                        Inst::PrintFloat { src: st.next as usize }
                    };
                    spec_compile_print(
                        args,
                        k + 1,
                        CgSt { next: st.next + 1, insts: st.insts + seq![load, pr], ..st },
                    )
                },
            },
            _ => Err(CodegenError::BadPrintArg),
        }
    }
}

/// Compiles the `scanf` arguments from index `k` on: each variable
/// argument becomes a typed read call whose result is stored into the
/// variable's slot; anything else is rejected.
pub open spec fn spec_compile_scan(args: Seq<Expr>, k: int, st: CgSt) -> Result<CgSt, CodegenError>
    decreases args.len() - k,
{
    if k < 0 || k >= args.len() {
        Ok(st)
    } else {
        match args[k] {
            Expr::Variable(n) => match lookup_var(st.vars, n@) {
                None => Err(CodegenError::UnknownVariable(n)),
                Some(vs) => {
                    let rd = if (vs.ty matches Type::Int) {
                        Inst::ReadInt { dest: st.next as usize }
                    } else {
                        Inst::ReadFloat { dest: st.next as usize }
                    };
                    let store = Inst::Store { slot: vs.slot, src: st.next as usize };
                    spec_compile_scan(
                        args,
                        k + 1,
                        CgSt { next: st.next + 1, insts: st.insts + seq![rd, store], ..st },
                    )
                },
            },
            _ => Err(CodegenError::BadScanArg),
        }
    }
}

/// Compiles one statement in state `st` within a function returning
/// `ret`. Once the block is terminated, remaining statements are
/// unreachable and leave the state unchanged.
pub open spec fn spec_compile_stmt(s: Statement, ret: Type, st: CgSt) -> Result<CgSt, CodegenError> {
    if st.term is Some {
        Ok(st)
    } else {
        match s {
            Statement::Header(_) => Ok(st),
            Statement::Declare(ty, name, e) => match lookup_var(st.vars, name@) {
                Some(_) => Err(CodegenError::Redeclared(name)),
                None => {
                    let slot = st.next;
                    let alloc = Inst::Alloca { dest: slot as usize, ty, name };
                    match spec_compile_expr(e, st.vars, slot + 1) {
                        Err(er) => Err(er),
                        Ok(re) => {
                            let c = coerce_tail(re.3, ty, re.1, re.2);
                            Ok(
                                CgSt {
                                    vars: st.vars.push(
                                        VarSlot { name, ty, slot: slot as usize },
                                    ),
                                    next: c.1,
                                    insts: st.insts + seq![alloc] + re.0 + c.0 + seq![
                                        (Inst::Store { slot: slot as usize, src: c.2 as usize }),
                                    ],
                                    term: st.term,
                                },
                            )
                        },
                    }
                },
            },
            Statement::Assign(name, e) => match lookup_var(st.vars, name@) {
                None => Err(CodegenError::UnknownVariable(name)),
                Some(vs) => match spec_compile_expr(e, st.vars, st.next) {
                    Err(er) => Err(er),
                    Ok(re) => {
                        let c = coerce_tail(re.3, vs.ty, re.1, re.2);
                        Ok(
                            CgSt {
                                vars: st.vars,
                                next: c.1,
                                insts: st.insts + re.0 + c.0 + seq![
                                    (Inst::Store { slot: vs.slot, src: c.2 as usize }),
                                ],
                                term: st.term,
                            },
                        )
                    },
                },
            },
            Statement::Return(e) => match spec_compile_expr(e, st.vars, st.next) {
                Err(er) => Err(er),
                Ok(re) => {
                    let c = coerce_tail(re.3, ret, re.1, re.2);
                    Ok(
                        CgSt {
                            vars: st.vars,
                            next: c.1,
                            insts: st.insts + re.0 + c.0,
                            term: Some(Terminator::Ret { value: c.2 as usize }),
                        },
                    )
                },
            },
            Statement::Print(args) => spec_compile_print(args@, 0, st),
            Statement::Scan(args) => spec_compile_scan(args@, 0, st),
        }
    }
}

/// Compiles the statements of a body from index `k` on.
pub open spec fn spec_compile_body(body: Seq<Statement>, k: int, ret: Type, st: CgSt) -> Result<
    CgSt,
    CodegenError,
>
    decreases body.len() - k,
{
    if k < 0 || k >= body.len() {
        Ok(st)
    } else {
        match spec_compile_stmt(body[k], ret, st) {
            Err(er) => Err(er),
            Ok(st2) => spec_compile_body(body, k + 1, ret, st2),
        }
    }
}

/// The zero constant of a type, used for the implicit return.
pub open spec fn zero_inst(ret: Type, next: int) -> Inst {
    if (ret matches Type::Int) {
        Inst::ConstInt { dest: next as usize, value: 0 }
    } else {
        Inst::ConstFloat { dest: next as usize, value: FloatLit { whole: 0, frac: 0, frac_len: 1 } }
    }
}

/// Compiles one function body: its instruction sequence and the single
/// terminator of its block. A body that never returned gets an implicit
/// return of the zero value of the declared type.
pub open spec fn spec_compile_fn(ret: Type, body: Seq<Statement>) -> Result<
    (Seq<Inst>, Terminator),
    CodegenError,
> {
    let st0 = CgSt { vars: seq![], next: 0, insts: seq![], term: None };
    match spec_compile_body(body, 0, ret, st0) {
        Err(er) => Err(er),
        Ok(st) => match st.term {
            Some(t) => Ok((st.insts, t)),
            None => Ok(
                (st.insts.push(zero_inst(ret, st.next)), Terminator::Ret {
                    value: st.next as usize,
                }),
            ),
        },
    }
}

/// Compiles the functions of a program from index `k` on, in source
/// order; the first error aborts the whole compilation.
pub open spec fn spec_compile_program(fns: Seq<Function>, k: int) -> Result<
    Seq<(Seq<Inst>, Terminator)>,
    CodegenError,
>
    decreases fns.len() - k,
{
    if k < 0 || k >= fns.len() {
        Ok(seq![])
    } else {
        match spec_compile_fn(fns[k].return_type, fns[k].body@) {
            Err(er) => Err(er),
            Ok(p) => match spec_compile_program(fns, k + 1) {
                Err(er) => Err(er),
                Ok(rest) => Ok(seq![p] + rest),
            },
        }
    }
}

/// The paths of the header directives among `stmts`, from index `k` on.
pub open spec fn header_paths(stmts: Seq<Statement>, k: int) -> Seq<String>
    decreases stmts.len() - k,
{
    if k < 0 || k >= stmts.len() {
        seq![]
    } else {
        match stmts[k] {
            Statement::Header(p) => seq![p] + header_paths(stmts, k + 1),
            _ => header_paths(stmts, k + 1),
        }
    }
}

/// Builds an IR module from a type-checked program: one IR function per
/// source function, in source order.
pub struct CodeGenerator {
    /// The module under construction; complete only after `compile`
    /// returns successfully.
    pub module: IrModule,
    /// The paths of the program's header directives, collected by
    /// `compile` for auditing and echoing; they have no code effect.
    pub header_paths: Vec<String>,
    /// The variable table of the function being compiled.
    pub vars: Vec<VarSlot>,
    /// The next unassigned value id of the function being compiled.
    pub next_id: usize,
    /// The instructions of the block being built.
    pub cur_insts: Vec<Inst>,
    /// The terminator of the block being built, once a return compiled.
    pub cur_term: Option<Terminator>,
    /// The declared return type of the function being compiled.
    pub cur_ret: Type,
}

impl CodeGenerator {
    /// Every value id handed out so far is covered by an emitted
    /// instruction, so id allocation cannot overflow.
    pub open spec fn cg_wf(self) -> bool {
        self.next_id <= self.cur_insts@.len()
    }

    /// The per-function state as the specification sees it.
    pub open spec fn st(self) -> CgSt {
        CgSt {
            vars: self.vars@,
            next: self.next_id as int,
            insts: self.cur_insts@,
            term: self.cur_term,
        }
    }

    /// A fresh generator with an empty module named `main`.
    pub fn new() -> (r: CodeGenerator)
        ensures
            r.cg_wf(),
            r.module.functions@.len() == 0,
            r.module.name@ == "main"@,
            r.header_paths@.len() == 0,
            r.cur_term is None,
    {
        CodeGenerator {
            module: IrModule { name: String::from_str("main"), functions: Vec::new() },
            header_paths: Vec::new(),
            vars: Vec::new(),
            next_id: 0,
            cur_insts: Vec::new(),
            cur_term: None,
            cur_ret: Type::Int,
        }
    }

    /// Advances the value-id counter past an instruction just pushed;
    /// the emitted instruction witnesses that the counter cannot wrap.
    fn bump_id(&mut self)
        requires
            old(self).next_id < old(self).cur_insts@.len(),
        ensures
            final(self).next_id == old(self).next_id + 1,
            final(self).vars == old(self).vars,
            final(self).cur_insts == old(self).cur_insts,
            final(self).cur_term == old(self).cur_term,
            final(self).module == old(self).module,
            final(self).header_paths == old(self).header_paths,
            final(self).cur_ret == old(self).cur_ret,
    {
        let n = self.cur_insts.len();
        self.next_id = self.next_id + 1;
    }

    /// Looks a name up in the variable table of the current function.
    fn lookup(&self, name: &String) -> (r: Option<(usize, Type)>)
        ensures
            match lookup_var(self.vars@, name@) {
                Some(vs) => r == Some((vs.slot, vs.ty)),
                None => r is None,
            },
    {
        let mut k: usize = 0;
        proof {
            assert(self.vars@.skip(0) =~= self.vars@);
        }
        while k < self.vars.len()
            invariant
                k <= self.vars@.len(),
                lookup_var(self.vars@, name@) == lookup_var(self.vars@.skip(k as int), name@),
            decreases self.vars@.len() - k,
        {
            proof {
                assert(self.vars@.skip(k as int)[0] == self.vars@[k as int]);
                assert(self.vars@.skip(k as int).drop_first() =~= self.vars@.skip(k as int + 1));
            }
            if self.vars[k].name == *name {
                return Some((self.vars[k].slot, self.vars[k].ty));
            }
            k = k + 1;
        }
        proof {
            assert(self.vars@.skip(k as int) =~= Seq::<VarSlot>::empty());
        }
        None
    }

    /// Emits the coercion of value `id` from type `from` to type `to`,
    /// yielding the id holding the coerced value.
    fn emit_coerce(&mut self, from: Type, to: Type, id: usize) -> (r: usize)
        requires
            old(self).cg_wf(),
        ensures
            final(self).cg_wf(),
            final(self).vars == old(self).vars,
            final(self).cur_term == old(self).cur_term,
            final(self).module == old(self).module,
            final(self).header_paths == old(self).header_paths,
            final(self).cur_ret == old(self).cur_ret,
            ({
                let c = coerce_tail(from, to, old(self).next_id as int, id as int);
                &&& final(self).cur_insts@ == old(self).cur_insts@ + c.0
                &&& final(self).next_id as int == c.1
                &&& r as int == c.2
            }),
    {
        let same = match (from, to) {
            (Type::Int, Type::Int) => true,
            (Type::Float, Type::Float) => true,
            _ => false,
        };
        if same {
            proof {
                assert(old(self).cur_insts@ + seq![] =~= old(self).cur_insts@);
            }
            id
        } else {
            let dest = self.next_id;
            match to {
                Type::Float => self.cur_insts.push(Inst::IntToFloat { dest, src: id }),
                Type::Int => self.cur_insts.push(Inst::FloatToInt { dest, src: id }),
            }
            self.bump_id();
            proof {
                let c = coerce_tail(from, to, old(self).next_id as int, id as int);
                assert(final(self).cur_insts@ =~= old(self).cur_insts@ + c.0);
            }
            dest
        }
    }

    /// Emits the promotion and arithmetic instructions combining two
    /// compiled operands, yielding the result id and type.
    fn emit_bin(&mut self, op: BinOp, id_a: usize, ta: Type, id_b: usize, tb: Type) -> (r: (
        usize,
        Type,
    ))
        requires
            old(self).cg_wf(),
        ensures
            final(self).cg_wf(),
            final(self).vars == old(self).vars,
            final(self).cur_term == old(self).cur_term,
            final(self).module == old(self).module,
            final(self).header_paths == old(self).header_paths,
            final(self).cur_ret == old(self).cur_ret,
            ({
                let c = combine_tail(op, id_a as int, ta, old(self).next_id as int, id_b as int, tb);
                &&& final(self).cur_insts@ == old(self).cur_insts@ + c.0
                &&& final(self).next_id as int == c.1
                &&& r.0 as int == c.2
                &&& r.1 == c.3
            }),
    {
        let ghost c = combine_tail(op, id_a as int, ta, old(self).next_id as int, id_b as int, tb);
        let either_float = matches!(ta, Type::Float) || matches!(tb, Type::Float);
        if either_float {
            let (la, lb) = if matches!(ta, Type::Int) {
                let p = self.next_id;
                self.cur_insts.push(Inst::IntToFloat { dest: p, src: id_a });
                self.bump_id();
                (p, id_b)
            } else if matches!(tb, Type::Int) {
                let p = self.next_id;
                self.cur_insts.push(Inst::IntToFloat { dest: p, src: id_b });
                self.bump_id();
                (id_a, p)
            } else {
                (id_a, id_b)
            };
            let dest = self.next_id;
            self.cur_insts.push(Inst::Bin { dest, op, ty: Type::Float, lhs: la, rhs: lb });
            self.bump_id();
            proof {
                assert(final(self).cur_insts@ =~= old(self).cur_insts@ + c.0);
            }
            (dest, Type::Float)
        } else {
            let dest = self.next_id;
            self.cur_insts.push(Inst::Bin { dest, op, ty: Type::Int, lhs: id_a, rhs: id_b });
            self.bump_id();
            proof {
                assert(final(self).cur_insts@ =~= old(self).cur_insts@ + c.0);
            }
            (dest, Type::Int)
        }
    }

    /// Compiles one expression into the current block, yielding the id
    /// and type of the value holding its result.
    pub fn compile_expr(&mut self, e: &Expr) -> (r: Result<(usize, Type), CodegenError>)
        requires
            old(self).cg_wf(),
        ensures
            final(self).cg_wf(),
            final(self).vars == old(self).vars,
            final(self).cur_term == old(self).cur_term,
            final(self).module == old(self).module,
            final(self).header_paths == old(self).header_paths,
            final(self).cur_ret == old(self).cur_ret,
            match r {
                Ok(p) => spec_compile_expr(*e, old(self).vars@, old(self).next_id as int)
                    matches Ok(q) && final(self).cur_insts@ == old(self).cur_insts@ + q.0
                    && final(self).next_id as int == q.1 && p.0 as int == q.2 && p.1 == q.3,
                Err(er) => spec_compile_expr(*e, old(self).vars@, old(self).next_id as int)
                    == Err::<(Seq<Inst>, int, int, Type), _>(er),
            },
        decreases e, 1int,
    {
        match e {
            Expr::IntLiteral(v) => {
                let dest = self.next_id;
                self.cur_insts.push(Inst::ConstInt { dest, value: *v });
                self.bump_id();
                proof {
                    assert(final(self).cur_insts@ =~= old(self).cur_insts@ + seq![
                        (Inst::ConstInt { dest, value: *v }),
                    ]);
                }
                Ok((dest, Type::Int))
            },
            Expr::FloatLiteral(f) => {
                let dest = self.next_id;
                self.cur_insts.push(Inst::ConstFloat { dest, value: *f });
                self.bump_id();
                proof {
                    assert(final(self).cur_insts@ =~= old(self).cur_insts@ + seq![
                        (Inst::ConstFloat { dest, value: *f }),
                    ]);
                }
                Ok((dest, Type::Float))
            },
            Expr::Variable(n) => match self.lookup(n) {
                None => Err(CodegenError::UnknownVariable(n.clone())),
                Some((slot, ty)) => {
                    let dest = self.next_id;
                    self.cur_insts.push(Inst::Load { dest, ty, slot });
                    self.bump_id();
                    proof {
                        assert(final(self).cur_insts@ =~= old(self).cur_insts@ + seq![
                            (Inst::Load { dest, ty, slot }),
                        ]);
                    }
                    Ok((dest, ty))
                },
            },
            Expr::StringLiteral(_) => Err(CodegenError::StringInExpr),
            Expr::Add(_, _) => self.compile_bin_expr(BinOp::Add, e),
            Expr::Sub(_, _) => self.compile_bin_expr(BinOp::Sub, e),
            Expr::Mul(_, _) => self.compile_bin_expr(BinOp::Mul, e),
            Expr::Div(_, _) => self.compile_bin_expr(BinOp::Div, e),
        }
    }

    /// Compiles both operands of a binary-operation expression, then the
    /// combining tail.
    fn compile_bin_expr(&mut self, op: BinOp, e: &Expr) -> (r: Result<
        (usize, Type),
        CodegenError,
    >)
        requires
            old(self).cg_wf(),
        ensures
            final(self).cg_wf(),
            final(self).vars == old(self).vars,
            final(self).cur_term == old(self).cur_term,
            final(self).module == old(self).module,
            final(self).header_paths == old(self).header_paths,
            final(self).cur_ret == old(self).cur_ret,
            match r {
                Ok(p) => spec_compile_bin(op, *e, old(self).vars@, old(self).next_id as int)
                    matches Ok(q) && final(self).cur_insts@ == old(self).cur_insts@ + q.0
                    && final(self).next_id as int == q.1 && p.0 as int == q.2 && p.1 == q.3,
                Err(er) => spec_compile_bin(op, *e, old(self).vars@, old(self).next_id as int)
                    == Err::<(Seq<Inst>, int, int, Type), _>(er),
            },
        decreases e, 0int,
    {
        match e {
            Expr::Add(a, b) | Expr::Sub(a, b) | Expr::Mul(a, b) | Expr::Div(a, b) => {
                let (id_a, ta) = match self.compile_expr(&**a) {
                    Err(er) => {
                        return Err(er);
                    },
                    Ok(p) => p,
                };
                let (id_b, tb) = match self.compile_expr(&**b) {
                    Err(er) => {
                        return Err(er);
                    },
                    Ok(p) => p,
                };
                let (dest, ty) = self.emit_bin(op, id_a, ta, id_b, tb);
                proof {
                    let ra = spec_compile_expr(**a, old(self).vars@, old(self).next_id as int)->Ok_0;
                    let rb = spec_compile_expr(**b, old(self).vars@, ra.1)->Ok_0;
                    let c = combine_tail(op, ra.2, ra.3, rb.1, rb.2, rb.3);
                    assert(final(self).cur_insts@ =~= old(self).cur_insts@ + (ra.0 + rb.0 + c.0));
                }
                Ok((dest, ty))
            },
            _ => Err(CodegenError::Internal),
        }
    }

    /// Compiles one statement into the current block. Statements after
    /// the block is terminated are unreachable and leave it unchanged.
    #[verifier::loop_isolation(false)]
    #[verifier::rlimit(60)]
    pub fn compile_statement(&mut self, stmt: &Statement) -> (r: Result<(), CodegenError>)
        requires
            old(self).cg_wf(),
        ensures
            final(self).cg_wf(),
            final(self).module == old(self).module,
            final(self).header_paths == old(self).header_paths,
            final(self).cur_ret == old(self).cur_ret,
            match r {
                Ok(p) => spec_compile_stmt(*stmt, old(self).cur_ret, old(self).st()) matches Ok(st2)
                    && final(self).vars@ == st2.vars && final(self).next_id as int == st2.next
                    && final(self).cur_insts@ == st2.insts && final(self).cur_term == st2.term,
                Err(er) => spec_compile_stmt(*stmt, old(self).cur_ret, old(self).st())
                    == Err::<CgSt, _>(er) && final(self).vars == old(self).vars
                    && final(self).cur_term == old(self).cur_term,
            },
    {
        if self.cur_term.is_some() {
            return Ok(());
        }
        match stmt {
            Statement::Header(_) => Ok(()),
            Statement::Declare(ty, name, e) => {
                match self.lookup(name) {
                    Some(_) => Err(CodegenError::Redeclared(name.clone())),
                    None => {
                        let slot = self.next_id;
                        self.cur_insts.push(
                            Inst::Alloca { dest: slot, ty: *ty, name: name.clone() },
                        );
                        self.bump_id();
                        match self.compile_expr(e) {
                            Err(er) => Err(er),
                            Ok((id, ety)) => {
                                let cid = self.emit_coerce(ety, *ty, id);
                                self.cur_insts.push(Inst::Store { slot, src: cid });
                                self.vars.push(VarSlot { name: name.clone(), ty: *ty, slot });
                                proof {
                                    let st = old(self).st();
                                    let alloc = Inst::Alloca { dest: slot, ty: *ty, name: *name };
                                    let re = spec_compile_expr(
                                        *e,
                                        st.vars,
                                        st.next + 1,
                                    )->Ok_0;
                                    let c = coerce_tail(re.3, *ty, re.1, re.2);
                                    assert(final(self).cur_insts@ =~= st.insts + seq![alloc] + re.0
                                        + c.0 + seq![(Inst::Store { slot, src: cid })]);
                                    assert(final(self).vars@ =~= st.vars.push(
                                        VarSlot { name: *name, ty: *ty, slot },
                                    ));
                                }
                                Ok(())
                            },
                        }
                    },
                }
            },
            Statement::Assign(name, e) => {
                match self.lookup(name) {
                    None => Err(CodegenError::UnknownVariable(name.clone())),
                    Some((slot, vty)) => {
                        match self.compile_expr(e) {
                            Err(er) => Err(er),
                            Ok((id, ety)) => {
                                let cid = self.emit_coerce(ety, vty, id);
                                self.cur_insts.push(Inst::Store { slot, src: cid });
                                proof {
                                    let st = old(self).st();
                                    let re = spec_compile_expr(*e, st.vars, st.next)->Ok_0;
                                    let c = coerce_tail(re.3, vty, re.1, re.2);
                                    assert(final(self).cur_insts@ =~= st.insts + re.0 + c.0 + seq![
                                        (Inst::Store { slot, src: cid }),
                                    ]);
                                }
                                Ok(())
                            },
                        }
                    },
                }
            },
            Statement::Return(e) => {
                let rt = self.cur_ret;
                match self.compile_expr(e) {
                    Err(er) => Err(er),
                    Ok((id, ety)) => {
                        let cid = self.emit_coerce(ety, rt, id);
                        self.cur_term = Some(Terminator::Ret { value: cid });
                        proof {
                            let st = old(self).st();
                            let re = spec_compile_expr(*e, st.vars, st.next)->Ok_0;
                            let c = coerce_tail(re.3, rt, re.1, re.2);
                            assert(final(self).cur_insts@ =~= st.insts + re.0 + c.0);
                        }
                        Ok(())
                    },
                }
            },
            Statement::Print(args) => {
                let mut k: usize = 0;
                while k < args.len()
                    invariant
                        k <= args@.len(),
                        self.cg_wf(),
                        self.vars == old(self).vars,
                        self.cur_term == old(self).cur_term,
                        self.module == old(self).module,
                        self.header_paths == old(self).header_paths,
                        self.cur_ret == old(self).cur_ret,
                        spec_compile_print(args@, 0, old(self).st()) == spec_compile_print(
                            args@,
                            k as int,
                            self.st(),
                        ),
                    decreases args@.len() - k,
                {
                    let ghost pre = self.st();
                    match &args[k] {
                        Expr::StringLiteral(s) => {
                            self.cur_insts.push(Inst::PrintStr { text: s.clone() });
                            proof {
                                match args@[k as int] {
                                    Expr::StringLiteral(sv) => {
                                        assert(self.st() =~= (CgSt {
                                            insts: pre.insts.push(Inst::PrintStr { text: sv }),
                                            ..pre
                                        }));
                                    },
                                    _ => {
                                        assert(false);
                                    },
                                }
                            }
                        },
                        Expr::Variable(n) => {
                            match self.lookup(n) {
                                None => {
                                    return Err(CodegenError::UnknownVariable(n.clone()));
                                },
                                Some((slot, ty)) => {
                                    let dest = self.next_id;
                                    self.cur_insts.push(Inst::Load { dest, ty, slot });
                                    match ty {
                                        Type::Int => self.cur_insts.push(
                                            Inst::PrintInt { src: dest },
                                        ),
                                        Type::Float => self.cur_insts.push(
                                            Inst::PrintFloat { src: dest },
                                        ),
                                    }
                                    self.bump_id();
                                    proof {
                                        let load = Inst::Load { dest, ty, slot };
                                        let pr = if (ty matches Type::Int) {
                                            Inst::PrintInt { src: dest }
                                        } else {
                                            Inst::PrintFloat { src: dest }
                                        };
                                        assert(self.st() =~= (CgSt {
                                            next: pre.next + 1,
                                            insts: pre.insts + seq![load, pr],
                                            ..pre
                                        }));
                                    }
                                },
                            }
                        },
                        _ => {
                            return Err(CodegenError::BadPrintArg);
                        },
                    }
                    k = k + 1;
                }
                Ok(())
            },
            Statement::Scan(args) => {
                let mut k: usize = 0;
                while k < args.len()
                    invariant
                        k <= args@.len(),
                        self.cg_wf(),
                        self.vars == old(self).vars,
                        self.cur_term == old(self).cur_term,
                        self.module == old(self).module,
                        self.header_paths == old(self).header_paths,
                        self.cur_ret == old(self).cur_ret,
                        spec_compile_scan(args@, 0, old(self).st()) == spec_compile_scan(
                            args@,
                            k as int,
                            self.st(),
                        ),
                    decreases args@.len() - k,
                {
                    let ghost pre = self.st();
                    match &args[k] {
                        Expr::Variable(n) => {
                            match self.lookup(n) {
                                None => {
                                    return Err(CodegenError::UnknownVariable(n.clone()));
                                },
                                Some((slot, ty)) => {
                                    let dest = self.next_id;
                                    match ty {
                                        Type::Int => self.cur_insts.push(
                                            Inst::ReadInt { dest },
                                        ),
                                        Type::Float => self.cur_insts.push(
                                            Inst::ReadFloat { dest },
                                        ),
                                    }
                                    self.cur_insts.push(Inst::Store { slot, src: dest });
                                    self.bump_id();
                                    proof {
                                        let rd = if (ty matches Type::Int) {
                                            Inst::ReadInt { dest }
                                        } else {
                                            Inst::ReadFloat { dest }
                                        };
                                        let store = Inst::Store { slot, src: dest };
                                        assert(self.st() =~= (CgSt {
                                            next: pre.next + 1,
                                            insts: pre.insts + seq![rd, store],
                                            ..pre
                                        }));
                                    }
                                },
                            }
                        },
                        _ => {
                            return Err(CodegenError::BadScanArg);
                        },
                    }
                    k = k + 1;
                }
                Ok(())
            },
        }
    }

    /// Compiles one source function and appends the resulting IR
    /// function, with its single terminated block, to the module.
    #[verifier::loop_isolation(false)]
    pub fn compile_function(&mut self, function: &Function) -> (r: Result<(), CodegenError>)
        requires
            old(self).cg_wf(),
        ensures
            final(self).cg_wf(),
            final(self).header_paths == old(self).header_paths,
            final(self).module.name == old(self).module.name,
            match r {
                Ok(p) => spec_compile_fn(function.return_type, function.body@) matches Ok(q)
                    && final(self).module.functions@.len() == old(self).module.functions@.len() + 1
                    && (forall|k: int|
                        0 <= k < old(self).module.functions@.len()
                            ==> final(self).module.functions@[k] == old(
                            self,
                        ).module.functions@[k])
                    && ({
                        let nf = final(self).module.functions@.last();
                        &&& nf.name@ == function.name@
                        &&& nf.return_type == function.return_type
                        &&& nf.blocks@.len() == 1
                        &&& nf.blocks@[0].insts@ == q.0
                        &&& nf.blocks@[0].terminator == Some(q.1)
                    }),
                Err(er) => spec_compile_fn(function.return_type, function.body@) == Err::<
                    (Seq<Inst>, Terminator),
                    _,
                >(er) && final(self).module == old(self).module,
            },
    {
        self.vars = Vec::new();
        self.next_id = 0;
        self.cur_insts = Vec::new();
        self.cur_term = None;
        self.cur_ret = function.return_type;
        let ghost st0 = CgSt { vars: seq![], next: 0, insts: seq![], term: None };
        proof {
            assert(self.st() =~= st0);
        }
        let mut k: usize = 0;
        while k < function.body.len()
            invariant
                k <= function.body@.len(),
                self.cg_wf(),
                self.module == old(self).module,
                self.header_paths == old(self).header_paths,
                self.cur_ret == function.return_type,
                spec_compile_body(function.body@, 0, function.return_type, st0)
                    == spec_compile_body(
                    function.body@,
                    k as int,
                    function.return_type,
                    self.st(),
                ),
            decreases function.body@.len() - k,
        {
            let ghost pre = self.st();
            match self.compile_statement(&function.body[k]) {
                Err(er) => {
                    return Err(er);
                },
                Ok(_) => {
                    proof {
                        let st2 = spec_compile_stmt(
                            function.body@[k as int],
                            function.return_type,
                            pre,
                        )->Ok_0;
                        assert(self.st() =~= st2);
                    }
                    k = k + 1;
                },
            }
        }
        let dest = self.next_id;
        if self.cur_term.is_none() {
            match self.cur_ret {
                Type::Int => self.cur_insts.push(Inst::ConstInt { dest, value: 0 }),
                Type::Float => self.cur_insts.push(
                    Inst::ConstFloat {
                        dest,
                        value: FloatLit { whole: 0, frac: 0, frac_len: 1 },
                    },
                ),
            }
            self.cur_term = Some(Terminator::Ret { value: dest });
        }
        let t = match self.cur_term {
            Some(t) => t,
            None => {
                return Err(CodegenError::Internal);
            },
        };
        let mut insts: Vec<Inst> = Vec::new();
        core::mem::swap(&mut insts, &mut self.cur_insts);
        self.next_id = 0;
        let mut blocks: Vec<BasicBlock> = Vec::new();
        blocks.push(BasicBlock { insts, terminator: Some(t) });
        let f = IrFunction {
            name: function.name.clone(),
            return_type: function.return_type,
            blocks,
        };
        if !f.check_terminated() {
            return Err(CodegenError::Internal);
        }
        self.module.functions.push(f);
        Ok(())
    }

    /// Compiles a whole program: collects the header-directive paths for
    /// echoing, then compiles every function in source order. On error
    /// no partial module is left behind: the module is emptied.
    #[verifier::loop_isolation(false)]
    pub fn compile(&mut self, program: &Program) -> (r: Result<(), CodegenError>)
        requires
            old(self).cg_wf(),
        ensures
            final(self).cg_wf(),
            match r {
                Ok(p) => spec_compile_program(program.functions@, 0) matches Ok(qs)
                    && final(self).header_paths@ == header_paths(program.headers@, 0)
                    && final(self).module.functions@.len() == qs.len() && (forall|k: int|
                    0 <= k < qs.len() ==> {
                        let nf = #[trigger] final(self).module.functions@[k];
                        &&& nf.name@ == program.functions@[k].name@
                        &&& nf.return_type == program.functions@[k].return_type
                        &&& nf.blocks@.len() == 1
                        &&& nf.blocks@[0].insts@ == qs[k].0
                        &&& nf.blocks@[0].terminator == Some(qs[k].1)
                    }),
                Err(er) => spec_compile_program(program.functions@, 0) == Err::<
                    Seq<(Seq<Inst>, Terminator)>,
                    _,
                >(er) && final(self).module.functions@.len() == 0,
            },
    {
        self.header_paths = Vec::new();
        let name = String::from_str("main");
        self.module = IrModule { name, functions: Vec::new() };
        let mut k: usize = 0;
        while k < program.headers.len()
            invariant
                k <= program.headers@.len(),
                self.cg_wf(),
                self.module.functions@.len() == 0,
                header_paths(program.headers@, 0) == self.header_paths@ + header_paths(
                    program.headers@,
                    k as int,
                ),
            decreases program.headers@.len() - k,
        {
            let ghost prev = self.header_paths@;
            match &program.headers[k] {
                Statement::Header(p) => {
                    self.header_paths.push(p.clone());
                    proof {
                        match program.headers@[k as int] {
                            Statement::Header(pv) => {
                                assert(prev + (seq![pv] + header_paths(
                                    program.headers@,
                                    k as int + 1,
                                )) =~= self.header_paths@ + header_paths(
                                    program.headers@,
                                    k as int + 1,
                                ));
                            },
                            _ => {
                                assert(false);
                            },
                        }
                    }
                },
                _ => {},
            }
            k = k + 1;
        }
        proof {
            assert(self.header_paths@ + header_paths(
                program.headers@,
                program.headers@.len() as int,
            ) =~= self.header_paths@);
        }
        let mut i: usize = 0;
        let ghost mut gres: Seq<(Seq<Inst>, Terminator)> = seq![];
        while i < program.functions.len()
            invariant
                i <= program.functions@.len(),
                self.cg_wf(),
                self.header_paths@ == header_paths(program.headers@, 0),
                self.module.functions@.len() == i,
                gres.len() == i,
                spec_compile_program(program.functions@, 0) == (match spec_compile_program(
                    program.functions@,
                    i as int,
                ) {
                    Err(er) => Err(er),
                    Ok(rest) => Ok(gres + rest),
                }),
                forall|k: int|
                    0 <= k < i ==> {
                        let nf = #[trigger] self.module.functions@[k];
                        &&& nf.name@ == program.functions@[k].name@
                        &&& nf.return_type == program.functions@[k].return_type
                        &&& nf.blocks@.len() == 1
                        &&& nf.blocks@[0].insts@ == gres[k].0
                        &&& nf.blocks@[0].terminator == Some(gres[k].1)
                    },
            decreases program.functions@.len() - i,
        {
            match self.compile_function(&program.functions[i]) {
                Err(er) => {
                    self.module.functions = Vec::new();
                    self.next_id = 0;
                    return Err(er);
                },
                Ok(_) => {
                    proof {
                        let p = spec_compile_fn(
                            program.functions@[i as int].return_type,
                            program.functions@[i as int].body@,
                        )->Ok_0;
                        let old_gres = gres;
                        gres = gres.push(p);
                        assert(self.module.functions@[i as int] == self.module.functions@.last());
                        match spec_compile_program(program.functions@, i as int + 1) {
                            Err(_) => {},
                            Ok(rest) => {
                                assert(old_gres + (seq![p] + rest) =~= gres + rest);
                            },
                        }
                    }
                    i = i + 1;
                },
            }
        }
        proof {
            assert(gres + Seq::<(Seq<Inst>, Terminator)>::empty() =~= gres);
        }
        Ok(())
    }
}

} // verus!
