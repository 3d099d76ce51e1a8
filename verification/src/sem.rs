//! The mathematical semantics the compiler's laws are stated against:
//! exact rational values for float arithmetic, constant evaluation of
//! expressions, and constant evaluation of emitted instruction sequences.
//! The laws at the end tie the stages together: operator precedence,
//! int-to-float promotion, scoping of assignments, and the guaranteed
//! terminator of every compiled function.

use vstd::prelude::*;

use crate::ast::{pow10, Expr, FloatLit, Statement, Type};
use crate::codegen::{
    combine_tail, lookup_var, spec_compile_bin, spec_compile_body, spec_compile_expr,
    spec_compile_fn, spec_compile_print, spec_compile_scan, spec_compile_stmt, zero_inst, CgSt,
    CodegenError, VarSlot,
};
use crate::ir::{BinOp, Inst, Terminator};
use crate::lexer::Token;
use crate::parser::{spec_parse_expr, spec_parse_expr_rest, spec_parse_factor, spec_parse_program, spec_parse_term, spec_parse_term_rest, ParseError, StmtV};

verus! {

/// An exact rational number; well formed when `den > 0`.
pub ghost struct Rat {
    pub num: int,
    pub den: int,
}

/// Rational equality by cross-multiplication.
pub open spec fn rat_eq(a: Rat, b: Rat) -> bool {
    a.num * b.den == b.num * a.den
}

/// A constant value: an integer, or a float modeled as an exact rational.
pub ghost enum Val {
    VInt(int),
    VFloat(Rat),
}

/// The exact value a float literal denotes: `whole + frac / 10^frac_len`.
pub open spec fn float_lit_val(f: FloatLit) -> Rat {
    Rat {
        num: f.whole * pow10(f.frac_len as nat) + f.frac,
        den: pow10(f.frac_len as nat) as int,
    }
}

/// A value read as a rational, widening integers exactly.
pub open spec fn to_rat(v: Val) -> Rat {
    match v {
        Val::VInt(i) => Rat { num: i, den: 1 },
        Val::VFloat(r) => r,
    }
}

/// C-style truncating integer division (toward zero); the divisor must
/// not be zero.
pub open spec fn idiv_trunc(a: int, b: int) -> int {
    let q = abs(a) / abs(b);
    if (a < 0) != (b < 0) {
        -q
    } else {
        q
    }
}

/// Absolute value.
pub open spec fn abs(a: int) -> int {
    if a < 0 {
        -a
    } else {
        a
    }
}

pub open spec fn rat_add(a: Rat, b: Rat) -> Rat {
    Rat { num: a.num * b.den + b.num * a.den, den: a.den * b.den }
}

pub open spec fn rat_sub(a: Rat, b: Rat) -> Rat {
    Rat { num: a.num * b.den - b.num * a.den, den: a.den * b.den }
}

pub open spec fn rat_mul(a: Rat, b: Rat) -> Rat {
    Rat { num: a.num * b.num, den: a.den * b.den }
}

/// Rational division, keeping the denominator positive; `None` when the
/// divisor is zero.
pub open spec fn rat_div(a: Rat, b: Rat) -> Option<Rat> {
    if b.num == 0 {
        None
    } else {
        let n = a.num * b.den;
        let d = a.den * b.num;
        if d < 0 {
            Some(Rat { num: -n, den: -d })
        } else {
            Some(Rat { num: n, den: d })
        }
    }
}

/// Applies a binary operation to two constant values: integer arithmetic
/// when both sides are integers, exact rational arithmetic with promotion
/// otherwise. Division by zero has no constant value.
pub open spec fn apply_op(op: BinOp, va: Val, vb: Val) -> Option<Val> {
    match (va, vb) {
        (Val::VInt(a), Val::VInt(b)) => match op {
            BinOp::Add => Some(Val::VInt(a + b)),
            BinOp::Sub => Some(Val::VInt(a - b)),
            BinOp::Mul => Some(Val::VInt(a * b)),
            BinOp::Div => if b == 0 {
                None
            } else {
                Some(Val::VInt(idiv_trunc(a, b)))
            },
        },
        _ => {
            let ra = to_rat(va);
            let rb = to_rat(vb);
            match op {
                BinOp::Add => Some(Val::VFloat(rat_add(ra, rb))),
                BinOp::Sub => Some(Val::VFloat(rat_sub(ra, rb))),
                BinOp::Mul => Some(Val::VFloat(rat_mul(ra, rb))),
                BinOp::Div => match rat_div(ra, rb) {
                    Some(r) => Some(Val::VFloat(r)),
                    None => None,
                },
            }
        },
    }
}

/// Constant evaluation of an expression: literals and binary operations
/// only; variables and string literals have no constant value.
pub open spec fn spec_eval_expr(e: Expr) -> Option<Val>
    decreases e, 1int,
{
    match e {
        Expr::IntLiteral(v) => Some(Val::VInt(v as int)),
        Expr::FloatLiteral(f) => Some(Val::VFloat(float_lit_val(f))),
        Expr::Add(_, _) => spec_eval_bin(BinOp::Add, e),
        Expr::Sub(_, _) => spec_eval_bin(BinOp::Sub, e),
        Expr::Mul(_, _) => spec_eval_bin(BinOp::Mul, e),
        Expr::Div(_, _) => spec_eval_bin(BinOp::Div, e),
        _ => None,
    }
}

/// Constant evaluation of a binary-operation expression carrying `op`.
pub open spec fn spec_eval_bin(op: BinOp, e: Expr) -> Option<Val>
    decreases e, 0int,
{
    match e {
        Expr::Add(a, b) | Expr::Sub(a, b) | Expr::Mul(a, b) | Expr::Div(a, b) => match (
            spec_eval_expr(*a),
            spec_eval_expr(*b),
        ) {
            (Some(va), Some(vb)) => apply_op(op, va, vb),
            _ => None,
        },
        _ => None,
    }
}

/// Constant evaluation of one instruction over a register file mapping
/// value ids to constant values. Instructions that touch memory or the
/// outside world have no constant evaluation.
pub open spec fn eval_inst(i: Inst, regs: Map<int, Val>) -> Option<Map<int, Val>> {
    match i {
        Inst::ConstInt { dest, value } => Some(regs.insert(dest as int, Val::VInt(value as int))),
        Inst::ConstFloat { dest, value } => Some(
            regs.insert(dest as int, Val::VFloat(float_lit_val(value))),
        ),
        Inst::IntToFloat { dest, src } => if regs.contains_key(src as int) {
            match regs[src as int] {
                Val::VInt(v) => Some(regs.insert(dest as int, Val::VFloat(Rat { num: v, den: 1 }))),
                _ => None,
            }
        } else {
            None
        },
        Inst::FloatToInt { dest, src } => if regs.contains_key(src as int) {
            match regs[src as int] {
                Val::VFloat(r) => if r.den != 0 {
                    Some(regs.insert(dest as int, Val::VInt(idiv_trunc(r.num, r.den))))
                } else {
                    None
                },
                _ => None,
            }
        } else {
            None
        },
        Inst::Bin { dest, op, ty: _, lhs, rhs } => if regs.contains_key(lhs as int)
            && regs.contains_key(rhs as int) {
            match apply_op(op, regs[lhs as int], regs[rhs as int]) {
                Some(v) => Some(regs.insert(dest as int, v)),
                None => None,
            }
        } else {
            None
        },
        _ => None,
    }
}

/// Constant evaluation of an instruction sequence from index `k` on.
pub open spec fn eval_insts(insts: Seq<Inst>, k: int, regs: Map<int, Val>) -> Option<Map<int, Val>>
    decreases insts.len() - k,
{
    if k < 0 || k >= insts.len() {
        Some(regs)
    } else {
        match eval_inst(insts[k], regs) {
            Some(regs2) => eval_insts(insts, k + 1, regs2),
            None => None,
        }
    }
}

/// Whether any statement of `body`, from index `k` on, is a `return`.
pub open spec fn has_return(body: Seq<Statement>, k: int) -> bool
    decreases body.len() - k,
{
    if k < 0 || k >= body.len() {
        false
    } else {
        (body[k] matches Statement::Return(_)) || has_return(body, k + 1)
    }
}

// ---------------------------------------------------------------------------
// Laws
// ---------------------------------------------------------------------------

/// Scoping: assigning to a name with no prior declaration in the same
/// function always fails with an unknown-variable error for that very
/// name; it never creates a binding.
pub proof fn lemma_assign_unknown(name: String, e: Expr, ret: Type, st: CgSt)
    requires
        lookup_var(st.vars, name@) is None,
        st.term is None,
    ensures
        spec_compile_stmt(Statement::Assign(name, e), ret, st) == Err::<CgSt, _>(
            CodegenError::UnknownVariable(name),
        ),
{
}

/// Precedence: `2 + 3 * 4` parses as `2 + (3 * 4)` and its constant
/// value is 14, never 20.
pub proof fn lemma_precedence(toks: Seq<Token>)
    requires
        toks == seq![
            Token::IntLiteral(2),
            Token::Plus,
            Token::IntLiteral(3),
            Token::Star,
            Token::IntLiteral(4),
        ],
    ensures
        spec_parse_expr(toks, 0) matches Ok(p) && p.0 == Expr::Add(
            Box::new(Expr::IntLiteral(2)),
            Box::new(Expr::Mul(Box::new(Expr::IntLiteral(3)), Box::new(Expr::IntLiteral(4)))),
        ) && p.1 == 5,
        spec_parse_expr(toks, 0) matches Ok(p) && spec_eval_expr(p.0) == Some(Val::VInt(14)),
{
    reveal_with_fuel(crate::parser::spec_parse_expr, 2);
    reveal_with_fuel(crate::parser::spec_parse_term, 3);
    reveal_with_fuel(crate::parser::spec_parse_factor, 4);
    reveal_with_fuel(crate::parser::spec_parse_expr_rest, 3);
    reveal_with_fuel(crate::parser::spec_parse_term_rest, 4);
    reveal_with_fuel(spec_eval_expr, 4);
    reveal_with_fuel(spec_eval_bin, 3);
    assert(spec_parse_factor(toks, 0) == Ok::<(Expr, int), ParseError>((Expr::IntLiteral(2), 1)));
    assert(spec_parse_term(toks, 0) == Ok::<(Expr, int), ParseError>((Expr::IntLiteral(2), 1)));
    assert(spec_parse_factor(toks, 2) == Ok::<(Expr, int), ParseError>((Expr::IntLiteral(3), 3)));
    assert(spec_parse_factor(toks, 4) == Ok::<(Expr, int), ParseError>((Expr::IntLiteral(4), 5)));
    let m = Expr::Mul(Box::new(Expr::IntLiteral(3)), Box::new(Expr::IntLiteral(4)));
    assert(spec_parse_term_rest(toks, Expr::IntLiteral(3), 3) == Ok::<(Expr, int), ParseError>((m, 5)));
    assert(spec_parse_term(toks, 2) == Ok::<(Expr, int), ParseError>((m, 5)));
    let a = Expr::Add(Box::new(Expr::IntLiteral(2)), Box::new(m));
    assert(spec_parse_expr_rest(toks, Expr::IntLiteral(2), 1) == Ok::<(Expr, int), ParseError>((a, 5)));
    assert(spec_parse_expr(toks, 0) == Ok::<(Expr, int), ParseError>((a, 5)));
    assert(spec_eval_expr(m) == Some(Val::VInt(12)));
    assert(spec_eval_expr(a) == Some(Val::VInt(14)));
}

/// Type promotion: compiling `1 + 2.5` yields a float-typed result whose
/// constant evaluation is exactly 3.5.
pub proof fn lemma_type_promotion(vars: Seq<VarSlot>)
    ensures
        ({
            let e = Expr::Add(
                Box::new(Expr::IntLiteral(1)),
                Box::new(Expr::FloatLiteral(FloatLit { whole: 2, frac: 5, frac_len: 1 })),
            );
            &&& spec_compile_expr(e, vars, 0) matches Ok(q) && q.3 == Type::Float
            &&& spec_eval_expr(e) matches Some(v) && (v matches Val::VFloat(r) && rat_eq(
                r,
                Rat { num: 7, den: 2 },
            ))
            &&& spec_compile_expr(e, vars, 0) matches Ok(q) && (eval_insts(
                q.0,
                0,
                Map::empty(),
            ) matches Some(rg) && rg.contains_key(q.2) && (rg[q.2] matches Val::VFloat(r2)
                && rat_eq(r2, Rat { num: 7, den: 2 })))
        }),
{
    let lit = FloatLit { whole: 2, frac: 5, frac_len: 1 };
    let e = Expr::Add(Box::new(Expr::IntLiteral(1)), Box::new(Expr::FloatLiteral(lit)));
    reveal_with_fuel(pow10, 3);
    reveal_with_fuel(spec_compile_expr, 3);
    reveal_with_fuel(crate::codegen::spec_compile_bin, 2);
    reveal_with_fuel(spec_eval_expr, 3);
    reveal_with_fuel(spec_eval_bin, 2);
    assert(pow10(lit.frac_len as nat) == 10);
    assert(float_lit_val(lit) == Rat { num: 25, den: 10 });
    let q = spec_compile_expr(e, vars, 0)->Ok_0;
    assert(q.0 =~= seq![
        (Inst::ConstInt { dest: 0, value: 1 }),
        (Inst::ConstFloat { dest: 1, value: lit }),
        (Inst::IntToFloat { dest: 2, src: 0 }),
        (Inst::Bin { dest: 3, op: BinOp::Add, ty: Type::Float, lhs: 2, rhs: 1 }),
    ]);
    let m0 = Map::<int, Val>::empty();
    let m1 = m0.insert(0, Val::VInt(1));
    let m2 = m1.insert(1, Val::VFloat(Rat { num: 25, den: 10 }));
    let m3 = m2.insert(2, Val::VFloat(Rat { num: 1, den: 1 }));
    let m4 = m3.insert(3, Val::VFloat(rat_add(Rat { num: 1, den: 1 }, Rat { num: 25, den: 10 })));
    assert(eval_inst(q.0[0], m0) == Some(m1));
    assert(eval_inst(q.0[1], m1) == Some(m2));
    assert(eval_inst(q.0[2], m2) == Some(m3));
    assert(apply_op(BinOp::Add, m3[2], m3[1]) == Some(
        Val::VFloat(rat_add(Rat { num: 1, den: 1 }, Rat { num: 25, den: 10 })),
    ));
    assert(eval_inst(q.0[3], m3) == Some(m4));
    reveal_with_fuel(eval_insts, 6);
    assert(eval_insts(q.0, 4, m4) == Some(m4));
    assert(eval_insts(q.0, 3, m3) == Some(m4));
    assert(eval_insts(q.0, 2, m2) == Some(m4));
    assert(eval_insts(q.0, 1, m1) == Some(m4));
    assert(eval_insts(q.0, 0, m0) == Some(m4));
    assert(rat_add(Rat { num: 1, den: 1 }, Rat { num: 25, den: 10 }) == Rat { num: 35, den: 10 })
        by {
        assert(1int * 10 == 10) by (nonlinear_arith);
        assert(25int * 1 == 25) by (nonlinear_arith);
    }
    assert(rat_eq(Rat { num: 35, den: 10 }, Rat { num: 7, den: 2 })) by {
        assert(35int * 2 == 70) by (nonlinear_arith);
        assert(7int * 10 == 70) by (nonlinear_arith);
    }
}

/// Compiling the arguments of a `printf` never terminates the block.
proof fn lemma_print_keeps_term(args: Seq<Expr>, k: int, st: CgSt)
    ensures
        spec_compile_print(args, k, st) matches Ok(st2) ==> st2.term == st.term,
    decreases args.len() - k,
{
    if 0 <= k < args.len() {
        match args[k] {
            Expr::StringLiteral(s) => {
                lemma_print_keeps_term(
                    args,
                    k + 1,
                    CgSt { insts: st.insts.push(Inst::PrintStr { text: s }), ..st },
                );
            },
            Expr::Variable(n) => {
                match lookup_var(st.vars, n@) {
                    None => {},
                    Some(vs) => {
                        let load = Inst::Load { dest: st.next as usize, ty: vs.ty, slot: vs.slot };
                        let pr = if (vs.ty matches Type::Int) {
                            Inst::PrintInt { src: st.next as usize }
                        } else {
                            Inst::PrintFloat { src: st.next as usize }
                        };
                        lemma_print_keeps_term(
                            args,
                            k + 1,
                            CgSt { next: st.next + 1, insts: st.insts + seq![load, pr], ..st },
                        );
                    },
                }
            },
            _ => {},
        }
    }
}

/// Compiling the arguments of a `scanf` never terminates the block.
proof fn lemma_scan_keeps_term(args: Seq<Expr>, k: int, st: CgSt)
    ensures
        spec_compile_scan(args, k, st) matches Ok(st2) ==> st2.term == st.term,
    decreases args.len() - k,
{
    if 0 <= k < args.len() {
        match args[k] {
            Expr::Variable(n) => {
                match lookup_var(st.vars, n@) {
                    None => {},
                    Some(vs) => {
                        let rd = if (vs.ty matches Type::Int) {
                            Inst::ReadInt { dest: st.next as usize }
                        } else {
                            Inst::ReadFloat { dest: st.next as usize }
                        };
                        let store = Inst::Store { slot: vs.slot, src: st.next as usize };
                        lemma_scan_keeps_term(
                            args,
                            k + 1,
                            CgSt { next: st.next + 1, insts: st.insts + seq![rd, store], ..st },
                        );
                    },
                }
            },
            _ => {},
        }
    }
}

/// A body with no `return` statement leaves the block unterminated.
proof fn lemma_body_no_return(body: Seq<Statement>, k: int, ret: Type, st: CgSt)
    requires
        !has_return(body, k),
        st.term is None,
    ensures
        spec_compile_body(body, k, ret, st) matches Ok(st2) ==> st2.term is None,
    decreases body.len() - k,
{
    if 0 <= k < body.len() {
        match spec_compile_stmt(body[k], ret, st) {
            Err(_) => {},
            Ok(st2) => {
                match body[k] {
                    Statement::Print(args) => {
                        lemma_print_keeps_term(args@, 0, st);
                    },
                    Statement::Scan(args) => {
                        lemma_scan_keeps_term(args@, 0, st);
                    },
                    _ => {},
                }
                assert(st2.term is None);
                lemma_body_no_return(body, k + 1, ret, st2);
            },
        }
    }
}

/// Termination: every function the generator completes has exactly one
/// terminator — by construction, `spec_compile_fn` yields exactly one
/// `Terminator` — and a body with no `return` statement still ends in a
/// return of the zero value of the declared type, as the last emitted
/// instruction.
pub proof fn lemma_implicit_zero_return(ret: Type, body: Seq<Statement>)
    requires
        !has_return(body, 0),
        spec_compile_fn(ret, body) matches Ok(q),
    ensures
        spec_compile_fn(ret, body) matches Ok(q) && q.0.len() >= 1 && (q.1 matches
            Terminator::Ret { value: v } && q.0.last() == zero_inst(ret, v as int)),
{
    let st0 = CgSt { vars: seq![], next: 0, insts: seq![], term: None };
    lemma_body_no_return(body, 0, ret, st0);
}

/// The minimal program: the token stream of `int main() { return 0; }`
/// parses to exactly one function named `main`, returning `int`, whose
/// body is the single statement `return 0`.
pub proof fn lemma_minimal_program(toks: Seq<Token>, name: String)
    requires
        name@ == "main"@,
        toks == seq![
            Token::Int,
            Token::Identifier(name),
            Token::OParen,
            Token::CParen,
            Token::OBrace,
            Token::Return,
            Token::IntLiteral(0),
            Token::Semicolon,
            Token::CBrace,
        ],
    ensures
        spec_parse_program(toks) matches Ok(p) && p.headers.len() == 0 && p.functions.len() == 1
            && p.functions[0].name@ == "main"@ && p.functions[0].ret == Type::Int
            && p.functions[0].body.len() == 1 && (p.functions[0].body[0] matches StmtV::Return(
            Expr::IntLiteral(0),
        )),
{
    reveal_with_fuel(crate::parser::spec_parse_headers, 2);
    reveal_with_fuel(crate::parser::spec_parse_functions, 3);
    reveal_with_fuel(crate::parser::spec_parse_body, 3);
    reveal_with_fuel(crate::parser::spec_parse_expr_rest, 2);
    reveal_with_fuel(crate::parser::spec_parse_term_rest, 2);
}


// ---------------------------------------------------------------------------
// Correctness of compiled constant expressions
// ---------------------------------------------------------------------------

/// An expression built from literals and binary operations alone.
pub open spec fn is_const_expr(e: Expr) -> bool
    decreases e,
{
    match e {
        Expr::IntLiteral(_) => true,
        Expr::FloatLiteral(_) => true,
        Expr::Add(a, b) | Expr::Sub(a, b) | Expr::Mul(a, b) | Expr::Div(a, b) => is_const_expr(*a)
            && is_const_expr(*b),
        _ => false,
    }
}

/// An upper bound on the value ids one expression consumes: at most two
/// per node.
pub open spec fn expr_size(e: Expr) -> nat
    decreases e,
{
    match e {
        Expr::Add(a, b) | Expr::Sub(a, b) | Expr::Mul(a, b) | Expr::Div(a, b) => expr_size(*a)
            + expr_size(*b) + 2,
        _ => 1,
    }
}

/// A constant value has the kind of its static type.
pub open spec fn val_kind_matches(ty: Type, v: Val) -> bool {
    match (ty, v) {
        (Type::Int, Val::VInt(_)) => true,
        (Type::Float, Val::VFloat(_)) => true,
        _ => false,
    }
}

/// Every binding of `old` survives unchanged into `new`.
pub open spec fn preserves(old: Map<int, Val>, new: Map<int, Val>) -> bool {
    forall|j: int| #[trigger] old.contains_key(j) ==> new.contains_key(j) && new[j] == old[j]
}

/// `new` adds bindings only in the id range `[lo, hi)`.
pub open spec fn confined(old: Map<int, Val>, new: Map<int, Val>, lo: int, hi: int) -> bool {
    forall|j: int| #[trigger] new.contains_key(j) ==> old.contains_key(j) || (lo <= j < hi)
}

/// What it means for compiled code to be correct for a constant
/// expression: compilation succeeds; the result id is fresh; and running
/// the emitted instructions from any register file confined below `next`
/// computes exactly the expression's constant value (or fails exactly
/// when the expression divides by zero), touching only fresh ids.
pub open spec fn const_correct(
    r: Result<(Seq<Inst>, int, int, Type), CodegenError>,
    ev: Option<Val>,
    next: int,
    regs: Map<int, Val>,
    size: nat,
) -> bool {
    r matches Ok(q) && {
        &&& next <= q.2 < q.1 <= next + size
        &&& match ev {
            Some(v) => val_kind_matches(q.3, v) && (eval_insts(q.0, 0, regs) matches Some(rg)
                && rg.contains_key(q.2) && rg[q.2] == v && preserves(regs, rg) && confined(
                regs,
                rg,
                next,
                q.1,
            )),
            None => eval_insts(q.0, 0, regs) is None,
        }
    }
}

/// Shifting evaluation past a prefix of the instruction sequence.
proof fn lemma_eval_shift(a: Seq<Inst>, b: Seq<Inst>, j: int, regs: Map<int, Val>)
    requires
        0 <= j,
    ensures
        eval_insts(a + b, a.len() + j, regs) == eval_insts(b, j, regs),
    decreases b.len() - j,
{
    if j < b.len() {
        assert((a + b)[a.len() + j] == b[j]);
        match eval_inst(b[j], regs) {
            Some(r2) => {
                lemma_eval_shift(a, b, j + 1, r2);
            },
            None => {},
        }
    }
}

/// Evaluation distributes over concatenation of instruction sequences.
proof fn lemma_eval_append(a: Seq<Inst>, b: Seq<Inst>, k: int, regs: Map<int, Val>)
    requires
        0 <= k <= a.len(),
    ensures
        eval_insts(a + b, k, regs) == (match eval_insts(a, k, regs) {
            Some(r) => eval_insts(b, 0, r),
            None => None,
        }),
    decreases a.len() - k,
{
    if k < a.len() {
        assert((a + b)[k] == a[k]);
        match eval_inst(a[k], regs) {
            Some(r2) => {
                lemma_eval_append(a, b, k + 1, r2);
            },
            None => {},
        }
    } else {
        lemma_eval_shift(a, b, 0, regs);
    }
}

/// The main theorem for constant expressions: the code the generator
/// emits computes exactly the value the expression denotes.
pub proof fn lemma_const_expr_correct(
    e: Expr,
    vars: Seq<VarSlot>,
    next: int,
    regs: Map<int, Val>,
)
    requires
        is_const_expr(e),
        0 <= next,
        next + expr_size(e) <= usize::MAX,
        forall|j: int| regs.contains_key(j) ==> j < next,
    ensures
        const_correct(
            spec_compile_expr(e, vars, next),
            spec_eval_expr(e),
            next,
            regs,
            expr_size(e),
        ),
    decreases e, 1int,
{
    reveal_with_fuel(eval_insts, 4);
    match e {
        Expr::IntLiteral(v) => {
            let q = spec_compile_expr(e, vars, next)->Ok_0;
            let rg = regs.insert(next, Val::VInt(v as int));
            assert(eval_inst(q.0[0], regs) == Some(rg));
            assert(eval_insts(q.0, 0, regs) == Some(rg));
        },
        Expr::FloatLiteral(f) => {
            let q = spec_compile_expr(e, vars, next)->Ok_0;
            let rg = regs.insert(next, Val::VFloat(float_lit_val(f)));
            assert(eval_inst(q.0[0], regs) == Some(rg));
            assert(eval_insts(q.0, 0, regs) == Some(rg));
        },
        Expr::Add(_, _) => {
            lemma_const_bin_correct(BinOp::Add, e, vars, next, regs);
        },
        Expr::Sub(_, _) => {
            lemma_const_bin_correct(BinOp::Sub, e, vars, next, regs);
        },
        Expr::Mul(_, _) => {
            lemma_const_bin_correct(BinOp::Mul, e, vars, next, regs);
        },
        Expr::Div(_, _) => {
            lemma_const_bin_correct(BinOp::Div, e, vars, next, regs);
        },
        _ => {},
    }
}

/// The binary-operation case of the constant-expression theorem.
#[verifier::rlimit(100)]
proof fn lemma_const_bin_correct(
    op: BinOp,
    e: Expr,
    vars: Seq<VarSlot>,
    next: int,
    regs: Map<int, Val>,
)
    requires
        is_const_expr(e),
        e matches Expr::Add(_, _) || e matches Expr::Sub(_, _) || e matches Expr::Mul(_, _)
            || e matches Expr::Div(_, _),
        0 <= next,
        next + expr_size(e) <= usize::MAX,
        forall|j: int| regs.contains_key(j) ==> j < next,
    ensures
        const_correct(
            spec_compile_bin(op, e, vars, next),
            spec_eval_bin(op, e),
            next,
            regs,
            expr_size(e),
        ),
    decreases e, 0int,
{
    reveal_with_fuel(eval_insts, 4);
    match e {
        Expr::Add(ba, bb) | Expr::Sub(ba, bb) | Expr::Mul(ba, bb) | Expr::Div(ba, bb) => {
            let a = *ba;
            let b = *bb;
            lemma_const_expr_correct(a, vars, next, regs);
            let ra = spec_compile_expr(a, vars, next)->Ok_0;
            lemma_const_expr_correct(b, vars, ra.1, regs);
            let rb = spec_compile_expr(b, vars, ra.1)->Ok_0;
            let c = combine_tail(op, ra.2, ra.3, rb.1, rb.2, rb.3);
            let n2 = rb.1;
            let whole = ra.0 + rb.0 + c.0;
            assert(whole =~= ra.0 + (rb.0 + c.0));
            lemma_eval_append(ra.0, rb.0 + c.0, 0, regs);
            match spec_eval_expr(a) {
                None => {
                    assert(eval_insts(whole, 0, regs) is None);
                },
                Some(va) => {
                    let r1 = eval_insts(ra.0, 0, regs)->Some_0;
                    lemma_const_expr_correct(b, vars, ra.1, r1);
                    lemma_eval_append(rb.0, c.0, 0, r1);
                    match spec_eval_expr(b) {
                        None => {
                            assert(eval_insts(whole, 0, regs) is None);
                        },
                        Some(vb) => {
                            let r2 = eval_insts(rb.0, 0, r1)->Some_0;
                            assert(r1.contains_key(ra.2) && r1[ra.2] == va);
                            assert(r2.contains_key(ra.2) && r2[ra.2] == va);
                            assert(r2.contains_key(rb.2) && r2[rb.2] == vb);
                            let promote_a = (ra.3 matches Type::Int) && (rb.3 matches Type::Float);
                            let promote_b = (rb.3 matches Type::Int) && (ra.3 matches Type::Float);
                            let rg3 = if promote_a {
                                r2.insert(n2, Val::VFloat(Rat { num: va->VInt_0, den: 1 }))
                            } else if promote_b {
                                r2.insert(n2, Val::VFloat(Rat { num: vb->VInt_0, den: 1 }))
                            } else {
                                r2
                            };
                            let bin_at = if promote_a || promote_b {
                                1int
                            } else {
                                0int
                            };
                            let bin_dest = if promote_a || promote_b {
                                n2 + 1
                            } else {
                                n2
                            };
                            if promote_a {
                                assert(eval_inst(c.0[0], r2) == Some(rg3));
                                assert(to_rat(Val::VFloat(Rat { num: va->VInt_0, den: 1 }))
                                    == to_rat(va));
                                assert(apply_op(op, rg3[n2], vb) == apply_op(op, va, vb));
                            } else if promote_b {
                                assert(eval_inst(c.0[0], r2) == Some(rg3));
                                assert(to_rat(Val::VFloat(Rat { num: vb->VInt_0, den: 1 }))
                                    == to_rat(vb));
                                assert(apply_op(op, va, rg3[n2]) == apply_op(op, va, vb));
                            }
                            assert(preserves(regs, r1) && confined(regs, r1, next, ra.1));
                            assert(preserves(r1, r2) && confined(r1, r2, ra.1, n2));
                            assert(preserves(regs, r2)) by {
                                assert forall|j: int| regs.contains_key(j) implies
                                    #[trigger] r2.contains_key(j) && r2[j] == regs[j] by {
                                    assert(r1.contains_key(j) && r1[j] == regs[j]);
                                }
                            }
                            assert(confined(regs, r2, next, n2)) by {
                                assert forall|j: int| #[trigger] r2.contains_key(j) implies
                                    regs.contains_key(j) || (next <= j < n2) by {
                                    if !r1.contains_key(j) {
                                        assert(ra.1 <= j < n2);
                                    }
                                }
                            }
                            match apply_op(op, va, vb) {
                                Some(v) => {
                                    let rg = rg3.insert(bin_dest, v);
                                    assert(eval_inst(c.0[bin_at], rg3) == Some(rg));
                                    assert(eval_insts(c.0, 0, r2) == Some(rg));
                                    assert(eval_insts(whole, 0, regs) == Some(rg));
                                    assert(rg.contains_key(c.2) && rg[c.2] == v);
                                    assert(val_kind_matches(c.3, v));
                                    assert(preserves(regs, rg)) by {
                                        assert forall|j: int| regs.contains_key(j) implies
                                            #[trigger] rg.contains_key(j) && rg[j] == regs[j] by {
                                            assert(r2.contains_key(j) && r2[j] == regs[j]);
                                            assert(j < next);
                                        }
                                    }
                                    assert(confined(regs, rg, next, c.1)) by {
                                        assert forall|j: int| #[trigger] rg.contains_key(j)
                                            implies regs.contains_key(j) || (next <= j < c.1) by {
                                            if j != bin_dest && rg3.contains_key(j) && j != n2
                                                && r2.contains_key(j) && !regs.contains_key(j) {
                                                assert(next <= j < n2);
                                            }
                                        }
                                    }
                                },
                                None => {
                                    assert(eval_inst(c.0[bin_at], rg3) is None);
                                    assert(eval_insts(c.0, 0, r2) is None);
                                    assert(eval_insts(whole, 0, regs) is None);
                                },
                            }
                        },
                    }
                },
            }
        },
        _ => {},
    }
}

/// Precedence reaches the generated code: the instructions compiled for
/// `2 + 3 * 4` evaluate to 14, never 20.
pub proof fn lemma_precedence_generated_code(vars: Seq<VarSlot>)
    ensures
        ({
            let e = Expr::Add(
                Box::new(Expr::IntLiteral(2)),
                Box::new(Expr::Mul(Box::new(Expr::IntLiteral(3)), Box::new(Expr::IntLiteral(4)))),
            );
            spec_compile_expr(e, vars, 0) matches Ok(q) && (eval_insts(
                q.0,
                0,
                Map::empty(),
            ) matches Some(rg) && rg.contains_key(q.2) && rg[q.2] == Val::VInt(14))
        }),
{
    let e = Expr::Add(
        Box::new(Expr::IntLiteral(2)),
        Box::new(Expr::Mul(Box::new(Expr::IntLiteral(3)), Box::new(Expr::IntLiteral(4)))),
    );
    reveal_with_fuel(spec_eval_expr, 4);
    reveal_with_fuel(spec_eval_bin, 3);
    reveal_with_fuel(is_const_expr, 3);
    reveal_with_fuel(expr_size, 3);
    assert(is_const_expr(e));
    assert(expr_size(e) == 7);
    assert(spec_eval_expr(e) == Some(Val::VInt(14)));
    lemma_const_expr_correct(e, vars, 0, Map::empty());
}

} // verus!
