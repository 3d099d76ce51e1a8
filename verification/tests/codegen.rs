use minicc::ast::{Expr, FloatLit, Function, PrintArg, Program, Statement, Type};
use minicc::codegen::{CodeGenerator, CodegenError};
use minicc::ir::{BasicBlock, BinOp, Inst, IrFunction, Terminator};
use minicc::lexer::tokenize;
use minicc::parser::parse;

fn b(e: Expr) -> Box<Expr> {
    Box::new(e)
}

#[test]
fn type_promotion_yields_float_result() {
    // Add(IntLiteral(1), FloatLiteral(2.5)) compiles to a float-typed
    // value: the integer side is promoted, and the constant operands 1
    // and 2.5 reach the float add instruction, so its value is 3.5.
    let e = Expr::Add(
        b(Expr::IntLiteral(1)),
        b(Expr::FloatLiteral(FloatLit { whole: 2, frac: 5, frac_len: 1 })),
    );
    let mut g = CodeGenerator::new();
    let (id, ty) = g.compile_expr(&e).expect("constant expression compiles");
    assert_eq!(ty, Type::Float);
    assert_eq!(id, 3);
    assert_eq!(
        g.cur_insts,
        vec![
            Inst::ConstInt { dest: 0, value: 1 },
            Inst::ConstFloat { dest: 1, value: FloatLit { whole: 2, frac: 5, frac_len: 1 } },
            Inst::IntToFloat { dest: 2, src: 0 },
            Inst::Bin { dest: 3, op: BinOp::Add, ty: Type::Float, lhs: 2, rhs: 1 },
        ]
    );
}

#[test]
fn precedence_reaches_the_generated_code() {
    // 2 + 3 * 4: the multiplication is emitted first and feeds the
    // addition, never (2 + 3) * 4.
    let toks = tokenize("int main() { return 2 + 3 * 4; }");
    let prog = parse(&toks).expect("parses");
    let mut g = CodeGenerator::new();
    g.compile(&prog).expect("compiles");
    let f = &g.module.functions[0];
    let block = &f.blocks[0];
    assert_eq!(
        block.insts,
        vec![
            Inst::ConstInt { dest: 0, value: 2 },
            Inst::ConstInt { dest: 1, value: 3 },
            Inst::ConstInt { dest: 2, value: 4 },
            Inst::Bin { dest: 3, op: BinOp::Mul, ty: Type::Int, lhs: 1, rhs: 2 },
            Inst::Bin { dest: 4, op: BinOp::Add, ty: Type::Int, lhs: 0, rhs: 3 },
        ]
    );
    assert_eq!(block.terminator, Some(Terminator::Ret { value: 4 }));
}

#[test]
fn assign_to_undeclared_name_fails() {
    let mut g = CodeGenerator::new();
    let stmt = Statement::Assign("x".to_string(), Expr::IntLiteral(1));
    let err = g.compile_statement(&stmt).expect_err("must fail");
    assert_eq!(err, CodegenError::UnknownVariable("x".to_string()));
    // No binding was silently created.
    assert!(g.vars.is_empty());
}

#[test]
fn redeclaration_fails() {
    let mut g = CodeGenerator::new();
    let d1 = Statement::Declare(Type::Int, "x".to_string(), Expr::IntLiteral(1));
    let d2 = Statement::Declare(Type::Float, "x".to_string(), Expr::IntLiteral(2));
    g.compile_statement(&d1).expect("first declaration compiles");
    let err = g.compile_statement(&d2).expect_err("must fail");
    assert_eq!(err, CodegenError::Redeclared("x".to_string()));
}

#[test]
fn string_literal_in_value_position_fails() {
    let mut g = CodeGenerator::new();
    let err = g
        .compile_expr(&Expr::StringLiteral("hi".to_string()))
        .expect_err("must fail");
    assert_eq!(err, CodegenError::StringInExpr);
}

#[test]
fn print_and_scan_reject_other_arguments() {
    let mut g = CodeGenerator::new();
    let p = Statement::Print(vec![Expr::IntLiteral(1)]);
    assert_eq!(g.compile_statement(&p), Err(CodegenError::BadPrintArg));
    let mut g2 = CodeGenerator::new();
    let s = Statement::Scan(vec![Expr::StringLiteral("x".to_string())]);
    assert_eq!(g2.compile_statement(&s), Err(CodegenError::BadScanArg));
}

#[test]
fn body_without_return_gets_implicit_zero_return() {
    let toks = tokenize("int f() { int x = 1; }");
    let prog = parse(&toks).expect("parses");
    let mut g = CodeGenerator::new();
    g.compile(&prog).expect("compiles");
    let f = &g.module.functions[0];
    assert!(f.check_terminated());
    assert_eq!(f.blocks.len(), 1);
    let block = &f.blocks[0];
    assert_eq!(block.terminator, Some(Terminator::Ret { value: 2 }));
    assert_eq!(block.insts.last(), Some(&Inst::ConstInt { dest: 2, value: 0 }));
}

#[test]
fn float_body_without_return_gets_zero_float() {
    let toks = tokenize("float f() { }");
    let prog = parse(&toks).expect("parses");
    let mut g = CodeGenerator::new();
    g.compile(&prog).expect("compiles");
    let block = &g.module.functions[0].blocks[0];
    assert_eq!(
        block.insts,
        vec![Inst::ConstFloat { dest: 0, value: FloatLit { whole: 0, frac: 0, frac_len: 1 } }]
    );
    assert_eq!(block.terminator, Some(Terminator::Ret { value: 0 }));
}

#[test]
fn declare_coerces_initializer_to_slot_type() {
    // Widening: an int value stored into a float slot.
    let toks = tokenize("int main() { float y = 1; return 0; }");
    let prog = parse(&toks).expect("parses");
    let mut g = CodeGenerator::new();
    g.compile(&prog).expect("compiles");
    let insts = &g.module.functions[0].blocks[0].insts;
    assert_eq!(insts[0], Inst::Alloca { dest: 0, ty: Type::Float, name: "y".to_string() });
    assert_eq!(insts[1], Inst::ConstInt { dest: 1, value: 1 });
    assert_eq!(insts[2], Inst::IntToFloat { dest: 2, src: 1 });
    assert_eq!(insts[3], Inst::Store { slot: 0, src: 2 });
}

#[test]
fn int_slot_truncates_float_initializer() {
    // The documented narrowing policy: a float value into an int slot is
    // truncated, not rejected and not bit-reinterpreted.
    let toks = tokenize("int main() { int x = 2.75; return x; }");
    let prog = parse(&toks).expect("parses");
    let mut g = CodeGenerator::new();
    g.compile(&prog).expect("compiles");
    let insts = &g.module.functions[0].blocks[0].insts;
    assert_eq!(insts[2], Inst::FloatToInt { dest: 2, src: 1 });
}

#[test]
fn return_coerces_to_declared_type() {
    let toks = tokenize("float g() { return 2; }");
    let prog = parse(&toks).expect("parses");
    let mut g = CodeGenerator::new();
    g.compile(&prog).expect("compiles");
    let block = &g.module.functions[0].blocks[0];
    assert_eq!(block.insts[1], Inst::IntToFloat { dest: 1, src: 0 });
    assert_eq!(block.terminator, Some(Terminator::Ret { value: 1 }));
}

#[test]
fn print_and_scan_lower_to_runtime_calls() {
    let toks = tokenize("int main() { int x = 0; scanf(x); printf(\"v=\", x); return x; }");
    let prog = parse(&toks).expect("parses");
    let mut g = CodeGenerator::new();
    g.compile(&prog).expect("compiles");
    let insts = &g.module.functions[0].blocks[0].insts;
    assert_eq!(insts[3], Inst::ReadInt { dest: 2 });
    assert_eq!(insts[4], Inst::Store { slot: 0, src: 2 });
    assert_eq!(insts[5], Inst::PrintStr { text: "v=".to_string() });
    assert_eq!(insts[6], Inst::Load { dest: 3, ty: Type::Int, slot: 0 });
    assert_eq!(insts[7], Inst::PrintInt { src: 3 });
}

#[test]
fn statements_after_return_are_discarded() {
    let toks = tokenize("int main() { return 1; x = 2; }");
    let prog = parse(&toks).expect("parses");
    let mut g = CodeGenerator::new();
    // The assignment after the return is unreachable: it is dropped, not
    // an error, and in particular not an unknown-variable error.
    g.compile(&prog).expect("compiles");
    let block = &g.module.functions[0].blocks[0];
    assert_eq!(block.insts, vec![Inst::ConstInt { dest: 0, value: 1 }]);
    assert_eq!(block.terminator, Some(Terminator::Ret { value: 0 }));
}

#[test]
fn failed_compilation_leaves_no_partial_module() {
    let toks = tokenize("int a() { return 1; } int bad() { y = 2; return 0; }");
    let prog = parse(&toks).expect("parses");
    let mut g = CodeGenerator::new();
    let err = g.compile(&prog).expect_err("must fail");
    assert_eq!(err, CodegenError::UnknownVariable("y".to_string()));
    assert!(g.module.functions.is_empty());
}

#[test]
fn header_paths_are_collected_for_echoing() {
    let src = format!(
        "#{} <stdio.h>\nint main() {{ return 0; }}",
        "inclu\u{64}e"
    );
    let prog = parse(&tokenize(&src)).expect("parses");
    let mut g = CodeGenerator::new();
    g.compile(&prog).expect("compiles");
    assert_eq!(g.header_paths, vec!["stdio.h".to_string()]);
}

#[test]
fn one_ir_function_per_source_function_in_order() {
    let toks = tokenize("int a() { return 1; } float c() { return 2.5; }");
    let prog = parse(&toks).expect("parses");
    let mut g = CodeGenerator::new();
    g.compile(&prog).expect("compiles");
    assert_eq!(g.module.functions.len(), 2);
    assert_eq!(g.module.functions[0].name, "a");
    assert_eq!(g.module.functions[0].return_type, Type::Int);
    assert_eq!(g.module.functions[1].name, "c");
    assert_eq!(g.module.functions[1].return_type, Type::Float);
    assert_eq!(g.module.name, "main");
}

#[test]
fn print_arg_classifies_expressions() {
    assert_eq!(
        Expr::StringLiteral("s".to_string()).print_arg(),
        Some(PrintArg::String("s".to_string()))
    );
    assert_eq!(
        Expr::Variable("v".to_string()).print_arg(),
        Some(PrintArg::Identifier("v".to_string()))
    );
    assert_eq!(Expr::IntLiteral(3).print_arg(), None);
}

#[test]
fn compile_function_directly_appends_one_function() {
    let f = Function {
        return_type: Type::Int,
        name: "solo".to_string(),
        body: vec![Statement::Return(Expr::IntLiteral(7))],
    };
    let mut g = CodeGenerator::new();
    g.compile_function(&f).expect("compiles");
    assert_eq!(g.module.functions.len(), 1);
    assert_eq!(g.module.functions[0].name, "solo");
    assert!(g.module.functions[0].check_terminated());
}

#[test]
fn variables_scope_per_function() {
    // The same name declared in two functions is two independent slots.
    let toks = tokenize("int a() { int x = 1; return x; } int c() { int x = 2; return x; }");
    let prog = parse(&toks).expect("parses");
    let mut g = CodeGenerator::new();
    g.compile(&prog).expect("compiles");
    assert_eq!(g.module.functions.len(), 2);
    let p = Program { headers: vec![], functions: vec![] };
    g.compile(&p).expect("empty program compiles");
    assert!(g.module.functions.is_empty());
}

#[test]
fn terminator_check_rejects_an_unterminated_block() {
    let f = IrFunction {
        name: "broken".to_string(),
        return_type: Type::Int,
        blocks: vec![BasicBlock { insts: vec![], terminator: None }],
    };
    assert!(!f.check_terminated());
    let empty = IrFunction {
        name: "no_blocks".to_string(),
        return_type: Type::Int,
        blocks: vec![],
    };
    assert!(!empty.check_terminated());
}
