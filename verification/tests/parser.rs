use minicc::ast::{Expr, Statement, Type};
use minicc::lexer::{tokenize, Token};
use minicc::parser::{parse, parse_expr, parse_statement, Expected, ParseError};

fn b(e: Expr) -> Box<Expr> {
    Box::new(e)
}

#[test]
fn minimal_program_parses_to_single_main() {
    let toks = tokenize("int main() { return 0; }");
    let prog = parse(&toks).expect("minimal program must parse");
    assert_eq!(prog.headers, vec![]);
    assert_eq!(prog.functions.len(), 1);
    let f = &prog.functions[0];
    assert_eq!(f.name, "main");
    assert_eq!(f.return_type, Type::Int);
    assert_eq!(f.body, vec![Statement::Return(Expr::IntLiteral(0))]);
}

#[test]
fn precedence_mul_binds_tighter_than_add() {
    let toks = tokenize("2 + 3 * 4");
    let (e, used) = parse_expr(&toks, 0).expect("expression must parse");
    assert_eq!(used, 5);
    assert_eq!(
        e,
        Expr::Add(
            b(Expr::IntLiteral(2)),
            b(Expr::Mul(b(Expr::IntLiteral(3)), b(Expr::IntLiteral(4)))),
        )
    );
}

#[test]
fn parentheses_override_precedence() {
    let toks = tokenize("(2 + 3) * 4");
    let (e, _) = parse_expr(&toks, 0).expect("expression must parse");
    assert_eq!(
        e,
        Expr::Mul(
            b(Expr::Add(b(Expr::IntLiteral(2)), b(Expr::IntLiteral(3)))),
            b(Expr::IntLiteral(4)),
        )
    );
}

#[test]
fn binary_operators_are_left_associative() {
    let toks = tokenize("10 - 3 - 4");
    let (e, _) = parse_expr(&toks, 0).expect("expression must parse");
    assert_eq!(
        e,
        Expr::Sub(
            b(Expr::Sub(b(Expr::IntLiteral(10)), b(Expr::IntLiteral(3)))),
            b(Expr::IntLiteral(4)),
        )
    );
}

#[test]
fn missing_expression_is_a_syntax_error() {
    // Tokenization is total: this is never a lexical error.
    let toks = tokenize("int x = ;");
    assert_eq!(
        toks,
        vec![
            Token::Int,
            Token::Identifier("x".to_string()),
            Token::Equals,
            Token::Semicolon,
        ]
    );
    // As a statement, the error points at the missing expression.
    let err = parse_statement(&toks, 0).expect_err("must fail");
    assert_eq!(
        err,
        ParseError::UnexpectedToken { position: 3, expected: Expected::ExprStart }
    );
    // As a whole program it is also a syntax error, at the point where a
    // function's `(` was expected.
    let err2 = parse(&toks).expect_err("must fail");
    assert_eq!(
        err2,
        ParseError::UnexpectedToken { position: 2, expected: Expected::OParen }
    );
}

#[test]
fn unexpected_eof_reports_position_and_expectation() {
    let toks = tokenize("int main() { return 0;");
    let err = parse(&toks).expect_err("must fail");
    assert_eq!(
        err,
        ParseError::UnexpectedEof { position: 8, expected: Expected::StatementOrCBrace }
    );
}

#[test]
fn trailing_input_is_an_extra_token() {
    let toks = tokenize("int main() { return 0; } ;");
    let err = parse(&toks).expect_err("must fail");
    assert_eq!(err, ParseError::ExtraToken { position: 9 });
}

#[test]
fn statements_of_every_kind_parse() {
    let toks = tokenize(
        "int main() { int x = 1; float y = 2.5; x = x + 2; printf(\"hi\", x); scanf(y); return x; }",
    );
    let prog = parse(&toks).expect("program must parse");
    let body = &prog.functions[0].body;
    assert_eq!(body.len(), 6);
    assert_eq!(
        body[0],
        Statement::Declare(Type::Int, "x".to_string(), Expr::IntLiteral(1))
    );
    assert!(matches!(body[1], Statement::Declare(Type::Float, _, _)));
    assert_eq!(
        body[2],
        Statement::Assign(
            "x".to_string(),
            Expr::Add(b(Expr::Variable("x".to_string())), b(Expr::IntLiteral(2))),
        )
    );
    assert_eq!(
        body[3],
        Statement::Print(vec![
            Expr::StringLiteral("hi".to_string()),
            Expr::Variable("x".to_string()),
        ])
    );
    assert_eq!(body[4], Statement::Scan(vec![Expr::Variable("y".to_string())]));
    assert_eq!(body[5], Statement::Return(Expr::Variable("x".to_string())));
}

#[test]
fn header_directives_collect_before_functions() {
    let src = format!(
        "#{} <stdio.h>\n#{} \"own.h\"\nint main() {{ return 0; }}",
        "inclu\u{64}e", "inclu\u{64}e"
    );
    let toks = tokenize(&src);
    let prog = parse(&toks).expect("program must parse");
    assert_eq!(
        prog.headers,
        vec![
            Statement::Header("stdio.h".to_string()),
            Statement::Header("own.h".to_string()),
        ]
    );
    assert_eq!(prog.functions.len(), 1);
}

#[test]
fn empty_token_sequence_is_an_empty_program() {
    let prog = parse(&[]).expect("empty input parses");
    assert_eq!(prog.headers, vec![]);
    assert_eq!(prog.functions, vec![]);
}

#[test]
fn missing_argument_after_comma_is_reported() {
    let toks = tokenize("int main() { printf(\"a\", ); return 0; }");
    let err = parse(&toks).expect_err("must fail");
    assert_eq!(
        err,
        ParseError::UnexpectedToken { position: 9, expected: Expected::ArgStart }
    );
}

#[test]
fn error_messages_are_descriptive_and_positional() {
    let toks = tokenize("int x = ;");
    let err = parse_statement(&toks, 0).expect_err("must fail");
    assert_eq!(
        err.message(),
        "Unexpected token at position 3. Expected: an expression"
    );
    let toks2 = tokenize("int main() { return 0;");
    let err2 = parse(&toks2).expect_err("must fail");
    assert_eq!(
        err2.message(),
        "Unexpected end of input at position 8. Expected: a statement or '}'"
    );
    let toks3 = tokenize("int main() { return 0; } ;");
    let err3 = parse(&toks3).expect_err("must fail");
    assert_eq!(err3.message(), "Extra token at position 9");
}
