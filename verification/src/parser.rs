//! The parser: consumes a token sequence under the language grammar and
//! produces a program, or a structured, positional syntax error.
//!
//! The grammar is LL(1) and parsed by recursive descent with one token of
//! lookahead and no backtracking:
//!
//! ```text
//! Program   := Header* Function*
//! Function  := Type Identifier '(' ')' '{' Statement* '}'
//! Type      := 'int' | 'float'
//! Statement := Declare | Assign | Return | Print | Scan
//! Declare   := Type Identifier '=' Expr ';'
//! Assign    := Identifier '=' Expr ';'
//! Return    := 'return' Expr ';'
//! Print     := 'printf' '(' Arg (',' Arg)* ')' ';'
//! Scan      := 'scanf' '(' Arg (',' Arg)* ')' ';'
//! Arg       := StringLiteral | Expr
//! Expr      := Term (('+'|'-') Term)*
//! Term      := Factor (('*'|'/') Factor)*
//! Factor    := IntLiteral | FloatLiteral | Identifier | '(' Expr ')'
//! ```
//!
//! `*` and `/` bind tighter than `+` and `-`; all binary operators are
//! left-associative; parentheses override precedence. The whole token
//! sequence must be consumed: trailing tokens are an error.

use vstd::prelude::*;

use crate::ast::{Expr, Function, Program, Statement, Type};
use crate::lexer::Token;

verus! {

/// The set of tokens that would have been acceptable at the point where
/// parsing failed.
#[derive(Clone, Copy, Debug, PartialEq, Eq, Structural)]
pub enum Expected {
    /// `int` or `float`.
    TypeKeyword,
    /// An identifier.
    Identifier,
    OParen,
    CParen,
    OBrace,
    Semicolon,
    Equals,
    /// An integer literal, float literal, identifier, or `(`.
    ExprStart,
    /// A string literal or the start of an expression.
    ArgStart,
    /// `,` continuing an argument list, or `)` closing it.
    CommaOrCParen,
    /// The start of a statement, or `}` closing the function body.
    StatementOrCBrace,
}

/// A positional syntax error. `position` is an index into the token
/// sequence; end-of-input errors carry the sequence length.
#[derive(Clone, Copy, Debug, PartialEq, Eq, Structural)]
pub enum ParseError {
    /// The token sequence ended where `expected` was acceptable.
    UnexpectedEof { position: usize, expected: Expected },
    /// The token at `position` is not among `expected`.
    UnexpectedToken { position: usize, expected: Expected },
    /// A complete program ended at `position` but tokens remain.
    ExtraToken { position: usize },
}

/// The mathematical shadow of `Statement`: expression lists become `Seq`.
pub ghost enum StmtV {
    Header(String),
    Declare(Type, String, Expr),
    Assign(String, Expr),
    Return(Expr),
    Print(Seq<Expr>),
    Scan(Seq<Expr>),
}

/// The mathematical shadow of `Function`.
pub ghost struct FunV {
    pub ret: Type,
    pub name: String,
    pub body: Seq<StmtV>,
}

/// The mathematical shadow of `Program`.
pub ghost struct ProgV {
    pub headers: Seq<StmtV>,
    pub functions: Seq<FunV>,
}

/// An executable statement denotes its shadow.
pub open spec fn stmt_matches(s: Statement, v: StmtV) -> bool {
    match (s, v) {
        (Statement::Header(p), StmtV::Header(q)) => p == q,
        (Statement::Declare(t, n, e), StmtV::Declare(t2, n2, e2)) => t == t2 && n == n2 && e == e2,
        (Statement::Assign(n, e), StmtV::Assign(n2, e2)) => n == n2 && e == e2,
        (Statement::Return(e), StmtV::Return(e2)) => e == e2,
        (Statement::Print(a), StmtV::Print(b)) => a@ == b,
        (Statement::Scan(a), StmtV::Scan(b)) => a@ == b,
        _ => false,
    }
}

/// An executable function denotes its shadow.
pub open spec fn fn_matches(f: Function, v: FunV) -> bool {
    &&& f.return_type == v.ret
    &&& f.name == v.name
    &&& f.body@.len() == v.body.len()
    &&& forall|k: int| 0 <= k < v.body.len() ==> stmt_matches(#[trigger] f.body@[k], v.body[k])
}

/// An executable program denotes its shadow.
pub open spec fn prog_matches(p: Program, v: ProgV) -> bool {
    &&& p.headers@.len() == v.headers.len()
    &&& forall|k: int| 0 <= k < v.headers.len() ==> stmt_matches(#[trigger] p.headers@[k], v.headers[k])
    &&& p.functions@.len() == v.functions.len()
    &&& forall|k: int|
        0 <= k < v.functions.len() ==> fn_matches(#[trigger] p.functions@[k], v.functions[k])
}

/// Whether a token may start a `Factor`.
pub open spec fn starts_expr(t: Token) -> bool {
    match t {
        Token::IntLiteral(_) => true,
        Token::FloatLiteral(_) => true,
        Token::Identifier(_) => true,
        Token::OParen => true,
        _ => false,
    }
}

// ---------------------------------------------------------------------------
// Grammar (specification)
// ---------------------------------------------------------------------------

/// Parses one `Factor` at `i`.
pub open spec fn spec_parse_factor(toks: Seq<Token>, i: int) -> Result<(Expr, int), ParseError>
    decreases toks.len() - i, 0int,
{
    if i >= toks.len() {
        Err(ParseError::UnexpectedEof { position: toks.len() as usize, expected: Expected::ExprStart })
    } else {
        match toks[i] {
            Token::IntLiteral(v) => Ok((Expr::IntLiteral(v), i + 1)),
            Token::FloatLiteral(f) => Ok((Expr::FloatLiteral(f), i + 1)),
            Token::Identifier(n) => Ok((Expr::Variable(n), i + 1)),
            Token::OParen => match spec_parse_expr(toks, i + 1) {
                Err(e) => Err(e),
                Ok((e, j)) => if j >= toks.len() {
                    Err(
                        ParseError::UnexpectedEof {
                            position: toks.len() as usize,
                            expected: Expected::CParen,
                        },
                    )
                } else if (toks[j] matches Token::CParen) {
                    Ok((e, j + 1))
                } else {
                    Err(
                        ParseError::UnexpectedToken {
                            position: j as usize,
                            expected: Expected::CParen,
                        },
                    )
                },
            },
            _ => Err(
                ParseError::UnexpectedToken { position: i as usize, expected: Expected::ExprStart },
            ),
        }
    }
}

/// Parses `(('*'|'/') Factor)*` continuing the term `acc`.
pub open spec fn spec_parse_term_rest(toks: Seq<Token>, acc: Expr, i: int) -> Result<
    (Expr, int),
    ParseError,
>
    decreases toks.len() - i, 2int,
{
    if i < toks.len() && ((toks[i] matches Token::Star) || (toks[i] matches Token::FSlash)) {
        match spec_parse_factor(toks, i + 1) {
            Err(e) => Err(e),
            Ok((rhs, j)) => if i < j && j <= toks.len() {
                let combined = if (toks[i] matches Token::Star) {
                    Expr::Mul(Box::new(acc), Box::new(rhs))
                } else {
                    Expr::Div(Box::new(acc), Box::new(rhs))
                };
                spec_parse_term_rest(toks, combined, j)
            } else {
                Err(ParseError::ExtraToken { position: i as usize })
            },
        }
    } else {
        Ok((acc, i))
    }
}

/// Parses one `Term` at `i`.
pub open spec fn spec_parse_term(toks: Seq<Token>, i: int) -> Result<(Expr, int), ParseError>
    decreases toks.len() - i, 1int,
{
    match spec_parse_factor(toks, i) {
        Err(e) => Err(e),
        Ok((f, j)) => if i < j && j <= toks.len() {
            spec_parse_term_rest(toks, f, j)
        } else {
            Err(ParseError::ExtraToken { position: i as usize })
        },
    }
}

/// Parses `(('+'|'-') Term)*` continuing the expression `acc`.
pub open spec fn spec_parse_expr_rest(toks: Seq<Token>, acc: Expr, i: int) -> Result<
    (Expr, int),
    ParseError,
>
    decreases toks.len() - i, 4int,
{
    if i < toks.len() && ((toks[i] matches Token::Plus) || (toks[i] matches Token::Minus)) {
        match spec_parse_term(toks, i + 1) {
            Err(e) => Err(e),
            Ok((rhs, j)) => if i < j && j <= toks.len() {
                let combined = if (toks[i] matches Token::Plus) {
                    Expr::Add(Box::new(acc), Box::new(rhs))
                } else {
                    Expr::Sub(Box::new(acc), Box::new(rhs))
                };
                spec_parse_expr_rest(toks, combined, j)
            } else {
                Err(ParseError::ExtraToken { position: i as usize })
            },
        }
    } else {
        Ok((acc, i))
    }
}

/// Parses one `Expr` at `i`.
pub open spec fn spec_parse_expr(toks: Seq<Token>, i: int) -> Result<(Expr, int), ParseError>
    decreases toks.len() - i, 3int,
{
    match spec_parse_term(toks, i) {
        Err(e) => Err(e),
        Ok((t, j)) => if i < j && j <= toks.len() {
            spec_parse_expr_rest(toks, t, j)
        } else {
            Err(ParseError::ExtraToken { position: i as usize })
        },
    }
}

/// Parses one `Arg`: a string literal, or an expression.
pub open spec fn spec_parse_arg(toks: Seq<Token>, i: int) -> Result<(Expr, int), ParseError> {
    if i >= toks.len() {
        Err(ParseError::UnexpectedEof { position: toks.len() as usize, expected: Expected::ArgStart })
    } else {
        match toks[i] {
            Token::StringLiteral(s) => Ok((Expr::StringLiteral(s), i + 1)),
            t => if starts_expr(t) {
                spec_parse_expr(toks, i)
            } else {
                Err(
                    ParseError::UnexpectedToken {
                        position: i as usize,
                        expected: Expected::ArgStart,
                    },
                )
            },
        }
    }
}

/// Parses `(',' Arg)*` continuing the argument list `acc`.
pub open spec fn spec_parse_args_rest(toks: Seq<Token>, acc: Seq<Expr>, i: int) -> Result<
    (Seq<Expr>, int),
    ParseError,
>
    decreases toks.len() - i,
{
    if i < toks.len() && (toks[i] matches Token::Comma) {
        match spec_parse_arg(toks, i + 1) {
            Err(e) => Err(e),
            Ok((a, j)) => if i < j && j <= toks.len() {
                spec_parse_args_rest(toks, acc.push(a), j)
            } else {
                Err(ParseError::ExtraToken { position: i as usize })
            },
        }
    } else {
        Ok((acc, i))
    }
}

/// Parses `Arg (',' Arg)*`.
pub open spec fn spec_parse_args(toks: Seq<Token>, i: int) -> Result<(Seq<Expr>, int), ParseError> {
    match spec_parse_arg(toks, i) {
        Err(e) => Err(e),
        Ok((a, j)) => spec_parse_args_rest(toks, seq![a], j),
    }
}

/// Parses the tail of a declaration (`Identifier '=' Expr ';'`) whose type
/// keyword stood at `i`.
pub open spec fn spec_parse_decl(toks: Seq<Token>, i: int, ty: Type) -> Result<
    (StmtV, int),
    ParseError,
> {
    if i + 1 >= toks.len() {
        Err(
            ParseError::UnexpectedEof {
                position: toks.len() as usize,
                expected: Expected::Identifier,
            },
        )
    } else {
        match toks[i + 1] {
            Token::Identifier(n) => if i + 2 >= toks.len() {
                Err(
                    ParseError::UnexpectedEof {
                        position: toks.len() as usize,
                        expected: Expected::Equals,
                    },
                )
            } else if !(toks[i + 2] matches Token::Equals) {
                Err(
                    ParseError::UnexpectedToken {
                        position: (i + 2) as usize,
                        expected: Expected::Equals,
                    },
                )
            } else {
                match spec_parse_expr(toks, i + 3) {
                    Err(e) => Err(e),
                    Ok((e, j)) => if j >= toks.len() {
                        Err(
                            ParseError::UnexpectedEof {
                                position: toks.len() as usize,
                                expected: Expected::Semicolon,
                            },
                        )
                    } else if (toks[j] matches Token::Semicolon) {
                        Ok((StmtV::Declare(ty, n, e), j + 1))
                    } else {
                        Err(
                            ParseError::UnexpectedToken {
                                position: j as usize,
                                expected: Expected::Semicolon,
                            },
                        )
                    },
                }
            },
            _ => Err(
                ParseError::UnexpectedToken {
                    position: (i + 1) as usize,
                    expected: Expected::Identifier,
                },
            ),
        }
    }
}

/// Parses the tail of a `printf`/`scanf` statement whose keyword stood at
/// `i`: `'(' Arg (',' Arg)* ')' ';'`.
pub open spec fn spec_parse_io(toks: Seq<Token>, i: int, is_print: bool) -> Result<
    (StmtV, int),
    ParseError,
> {
    if i + 1 >= toks.len() {
        Err(ParseError::UnexpectedEof { position: toks.len() as usize, expected: Expected::OParen })
    } else if !(toks[i + 1] matches Token::OParen) {
        Err(ParseError::UnexpectedToken { position: (i + 1) as usize, expected: Expected::OParen })
    } else {
        match spec_parse_args(toks, i + 2) {
            Err(e) => Err(e),
            Ok((args, j)) => if j >= toks.len() {
                Err(
                    ParseError::UnexpectedEof {
                        position: toks.len() as usize,
                        expected: Expected::CommaOrCParen,
                    },
                )
            } else if !(toks[j] matches Token::CParen) {
                Err(
                    ParseError::UnexpectedToken {
                        position: j as usize,
                        expected: Expected::CommaOrCParen,
                    },
                )
            } else if j + 1 >= toks.len() {
                Err(
                    ParseError::UnexpectedEof {
                        position: toks.len() as usize,
                        expected: Expected::Semicolon,
                    },
                )
            } else if !(toks[j + 1] matches Token::Semicolon) {
                Err(
                    ParseError::UnexpectedToken {
                        position: (j + 1) as usize,
                        expected: Expected::Semicolon,
                    },
                )
            } else {
                Ok((if is_print {
                    StmtV::Print(args)
                } else {
                    StmtV::Scan(args)
                }, j + 2))
            },
        }
    }
}

/// Parses one `Statement` at `i`.
pub open spec fn spec_parse_statement(toks: Seq<Token>, i: int) -> Result<(StmtV, int), ParseError> {
    if i >= toks.len() {
        Err(
            ParseError::UnexpectedEof {
                position: toks.len() as usize,
                expected: Expected::StatementOrCBrace,
            },
        )
    } else {
        match toks[i] {
            Token::Int => spec_parse_decl(toks, i, Type::Int),
            Token::Float => spec_parse_decl(toks, i, Type::Float),
            Token::Identifier(n) => if i + 1 >= toks.len() {
                Err(
                    ParseError::UnexpectedEof {
                        position: toks.len() as usize,
                        expected: Expected::Equals,
                    },
                )
            } else if !(toks[i + 1] matches Token::Equals) {
                Err(
                    ParseError::UnexpectedToken {
                        position: (i + 1) as usize,
                        expected: Expected::Equals,
                    },
                )
            } else {
                match spec_parse_expr(toks, i + 2) {
                    Err(e) => Err(e),
                    Ok((e, j)) => if j >= toks.len() {
                        Err(
                            ParseError::UnexpectedEof {
                                position: toks.len() as usize,
                                expected: Expected::Semicolon,
                            },
                        )
                    } else if (toks[j] matches Token::Semicolon) {
                        Ok((StmtV::Assign(n, e), j + 1))
                    } else {
                        Err(
                            ParseError::UnexpectedToken {
                                position: j as usize,
                                expected: Expected::Semicolon,
                            },
                        )
                    },
                }
            },
            Token::Return => match spec_parse_expr(toks, i + 1) {
                Err(e) => Err(e),
                Ok((e, j)) => if j >= toks.len() {
                    Err(
                        ParseError::UnexpectedEof {
                            position: toks.len() as usize,
                            expected: Expected::Semicolon,
                        },
                    )
                } else if (toks[j] matches Token::Semicolon) {
                    Ok((StmtV::Return(e), j + 1))
                } else {
                    Err(
                        ParseError::UnexpectedToken {
                            position: j as usize,
                            expected: Expected::Semicolon,
                        },
                    )
                },
            },
            Token::Printf => spec_parse_io(toks, i, true),
            Token::Scanf => spec_parse_io(toks, i, false),
            _ => Err(
                ParseError::UnexpectedToken {
                    position: i as usize,
                    expected: Expected::StatementOrCBrace,
                },
            ),
        }
    }
}

/// Parses `Statement*` up to (not consuming) the closing `}`.
pub open spec fn spec_parse_body(toks: Seq<Token>, acc: Seq<StmtV>, i: int) -> Result<
    (Seq<StmtV>, int),
    ParseError,
>
    decreases toks.len() - i,
{
    if i >= toks.len() {
        Err(
            ParseError::UnexpectedEof {
                position: toks.len() as usize,
                expected: Expected::StatementOrCBrace,
            },
        )
    } else if (toks[i] matches Token::CBrace) {
        Ok((acc, i))
    } else {
        match spec_parse_statement(toks, i) {
            Err(e) => Err(e),
            Ok((s, j)) => if i < j && j <= toks.len() {
                spec_parse_body(toks, acc.push(s), j)
            } else {
                Err(ParseError::ExtraToken { position: i as usize })
            },
        }
    }
}

/// Parses one `Function` at `i`.
pub open spec fn spec_parse_function(toks: Seq<Token>, i: int) -> Result<(FunV, int), ParseError> {
    if i >= toks.len() {
        Err(
            ParseError::UnexpectedEof {
                position: toks.len() as usize,
                expected: Expected::TypeKeyword,
            },
        )
    } else {
        let ty = match toks[i] {
            Token::Int => Some(Type::Int),
            Token::Float => Some(Type::Float),
            _ => None,
        };
        match ty {
            None => Err(
                ParseError::UnexpectedToken {
                    position: i as usize,
                    expected: Expected::TypeKeyword,
                },
            ),
            Some(ret) => if i + 1 >= toks.len() {
                Err(
                    ParseError::UnexpectedEof {
                        position: toks.len() as usize,
                        expected: Expected::Identifier,
                    },
                )
            } else {
                match toks[i + 1] {
                    Token::Identifier(n) => if i + 2 >= toks.len() {
                        Err(
                            ParseError::UnexpectedEof {
                                position: toks.len() as usize,
                                expected: Expected::OParen,
                            },
                        )
                    } else if !(toks[i + 2] matches Token::OParen) {
                        Err(
                            ParseError::UnexpectedToken {
                                position: (i + 2) as usize,
                                expected: Expected::OParen,
                            },
                        )
                    } else if i + 3 >= toks.len() {
                        Err(
                            ParseError::UnexpectedEof {
                                position: toks.len() as usize,
                                expected: Expected::CParen,
                            },
                        )
                    } else if !(toks[i + 3] matches Token::CParen) {
                        Err(
                            ParseError::UnexpectedToken {
                                position: (i + 3) as usize,
                                expected: Expected::CParen,
                            },
                        )
                    } else if i + 4 >= toks.len() {
                        Err(
                            ParseError::UnexpectedEof {
                                position: toks.len() as usize,
                                expected: Expected::OBrace,
                            },
                        )
                    } else if !(toks[i + 4] matches Token::OBrace) {
                        Err(
                            ParseError::UnexpectedToken {
                                position: (i + 4) as usize,
                                expected: Expected::OBrace,
                            },
                        )
                    } else {
                        match spec_parse_body(toks, seq![], i + 5) {
                            Err(e) => Err(e),
                            Ok((body, j)) => Ok(
                                (FunV { ret, name: n, body }, j + 1),
                            ),  // body stops at '}', consume it
                        }
                    },
                    _ => Err(
                        ParseError::UnexpectedToken {
                            position: (i + 1) as usize,
                            expected: Expected::Identifier,
                        },
                    ),
                }
            },
        }
    }
}

/// Parses `Header*`, collecting the directives as statements.
pub open spec fn spec_parse_headers(toks: Seq<Token>, acc: Seq<StmtV>, i: int) -> (Seq<StmtV>, int)
    decreases toks.len() - i,
{
    if 0 <= i < toks.len() {
        match toks[i] {
            Token::Header(p, _) => spec_parse_headers(toks, acc.push(StmtV::Header(p)), i + 1),
            _ => (acc, i),
        }
    } else {
        (acc, i)
    }
}

/// Parses `Function*` to the end of the token sequence; a trailing token
/// that cannot start a function is extra input after a complete program.
pub open spec fn spec_parse_functions(toks: Seq<Token>, acc: Seq<FunV>, i: int) -> Result<
    Seq<FunV>,
    ParseError,
>
    decreases toks.len() - i,
{
    if i >= toks.len() {
        Ok(acc)
    } else if ((toks[i] matches Token::Int) || (toks[i] matches Token::Float)) {
        match spec_parse_function(toks, i) {
            Err(e) => Err(e),
            Ok((f, j)) => if i < j && j <= toks.len() {
                spec_parse_functions(toks, acc.push(f), j)
            } else {
                Err(ParseError::ExtraToken { position: i as usize })
            },
        }
    } else {
        Err(ParseError::ExtraToken { position: i as usize })
    }
}

/// Parses a whole token sequence as a `Program`, consuming every token.
pub open spec fn spec_parse_program(toks: Seq<Token>) -> Result<ProgV, ParseError> {
    let (headers, i) = spec_parse_headers(toks, seq![], 0);
    match spec_parse_functions(toks, seq![], i) {
        Err(e) => Err(e),
        Ok(functions) => Ok(ProgV { headers, functions }),
    }
}


// ---------------------------------------------------------------------------
// Executable parser
// ---------------------------------------------------------------------------

fn is_mul_op(t: &Token) -> (r: bool)
    ensures
        r == ((*t matches Token::Star) || (*t matches Token::FSlash)),
{
    match t {
        Token::Star => true,
        Token::FSlash => true,
        _ => false,
    }
}

fn is_add_op(t: &Token) -> (r: bool)
    ensures
        r == ((*t matches Token::Plus) || (*t matches Token::Minus)),
{
    match t {
        Token::Plus => true,
        Token::Minus => true,
        _ => false,
    }
}

fn is_comma(t: &Token) -> (r: bool)
    ensures
        r == (*t matches Token::Comma),
{
    match t {
        Token::Comma => true,
        _ => false,
    }
}

fn is_cbrace(t: &Token) -> (r: bool)
    ensures
        r == (*t matches Token::CBrace),
{
    match t {
        Token::CBrace => true,
        _ => false,
    }
}

fn is_header_tok(t: &Token) -> (r: bool)
    ensures
        r == (*t matches Token::Header(_, _)),
{
    match t {
        Token::Header(_, _) => true,
        _ => false,
    }
}

/// Parses one `Factor` at `i`.
pub fn parse_factor(toks: &[Token], i: usize) -> (r: Result<(Expr, usize), ParseError>)
    ensures
        match r {
            Ok(p) => spec_parse_factor(toks@, i as int) == Ok::<_, ParseError>((p.0, p.1 as int))
                && i < p.1 <= toks@.len(),
            Err(e) => spec_parse_factor(toks@, i as int) == Err::<(Expr, int), _>(e),
        },
    decreases toks@.len() - i, 0int,
{
    if i >= toks.len() {
        Err(ParseError::UnexpectedEof { position: toks.len(), expected: Expected::ExprStart })
    } else {
        match &toks[i] {
            Token::IntLiteral(v) => Ok((Expr::IntLiteral(*v), i + 1)),
            Token::FloatLiteral(f) => Ok((Expr::FloatLiteral(*f), i + 1)),
            Token::Identifier(n) => Ok((Expr::Variable(n.clone()), i + 1)),
            Token::OParen => match parse_expr(toks, i + 1) {
                Err(e) => Err(e),
                Ok((e, j)) => if j >= toks.len() {
                    Err(
                        ParseError::UnexpectedEof {
                            position: toks.len(),
                            expected: Expected::CParen,
                        },
                    )
                } else if matches!(&toks[j], Token::CParen) {
                    Ok((e, j + 1))
                } else {
                    Err(ParseError::UnexpectedToken { position: j, expected: Expected::CParen })
                },
            },
            _ => Err(ParseError::UnexpectedToken { position: i, expected: Expected::ExprStart }),
        }
    }
}

/// Parses one `Term` at `i`: factors joined by `*` and `/`.
pub fn parse_term(toks: &[Token], i: usize) -> (r: Result<(Expr, usize), ParseError>)
    ensures
        match r {
            Ok(p) => spec_parse_term(toks@, i as int) == Ok::<_, ParseError>((p.0, p.1 as int))
                && i < p.1 <= toks@.len(),
            Err(e) => spec_parse_term(toks@, i as int) == Err::<(Expr, int), _>(e),
        },
    decreases toks@.len() - i, 1int,
{
    let (f, j) = match parse_factor(toks, i) {
        Err(e) => {
            return Err(e);
        },
        Ok(p) => p,
    };
    let mut acc = f;
    let mut k = j;
    while k < toks.len() && is_mul_op(&toks[k])
        invariant
            i < k <= toks@.len(),
            spec_parse_term(toks@, i as int) == spec_parse_term_rest(toks@, acc, k as int),
        decreases toks@.len() - k,
    {
        let is_star = matches!(&toks[k], Token::Star);
        match parse_factor(toks, k + 1) {
            Err(e) => {
                return Err(e);
            },
            Ok((rhs, j2)) => {
                acc = if is_star {
                    Expr::Mul(Box::new(acc), Box::new(rhs))
                } else {
                    Expr::Div(Box::new(acc), Box::new(rhs))
                };
                k = j2;
            },
        }
    }
    Ok((acc, k))
}

/// Parses one `Expr` at `i`: terms joined by `+` and `-`.
pub fn parse_expr(toks: &[Token], i: usize) -> (r: Result<(Expr, usize), ParseError>)
    ensures
        match r {
            Ok(p) => spec_parse_expr(toks@, i as int) == Ok::<_, ParseError>((p.0, p.1 as int))
                && i < p.1 <= toks@.len(),
            Err(e) => spec_parse_expr(toks@, i as int) == Err::<(Expr, int), _>(e),
        },
    decreases toks@.len() - i, 3int,
{
    let (t, j) = match parse_term(toks, i) {
        Err(e) => {
            return Err(e);
        },
        Ok(p) => p,
    };
    let mut acc = t;
    let mut k = j;
    while k < toks.len() && is_add_op(&toks[k])
        invariant
            i < k <= toks@.len(),
            spec_parse_expr(toks@, i as int) == spec_parse_expr_rest(toks@, acc, k as int),
        decreases toks@.len() - k,
    {
        let is_plus = matches!(&toks[k], Token::Plus);
        match parse_term(toks, k + 1) {
            Err(e) => {
                return Err(e);
            },
            Ok((rhs, j2)) => {
                acc = if is_plus {
                    Expr::Add(Box::new(acc), Box::new(rhs))
                } else {
                    Expr::Sub(Box::new(acc), Box::new(rhs))
                };
                k = j2;
            },
        }
    }
    Ok((acc, k))
}

/// Parses one `Arg` at `i`: a string literal or an expression.
pub fn parse_arg(toks: &[Token], i: usize) -> (r: Result<(Expr, usize), ParseError>)
    ensures
        match r {
            Ok(p) => spec_parse_arg(toks@, i as int) == Ok::<_, ParseError>((p.0, p.1 as int))
                && i < p.1 <= toks@.len(),
            Err(e) => spec_parse_arg(toks@, i as int) == Err::<(Expr, int), _>(e),
        },
{
    if i >= toks.len() {
        Err(ParseError::UnexpectedEof { position: toks.len(), expected: Expected::ArgStart })
    } else {
        match &toks[i] {
            Token::StringLiteral(s) => Ok((Expr::StringLiteral(s.clone()), i + 1)),
            Token::IntLiteral(_) => parse_expr(toks, i),
            Token::FloatLiteral(_) => parse_expr(toks, i),
            Token::Identifier(_) => parse_expr(toks, i),
            Token::OParen => parse_expr(toks, i),
            _ => Err(ParseError::UnexpectedToken { position: i, expected: Expected::ArgStart }),
        }
    }
}

/// Parses `Arg (\',\' Arg)*` at `i`.
pub fn parse_args(toks: &[Token], i: usize) -> (r: Result<(Vec<Expr>, usize), ParseError>)
    ensures
        match r {
            Ok(p) => spec_parse_args(toks@, i as int) == Ok::<_, ParseError>((p.0@, p.1 as int))
                && i < p.1 <= toks@.len(),
            Err(e) => spec_parse_args(toks@, i as int) == Err::<(Seq<Expr>, int), _>(e),
        },
{
    let (a, j) = match parse_arg(toks, i) {
        Err(e) => {
            return Err(e);
        },
        Ok(p) => p,
    };
    let mut args: Vec<Expr> = Vec::new();
    args.push(a);
    let mut k = j;
    proof {
        assert(args@ =~= seq![args@[0]]);
    }
    while k < toks.len() && is_comma(&toks[k])
        invariant
            i < k <= toks@.len(),
            spec_parse_args(toks@, i as int) == spec_parse_args_rest(toks@, args@, k as int),
        decreases toks@.len() - k,
    {
        match parse_arg(toks, k + 1) {
            Err(e) => {
                return Err(e);
            },
            Ok((a2, j2)) => {
                args.push(a2);
                k = j2;
            },
        }
    }
    Ok((args, k))
}

/// Parses the tail of a declaration whose type keyword stands at `i`.
fn parse_decl(toks: &[Token], i: usize, ty: Type) -> (r: Result<(Statement, usize), ParseError>)
    requires
        i < toks@.len(),
    ensures
        match r {
            Ok(p) => spec_parse_decl(toks@, i as int, ty) matches Ok(q) && stmt_matches(p.0, q.0)
                && q.1 == p.1 as int && i < p.1 <= toks@.len(),
            Err(e) => spec_parse_decl(toks@, i as int, ty) == Err::<(StmtV, int), _>(e),
        },
{
    if i + 1 >= toks.len() {
        return Err(
            ParseError::UnexpectedEof { position: toks.len(), expected: Expected::Identifier },
        );
    }
    match &toks[i + 1] {
        Token::Identifier(n) => {
            let name = n.clone();
            if i + 2 >= toks.len() {
                Err(ParseError::UnexpectedEof { position: toks.len(), expected: Expected::Equals })
            } else if !matches!(&toks[i + 2], Token::Equals) {
                Err(ParseError::UnexpectedToken { position: i + 2, expected: Expected::Equals })
            } else {
                match parse_expr(toks, i + 3) {
                    Err(e) => Err(e),
                    Ok((e, j)) => if j >= toks.len() {
                        Err(
                            ParseError::UnexpectedEof {
                                position: toks.len(),
                                expected: Expected::Semicolon,
                            },
                        )
                    } else if matches!(&toks[j], Token::Semicolon) {
                        Ok((Statement::Declare(ty, name, e), j + 1))
                    } else {
                        Err(
                            ParseError::UnexpectedToken {
                                position: j,
                                expected: Expected::Semicolon,
                            },
                        )
                    },
                }
            }
        },
        _ => Err(ParseError::UnexpectedToken { position: i + 1, expected: Expected::Identifier }),
    }
}

/// Parses the tail of a `printf`/`scanf` statement whose keyword stands
/// at `i`.
fn parse_io(toks: &[Token], i: usize, is_print: bool) -> (r: Result<
    (Statement, usize),
    ParseError,
>)
    requires
        i < toks@.len(),
    ensures
        match r {
            Ok(p) => spec_parse_io(toks@, i as int, is_print) matches Ok(q) && stmt_matches(
                p.0,
                q.0,
            ) && q.1 == p.1 as int && i < p.1 <= toks@.len(),
            Err(e) => spec_parse_io(toks@, i as int, is_print) == Err::<(StmtV, int), _>(e),
        },
{
    if i + 1 >= toks.len() {
        return Err(ParseError::UnexpectedEof { position: toks.len(), expected: Expected::OParen });
    }
    if !matches!(&toks[i + 1], Token::OParen) {
        return Err(ParseError::UnexpectedToken { position: i + 1, expected: Expected::OParen });
    }
    match parse_args(toks, i + 2) {
        Err(e) => Err(e),
        Ok((args, j)) => if j >= toks.len() {
            Err(
                ParseError::UnexpectedEof {
                    position: toks.len(),
                    expected: Expected::CommaOrCParen,
                },
            )
        } else if !matches!(&toks[j], Token::CParen) {
            Err(ParseError::UnexpectedToken { position: j, expected: Expected::CommaOrCParen })
        } else if j + 1 >= toks.len() {
            Err(ParseError::UnexpectedEof { position: toks.len(), expected: Expected::Semicolon })
        } else if !matches!(&toks[j + 1], Token::Semicolon) {
            Err(ParseError::UnexpectedToken { position: j + 1, expected: Expected::Semicolon })
        } else {
            let stmt = if is_print {
                Statement::Print(args)
            } else {
                Statement::Scan(args)
            };
            Ok((stmt, j + 2))
        },
    }
}

/// Parses one `Statement` at `i`.
pub fn parse_statement(toks: &[Token], i: usize) -> (r: Result<(Statement, usize), ParseError>)
    ensures
        match r {
            Ok(p) => spec_parse_statement(toks@, i as int) matches Ok(q) && stmt_matches(p.0, q.0)
                && q.1 == p.1 as int && i < p.1 <= toks@.len(),
            Err(e) => spec_parse_statement(toks@, i as int) == Err::<(StmtV, int), _>(e),
        },
{
    if i >= toks.len() {
        return Err(
            ParseError::UnexpectedEof {
                position: toks.len(),
                expected: Expected::StatementOrCBrace,
            },
        );
    }
    match &toks[i] {
        Token::Int => parse_decl(toks, i, Type::Int),
        Token::Float => parse_decl(toks, i, Type::Float),
        Token::Identifier(n) => {
            let name = n.clone();
            if i + 1 >= toks.len() {
                Err(ParseError::UnexpectedEof { position: toks.len(), expected: Expected::Equals })
            } else if !matches!(&toks[i + 1], Token::Equals) {
                Err(ParseError::UnexpectedToken { position: i + 1, expected: Expected::Equals })
            } else {
                match parse_expr(toks, i + 2) {
                    Err(e) => Err(e),
                    Ok((e, j)) => if j >= toks.len() {
                        Err(
                            ParseError::UnexpectedEof {
                                position: toks.len(),
                                expected: Expected::Semicolon,
                            },
                        )
                    } else if matches!(&toks[j], Token::Semicolon) {
                        Ok((Statement::Assign(name, e), j + 1))
                    } else {
                        Err(
                            ParseError::UnexpectedToken {
                                position: j,
                                expected: Expected::Semicolon,
                            },
                        )
                    },
                }
            }
        },
        Token::Return => match parse_expr(toks, i + 1) {
            Err(e) => Err(e),
            Ok((e, j)) => if j >= toks.len() {
                Err(
                    ParseError::UnexpectedEof {
                        position: toks.len(),
                        expected: Expected::Semicolon,
                    },
                )
            } else if matches!(&toks[j], Token::Semicolon) {
                Ok((Statement::Return(e), j + 1))
            } else {
                Err(ParseError::UnexpectedToken { position: j, expected: Expected::Semicolon })
            },
        },
        Token::Printf => parse_io(toks, i, true),
        Token::Scanf => parse_io(toks, i, false),
        _ => Err(
            ParseError::UnexpectedToken { position: i, expected: Expected::StatementOrCBrace },
        ),
    }
}

/// Parses one `Function` at `i`.
#[verifier::loop_isolation(false)]
pub fn parse_function(toks: &[Token], i: usize) -> (r: Result<(Function, usize), ParseError>)
    ensures
        match r {
            Ok(p) => spec_parse_function(toks@, i as int) matches Ok(q) && fn_matches(p.0, q.0)
                && q.1 == p.1 as int && i < p.1 <= toks@.len(),
            Err(e) => spec_parse_function(toks@, i as int) == Err::<(FunV, int), _>(e),
        },
{
    if i >= toks.len() {
        return Err(
            ParseError::UnexpectedEof { position: toks.len(), expected: Expected::TypeKeyword },
        );
    }
    let ret = match &toks[i] {
        Token::Int => Some(Type::Int),
        Token::Float => Some(Type::Float),
        _ => None,
    };
    let rt = match ret {
        None => {
            return Err(
                ParseError::UnexpectedToken { position: i, expected: Expected::TypeKeyword },
            );
        },
        Some(rt) => rt,
    };
    if i + 1 >= toks.len() {
        return Err(
            ParseError::UnexpectedEof { position: toks.len(), expected: Expected::Identifier },
        );
    }
    let name = match &toks[i + 1] {
        Token::Identifier(n) => n.clone(),
        _ => {
            return Err(
                ParseError::UnexpectedToken { position: i + 1, expected: Expected::Identifier },
            );
        },
    };
    if i + 2 >= toks.len() {
        return Err(ParseError::UnexpectedEof { position: toks.len(), expected: Expected::OParen });
    }
    if !matches!(&toks[i + 2], Token::OParen) {
        return Err(ParseError::UnexpectedToken { position: i + 2, expected: Expected::OParen });
    }
    if i + 3 >= toks.len() {
        return Err(ParseError::UnexpectedEof { position: toks.len(), expected: Expected::CParen });
    }
    if !matches!(&toks[i + 3], Token::CParen) {
        return Err(ParseError::UnexpectedToken { position: i + 3, expected: Expected::CParen });
    }
    if i + 4 >= toks.len() {
        return Err(ParseError::UnexpectedEof { position: toks.len(), expected: Expected::OBrace });
    }
    if !matches!(&toks[i + 4], Token::OBrace) {
        return Err(ParseError::UnexpectedToken { position: i + 4, expected: Expected::OBrace });
    }
    let mut body: Vec<Statement> = Vec::new();
    let ghost mut accv: Seq<StmtV> = seq![];
    let mut k = i + 5;
    while k < toks.len() && !is_cbrace(&toks[k])
        invariant
            i + 5 <= k <= toks@.len(),
            spec_parse_body(toks@, seq![], (i + 5) as int) == spec_parse_body(
                toks@,
                accv,
                k as int,
            ),
            body@.len() == accv.len(),
            forall|t: int| 0 <= t < accv.len() ==> stmt_matches(#[trigger] body@[t], accv[t]),
        decreases toks@.len() - k,
    {
        match parse_statement(toks, k) {
            Err(e) => {
                return Err(e);
            },
            Ok((s, j2)) => {
                proof {
                    match spec_parse_statement(toks@, k as int) {
                        Ok(q) => {
                            accv = accv.push(q.0);
                        },
                        Err(_) => {
                            assert(false);
                        },
                    }
                }
                body.push(s);
                k = j2;
            },
        }
    }
    if k >= toks.len() {
        return Err(
            ParseError::UnexpectedEof {
                position: toks.len(),
                expected: Expected::StatementOrCBrace,
            },
        );
    }
    Ok((Function { return_type: rt, name, body }, k + 1))
}

/// Parses a whole token sequence as a `Program`; every token must be
/// consumed, and any trailing input is reported as an error.
#[verifier::loop_isolation(false)]
pub fn parse(toks: &[Token]) -> (r: Result<Program, ParseError>)
    ensures
        match r {
            Ok(p) => spec_parse_program(toks@) matches Ok(v) && prog_matches(p, v),
            Err(e) => spec_parse_program(toks@) == Err::<ProgV, _>(e),
        },
{
    let mut headers: Vec<Statement> = Vec::new();
    let ghost mut hv: Seq<StmtV> = seq![];
    let mut i: usize = 0;
    while i < toks.len() && is_header_tok(&toks[i])
        invariant
            i <= toks@.len(),
            spec_parse_headers(toks@, seq![], 0) == spec_parse_headers(toks@, hv, i as int),
            headers@.len() == hv.len(),
            forall|t: int| 0 <= t < hv.len() ==> stmt_matches(#[trigger] headers@[t], hv[t]),
        decreases toks@.len() - i,
    {
        match &toks[i] {
            Token::Header(p, _) => {
                proof {
                    match toks@[i as int] {
                        Token::Header(pv, _) => {
                            hv = hv.push(StmtV::Header(pv));
                        },
                        _ => {
                            assert(false);
                        },
                    }
                }
                headers.push(Statement::Header(p.clone()));
            },
            _ => {},
        }
        i = i + 1;
    }
    let ghost hdr_end = i as int;
    let mut functions: Vec<Function> = Vec::new();
    let ghost mut fv: Seq<FunV> = seq![];
    while i < toks.len()
        invariant
            hdr_end <= i as int <= toks@.len(),
            spec_parse_headers(toks@, seq![], 0) == (hv, hdr_end),
            spec_parse_functions(toks@, seq![], hdr_end) == spec_parse_functions(
                toks@,
                fv,
                i as int,
            ),
            headers@.len() == hv.len(),
            forall|t: int| 0 <= t < hv.len() ==> stmt_matches(#[trigger] headers@[t], hv[t]),
            functions@.len() == fv.len(),
            forall|t: int| 0 <= t < fv.len() ==> fn_matches(#[trigger] functions@[t], fv[t]),
        decreases toks@.len() - i,
    {
        let is_type = match &toks[i] {
            Token::Int => true,
            Token::Float => true,
            _ => false,
        };
        if !is_type {
            return Err(ParseError::ExtraToken { position: i });
        }
        match parse_function(toks, i) {
            Err(e) => {
                return Err(e);
            },
            Ok((f, j)) => {
                proof {
                    match spec_parse_function(toks@, i as int) {
                        Ok(q) => {
                            fv = fv.push(q.0);
                        },
                        Err(_) => {
                            assert(false);
                        },
                    }
                }
                functions.push(f);
                i = j;
            },
        }
    }
    Ok(Program { headers, functions })
}



// ---------------------------------------------------------------------------
// Diagnostics
// ---------------------------------------------------------------------------

/// The decimal digit character for `d` in 0..10.
pub open spec fn digit_char(d: int) -> char {
    if d == 0 {
        '0'
    } else if d == 1 {
        '1'
    } else if d == 2 {
        '2'
    } else if d == 3 {
        '3'
    } else if d == 4 {
        '4'
    } else if d == 5 {
        '5'
    } else if d == 6 {
        '6'
    } else if d == 7 {
        '7'
    } else if d == 8 {
        '8'
    } else {
        '9'
    }
}

/// The decimal spelling of a nonnegative number.
pub open spec fn dec_digits(n: int) -> Seq<char>
    decreases n,
{
    if n < 10 {
        seq![digit_char(n)]
    } else {
        dec_digits(n / 10).push(digit_char(n % 10))
    }
}

/// Appends the decimal spelling of `n` to `out`.
fn push_decimal(out: &mut String, n: usize)
    ensures
        final(out)@ == old(out)@ + dec_digits(n as int),
    decreases n,
{
    if n >= 10 {
        push_decimal(out, n / 10);
    }
    let d = n % 10;
    let c = if d == 0 {
        '0'
    } else if d == 1 {
        '1'
    } else if d == 2 {
        '2'
    } else if d == 3 {
        '3'
    } else if d == 4 {
        '4'
    } else if d == 5 {
        '5'
    } else if d == 6 {
        '6'
    } else if d == 7 {
        '7'
    } else if d == 8 {
        '8'
    } else {
        '9'
    };
    assert(c == digit_char(n as int % 10));
    crate::lexer::push_char(out, c);
    proof {
        if n < 10 {
            assert(final(out)@ =~= old(out)@ + seq![digit_char(n as int)]);
        } else {
            assert(final(out)@ =~= old(out)@ + dec_digits(n as int / 10).push(
                digit_char(n as int % 10),
            ));
        }
    }
}

/// The wording used for each expectation in messages.
pub open spec fn expected_text(e: Expected) -> Seq<char> {
    match e {
        Expected::TypeKeyword => "a type keyword"@,
        Expected::Identifier => "an identifier"@,
        Expected::OParen => "'('"@,
        Expected::CParen => "')'"@,
        Expected::OBrace => "'{'"@,
        Expected::Semicolon => "';'"@,
        Expected::Equals => "'='"@,
        Expected::ExprStart => "an expression"@,
        Expected::ArgStart => "a string literal or an expression"@,
        Expected::CommaOrCParen => "',' or ')'"@,
        Expected::StatementOrCBrace => "a statement or '}'"@,
    }
}

/// The full user-facing text of a syntax error.
pub open spec fn spec_message(e: ParseError) -> Seq<char> {
    match e {
        ParseError::UnexpectedEof { position, expected } => "Unexpected end of input at position "@
            + dec_digits(position as int) + ". Expected: "@ + expected_text(expected),
        ParseError::UnexpectedToken { position, expected } => "Unexpected token at position "@
            + dec_digits(position as int) + ". Expected: "@ + expected_text(expected),
        ParseError::ExtraToken { position } => "Extra token at position "@ + dec_digits(
            position as int,
        ),
    }
}

fn expected_str(e: Expected) -> (r: &'static str)
    ensures
        r@ == expected_text(e),
{
    match e {
        Expected::TypeKeyword => "a type keyword",
        Expected::Identifier => "an identifier",
        Expected::OParen => "'('",
        Expected::CParen => "')'",
        Expected::OBrace => "'{'",
        Expected::Semicolon => "';'",
        Expected::Equals => "'='",
        Expected::ExprStart => "an expression",
        Expected::ArgStart => "a string literal or an expression",
        Expected::CommaOrCParen => "',' or ')'",
        Expected::StatementOrCBrace => "a statement or '}'",
    }
}

impl ParseError {
    /// The descriptive, positional text of this error.
    pub fn message(&self) -> (r: String)
        ensures
            r@ == spec_message(*self),
    {
        match self {
            ParseError::UnexpectedEof { position, expected } => {
                let mut out = String::from_str("Unexpected end of input at position ");
                push_decimal(&mut out, *position);
                out.append(". Expected: ");
                out.append(expected_str(*expected));
                out
            },
            ParseError::UnexpectedToken { position, expected } => {
                let mut out = String::from_str("Unexpected token at position ");
                push_decimal(&mut out, *position);
                out.append(". Expected: ");
                out.append(expected_str(*expected));
                out
            },
            ParseError::ExtraToken { position } => {
                let mut out = String::from_str("Extra token at position ");
                push_decimal(&mut out, *position);
                out
            },
        }
    }
}


} // verus!
