//! Value types for a parsed program: programs, functions, statements and
//! expressions, plus the exact decimal form in which float literals are
//! carried through the compiler.

use vstd::prelude::*;

verus! {

/// Declared numeric type of a variable, a function's return value, or an
/// IR value: a 4-byte signed integer or a 4-byte float.
#[derive(Clone, Copy, Debug, PartialEq, Eq, Structural)]
pub enum Type {
    Int,
    Float,
}

/// A float literal kept in exact decimal form: the denoted value is
/// `whole + frac / 10^frac_len`. `frac_len` counts the fractional digits
/// of the source text, so `2.50` and `2.5` stay distinguishable while
/// denoting the same value. Well-formed literals keep `frac_len <= 9`
/// and `frac < 10^frac_len`.
#[derive(Clone, Copy, Debug, PartialEq, Eq, Structural)]
pub struct FloatLit {
    pub whole: u32,
    pub frac: u32,
    pub frac_len: u32,
}

/// `10^n`.
pub open spec fn pow10(n: nat) -> nat
    decreases n,
{
    if n == 0 {
        1
    } else {
        10 * pow10((n - 1) as nat)
    }
}

/// Well-formedness of the decimal form of a float literal.
pub open spec fn float_lit_wf(f: FloatLit) -> bool {
    f.frac_len <= 9 && (f.frac as nat) < pow10(f.frac_len as nat)
}

/// An expression tree. String literals may appear only as `printf`
/// arguments; the code generator rejects them in value position.
#[derive(Debug, PartialEq)]
pub enum Expr {
    IntLiteral(i32),
    FloatLiteral(FloatLit),
    Variable(String),
    StringLiteral(String),
    Add(Box<Expr>, Box<Expr>),
    Sub(Box<Expr>, Box<Expr>),
    Mul(Box<Expr>, Box<Expr>),
    Div(Box<Expr>, Box<Expr>),
}

/// A statement. `Header(path)` records a `#`-header directive; it has no
/// code-generation effect but is kept for auditing and echoing.
#[derive(Debug, PartialEq)]
pub enum Statement {
    Header(String),
    Declare(Type, String, Expr),
    Assign(String, Expr),
    Return(Expr),
    Print(Vec<Expr>),
    Scan(Vec<Expr>),
}

/// A function: a declared return type, a name unique within its program,
/// and an ordered body. Functions take no parameters in this language.
#[derive(Debug, PartialEq)]
pub struct Function {
    pub return_type: Type,
    pub name: String,
    pub body: Vec<Statement>,
}

/// The root of a parsed program: header directives first, then functions,
/// both in source order.
#[derive(Debug, PartialEq)]
pub struct Program {
    pub headers: Vec<Statement>,
    pub functions: Vec<Function>,
}

/// The two argument forms `printf` accepts: a string literal or the name
/// of a declared variable.
#[derive(Debug, PartialEq)]
pub enum PrintArg {
    String(String),
    Identifier(String),
}

/// The `printf` argument form of an expression, if it has one.
pub open spec fn spec_print_arg_of(e: Expr) -> Option<PrintArg> {
    match e {
        Expr::StringLiteral(s) => Some(PrintArg::String(s)),
        Expr::Variable(n) => Some(PrintArg::Identifier(n)),
        _ => None,
    }
}

impl Expr {
    /// Classifies an expression as a `printf` argument: a string literal,
    /// an identifier, or neither.
    pub fn print_arg(&self) -> (r: Option<PrintArg>)
        ensures
            r == spec_print_arg_of(*self),
    {
        match self {
            Expr::StringLiteral(s) => Some(PrintArg::String(s.clone())),
            Expr::Variable(n) => Some(PrintArg::Identifier(n.clone())),
            _ => None,
        }
    }
}

} // verus!
