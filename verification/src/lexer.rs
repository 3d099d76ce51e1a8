//! The lexer: turns raw source text into an ordered sequence of classified
//! tokens by a left-to-right, maximal-munch scan.
//!
//! Scanning precedence at each position: `#`-header directive, then
//! keyword/identifier, then numeric literal, then string literal, then
//! single-character operator or punctuation. Whitespace produces no token.
//! Tokenization is total: a span that matches no class (including a numeric
//! literal whose value does not fit the 32-bit range) is consumed silently
//! and produces no token, leaving a lexical gap that surfaces as a parse
//! error downstream.

use vstd::prelude::*;
use vstd::string::*;

use crate::ast::FloatLit;

verus! {

/// A classified lexical unit.
#[derive(Debug, PartialEq)]
pub enum Token {
    /// Keyword `int`.
    Int,
    /// Keyword `float`.
    Float,
    /// Keyword `return`.
    Return,
    /// Keyword `printf`.
    Printf,
    /// Keyword `scanf`.
    Scanf,
    /// An identifier: a letter or `_` followed by letters, digits or `_`.
    Identifier(String),
    /// An integer literal with a 32-bit signed value.
    IntLiteral(i32),
    /// A float literal in exact decimal form.
    FloatLiteral(FloatLit),
    /// A `#`-header directive: the path, and `true` for the angle-bracket
    /// form or `false` for the quoted form.
    Header(String, bool),
    /// A double-quoted string literal; carries the unescaped contents.
    StringLiteral(String),
    Plus,
    Minus,
    Star,
    FSlash,
    Equals,
    Semicolon,
    Colon,
    Comma,
    OParen,
    CParen,
    OBrace,
    CBrace,
}

/// The mathematical shadow of `Token`: identical shape, with string
/// payloads abstracted to character sequences.
pub ghost enum TokenV {
    Int,
    Float,
    Return,
    Printf,
    Scanf,
    Identifier(Seq<char>),
    IntLiteral(i32),
    FloatLiteral(FloatLit),
    Header(Seq<char>, bool),
    StringLiteral(Seq<char>),
    Plus,
    Minus,
    Star,
    FSlash,
    Equals,
    Semicolon,
    Colon,
    Comma,
    OParen,
    CParen,
    OBrace,
    CBrace,
}

impl View for Token {
    type V = TokenV;

    open spec fn view(&self) -> TokenV {
        match self {
            Token::Int => TokenV::Int,
            Token::Float => TokenV::Float,
            Token::Return => TokenV::Return,
            Token::Printf => TokenV::Printf,
            Token::Scanf => TokenV::Scanf,
            Token::Identifier(s) => TokenV::Identifier(s@),
            Token::IntLiteral(v) => TokenV::IntLiteral(*v),
            Token::FloatLiteral(f) => TokenV::FloatLiteral(*f),
            Token::Header(p, a) => TokenV::Header(p@, *a),
            Token::StringLiteral(s) => TokenV::StringLiteral(s@),
            Token::Plus => TokenV::Plus,
            Token::Minus => TokenV::Minus,
            Token::Star => TokenV::Star,
            Token::FSlash => TokenV::FSlash,
            Token::Equals => TokenV::Equals,
            Token::Semicolon => TokenV::Semicolon,
            Token::Colon => TokenV::Colon,
            Token::Comma => TokenV::Comma,
            Token::OParen => TokenV::OParen,
            Token::CParen => TokenV::CParen,
            Token::OBrace => TokenV::OBrace,
            Token::CBrace => TokenV::CBrace,
        }
    }
}

impl DeepView for Token {
    type V = TokenV;

    open spec fn deep_view(&self) -> TokenV {
        self.view()
    }
}

// ---------------------------------------------------------------------------
// Character classes
// ---------------------------------------------------------------------------

/// Whitespace: space, tab, newline, form feed.
pub open spec fn is_ws_char(c: char) -> bool {
    c == ' ' || c == '\t' || c == '\n' || c == '\x0C'
}

/// A decimal digit.
pub open spec fn is_digit_char(c: char) -> bool {
    48 <= c as u32 && c as u32 <= 57
}

/// A character that may start an identifier: a letter or `_`.
pub open spec fn is_ident_start_char(c: char) -> bool {
    (65 <= c as u32 && c as u32 <= 90) || (97 <= c as u32 && c as u32 <= 122) || c == '_'
}

/// A character that may continue an identifier.
pub open spec fn is_ident_cont_char(c: char) -> bool {
    is_ident_start_char(c) || is_digit_char(c)
}

/// The decoded form of a string-literal escape character, if valid.
pub open spec fn esc_char(c: char) -> Option<char> {
    if c == '"' {
        Some('"')
    } else if c == '\\' {
        Some('\\')
    } else if c == 'n' {
        Some('\n')
    } else if c == 't' {
        Some('\t')
    } else {
        None
    }
}

/// The token denoted by a single operator or punctuation character.
pub open spec fn single_token(c: char) -> Option<TokenV> {
    if c == '+' {
        Some(TokenV::Plus)
    } else if c == '-' {
        Some(TokenV::Minus)
    } else if c == '*' {
        Some(TokenV::Star)
    } else if c == '/' {
        Some(TokenV::FSlash)
    } else if c == '=' {
        Some(TokenV::Equals)
    } else if c == ';' {
        Some(TokenV::Semicolon)
    } else if c == ':' {
        Some(TokenV::Colon)
    } else if c == ',' {
        Some(TokenV::Comma)
    } else if c == '(' {
        Some(TokenV::OParen)
    } else if c == ')' {
        Some(TokenV::CParen)
    } else if c == '{' {
        Some(TokenV::OBrace)
    } else if c == '}' {
        Some(TokenV::CBrace)
    } else {
        None
    }
}

/// The keyword token for an identifier-shaped word, if it is reserved.
pub open spec fn keyword_token(w: Seq<char>) -> Option<TokenV> {
    if w == seq!['i', 'n', 't'] {
        Some(TokenV::Int)
    } else if w == seq!['f', 'l', 'o', 'a', 't'] {
        Some(TokenV::Float)
    } else if w == seq!['r', 'e', 't', 'u', 'r', 'n'] {
        Some(TokenV::Return)
    } else if w == seq!['p', 'r', 'i', 'n', 't', 'f'] {
        Some(TokenV::Printf)
    } else if w == seq!['s', 'c', 'a', 'n', 'f'] {
        Some(TokenV::Scanf)
    } else {
        None
    }
}

// ---------------------------------------------------------------------------
// Scanning helpers (specification)
// ---------------------------------------------------------------------------

/// The end of the identifier run that starts at `i`: the first index at or
/// after `i` whose character does not continue an identifier.
pub open spec fn ident_end(s: Seq<char>, i: int) -> int
    decreases s.len() - i,
{
    if 0 <= i < s.len() && is_ident_cont_char(s[i]) {
        ident_end(s, i + 1)
    } else {
        i
    }
}

/// The end of the digit run that starts at `i`.
pub open spec fn digits_end(s: Seq<char>, i: int) -> int
    decreases s.len() - i,
{
    if 0 <= i < s.len() && is_digit_char(s[i]) {
        digits_end(s, i + 1)
    } else {
        i
    }
}

/// The end of the run of spaces and tabs that starts at `i`.
pub open spec fn hspace_end(s: Seq<char>, i: int) -> int
    decreases s.len() - i,
{
    if 0 <= i < s.len() && (s[i] == ' ' || s[i] == '\t') {
        hspace_end(s, i + 1)
    } else {
        i
    }
}

/// The first index at or after `i` holding `stop`, or the length of `s`.
pub open spec fn scan_to(s: Seq<char>, i: int, stop: char) -> int
    decreases s.len() - i,
{
    if 0 <= i < s.len() {
        if s[i] == stop {
            i
        } else {
            scan_to(s, i + 1, stop)
        }
    } else {
        s.len() as int
    }
}

/// The value of the digit run `s[i..j)` read as a decimal number.
pub open spec fn digits_val(s: Seq<char>, i: int, j: int) -> int
    decreases j - i,
{
    if j <= i {
        0
    } else {
        digits_val(s, i, j - 1) * 10 + ((s[j - 1] as u32) as int - 48)
    }
}

/// Scans the inside of a string literal from `j` (just past the opening
/// quote): yields the unescaped contents and the index just past the
/// closing quote, or `None` for an unterminated literal or invalid escape.
pub open spec fn str_scan(s: Seq<char>, j: int) -> Option<(Seq<char>, int)>
    decreases s.len() - j,
{
    if j < 0 || j >= s.len() {
        None
    } else if s[j] == '"' {
        Some((seq![], j + 1))
    } else if s[j] == '\\' {
        if j + 1 < s.len() {
            match esc_char(s[j + 1]) {
                Some(c) => match str_scan(s, j + 2) {
                    Some(r) => Some((seq![c] + r.0, r.1)),
                    None => None,
                },
                None => None,
            }
        } else {
            None
        }
    } else {
        match str_scan(s, j + 1) {
            Some(r) => Some((seq![s[j]] + r.0, r.1)),
            None => None,
        }
    }
}

// ---------------------------------------------------------------------------
// One scanning step (specification)
// ---------------------------------------------------------------------------

/// One step at a `#` character: a header directive, or a one-character gap.
pub open spec fn header_step(s: Seq<char>, i: int) -> (Option<TokenV>, int) {
    if i + 8 <= s.len() && s[i + 1] == 'i' && s[i + 2] == 'n' && s[i + 3] == 'c' && s[i + 4]
        == 'l' && s[i + 5] == 'u' && s[i + 6] == 'd' && s[i + 7] == 'e' {
        let m = hspace_end(s, i + 8);
        if m < s.len() && s[m] == '<' {
            let e = scan_to(s, m + 1, '>');
            if e < s.len() && m + 1 < e {
                (Some(TokenV::Header(s.subrange(m + 1, e), true)), e + 1)
            } else {
                (None, i + 1)
            }
        } else if m < s.len() && s[m] == '"' {
            let e = scan_to(s, m + 1, '"');
            if e < s.len() && m + 1 < e {
                (Some(TokenV::Header(s.subrange(m + 1, e), false)), e + 1)
            } else {
                (None, i + 1)
            }
        } else {
            (None, i + 1)
        }
    } else {
        (None, i + 1)
    }
}

/// One step at a digit: an integer or float literal, or a gap covering the
/// whole numeric span when its value does not fit 32 bits.
pub open spec fn number_step(s: Seq<char>, i: int) -> (Option<TokenV>, int) {
    let j = digits_end(s, i);
    if j + 1 < s.len() && s[j] == '.' && is_digit_char(s[j + 1]) {
        let k = digits_end(s, j + 1);
        let whole = digits_val(s, i, j);
        let frac = digits_val(s, j + 1, k);
        let flen = k - (j + 1);
        if whole <= u32::MAX && flen <= 9 && frac <= u32::MAX {
            (
                Some(
                    TokenV::FloatLiteral(
                        FloatLit {
                            whole: whole as u32,
                            frac: frac as u32,
                            frac_len: flen as u32,
                        },
                    ),
                ),
                k,
            )
        } else {
            (None, k)
        }
    } else {
        let v = digits_val(s, i, j);
        if v <= i32::MAX {
            (Some(TokenV::IntLiteral(v as i32)), j)
        } else {
            (None, j)
        }
    }
}

/// One step at a double quote: a string literal, or a one-character gap.
pub open spec fn string_step(s: Seq<char>, i: int) -> (Option<TokenV>, int) {
    match str_scan(s, i + 1) {
        Some(r) => (Some(TokenV::StringLiteral(r.0)), r.1),
        None => (None, i + 1),
    }
}

/// One maximal-munch scanning step at position `i`: the token produced
/// there, if any, and the position the scan resumes from.
pub open spec fn spec_step(s: Seq<char>, i: int) -> (Option<TokenV>, int) {
    if !(0 <= i < s.len()) {
        (None, i + 1)
    } else {
        let c = s[i];
        if is_ws_char(c) {
            (None, i + 1)
        } else if c == '#' {
            header_step(s, i)
        } else if is_ident_start_char(c) {
            let j = ident_end(s, i);
            let w = s.subrange(i, j);
            match keyword_token(w) {
                Some(t) => (Some(t), j),
                None => (Some(TokenV::Identifier(w)), j),
            }
        } else if is_digit_char(c) {
            number_step(s, i)
        } else if c == '"' {
            string_step(s, i)
        } else {
            match single_token(c) {
                Some(t) => (Some(t), i + 1),
                None => (None, i + 1),
            }
        }
    }
}

/// The token sequence produced by scanning `s` from position `i` onward.
pub open spec fn spec_lex(s: Seq<char>, i: int) -> Seq<TokenV>
    decreases s.len() - i,
{
    if i < 0 || i >= s.len() {
        seq![]
    } else {
        let r = spec_step(s, i);
        let j = if r.1 <= s.len() {
            r.1
        } else {
            s.len() as int
        };
        if j <= i {
            seq![]
        } else {
            match r.0 {
                Some(tok) => seq![tok] + spec_lex(s, j),
                None => spec_lex(s, j),
            }
        }
    }
}

// ---------------------------------------------------------------------------
// Executable lexer
// ---------------------------------------------------------------------------

/// Relies on `String::push` from std: appends the given character to the
/// end of the string.
#[verifier::external_body]
pub(crate) fn push_char(s: &mut String, c: char)
    ensures
        final(s)@ == old(s)@.push(c),
{
    s.push(c);
}

fn is_ws(c: char) -> (r: bool)
    ensures
        r == is_ws_char(c),
{
    c == ' ' || c == '\t' || c == '\n' || c == '\x0C'
}

fn is_digit(c: char) -> (r: bool)
    ensures
        r == is_digit_char(c),
{
    48 <= c as u32 && c as u32 <= 57
}

fn is_ident_start(c: char) -> (r: bool)
    ensures
        r == is_ident_start_char(c),
{
    (65 <= c as u32 && c as u32 <= 90) || (97 <= c as u32 && c as u32 <= 122) || c == '_'
}

fn is_ident_cont(c: char) -> (r: bool)
    ensures
        r == is_ident_cont_char(c),
{
    is_ident_start(c) || is_digit(c)
}

fn scan_ident_end(source: &str, n: usize, i: usize) -> (j: usize)
    requires
        n == source@.len(),
        i <= n,
    ensures
        j == ident_end(source@, i as int),
        i <= j <= n,
{
    let mut j = i;
    while j < n && is_ident_cont(source.get_char(j))
        invariant
            n == source@.len(),
            i <= j <= n,
            ident_end(source@, i as int) == ident_end(source@, j as int),
        decreases n - j,
    {
        j = j + 1;
    }
    j
}

fn scan_digits_end(source: &str, n: usize, i: usize) -> (j: usize)
    requires
        n == source@.len(),
        i <= n,
    ensures
        j == digits_end(source@, i as int),
        i <= j <= n,
        forall|t: int| i <= t < j ==> is_digit_char(source@[t]),
{
    let mut j = i;
    while j < n && is_digit(source.get_char(j))
        invariant
            n == source@.len(),
            i <= j <= n,
            digits_end(source@, i as int) == digits_end(source@, j as int),
            forall|t: int| i <= t < j ==> is_digit_char(source@[t]),
        decreases n - j,
    {
        j = j + 1;
    }
    j
}

fn scan_hspace_end(source: &str, n: usize, i: usize) -> (j: usize)
    requires
        n == source@.len(),
        i <= n,
    ensures
        j == hspace_end(source@, i as int),
        i <= j <= n,
{
    let mut j = i;
    while j < n && (source.get_char(j) == ' ' || source.get_char(j) == '\t')
        invariant
            n == source@.len(),
            i <= j <= n,
            hspace_end(source@, i as int) == hspace_end(source@, j as int),
        decreases n - j,
    {
        j = j + 1;
    }
    j
}

fn scan_to_char(source: &str, n: usize, i: usize, stop: char) -> (j: usize)
    requires
        n == source@.len(),
        i <= n,
    ensures
        j == scan_to(source@, i as int, stop),
        i <= j <= n,
{
    let mut j = i;
    while j < n && source.get_char(j) != stop
        invariant
            n == source@.len(),
            i <= j <= n,
            scan_to(source@, i as int, stop) == scan_to(source@, j as int, stop),
        decreases n - j,
    {
        j = j + 1;
    }
    j
}

/// Every digit run has a nonnegative value.
proof fn lemma_digits_val_nonneg(s: Seq<char>, i: int, j: int)
    requires
        0 <= i,
        forall|t: int| i <= t < j ==> is_digit_char(s[t]),
    ensures
        digits_val(s, i, j) >= 0,
    decreases j - i,
{
    if j > i {
        lemma_digits_val_nonneg(s, i, j - 1);
        assert(is_digit_char(s[j - 1]));
    }
}

/// Extending a digit run never decreases its value.
proof fn lemma_digits_val_mono(s: Seq<char>, i: int, k: int, j: int)
    requires
        0 <= i <= k <= j,
        forall|t: int| i <= t < j ==> is_digit_char(s[t]),
    ensures
        digits_val(s, i, k) <= digits_val(s, i, j),
    decreases j - k,
{
    if k < j {
        lemma_digits_val_mono(s, i, k, j - 1);
        lemma_digits_val_nonneg(s, i, j - 1);
        assert(is_digit_char(s[j - 1]));
    }
}

/// The identifier run ends at or after its start.
proof fn lemma_ident_end_ge(s: Seq<char>, i: int)
    ensures
        ident_end(s, i) >= i,
    decreases s.len() - i,
{
    if 0 <= i < s.len() && is_ident_cont_char(s[i]) {
        lemma_ident_end_ge(s, i + 1);
    }
}

/// The digit run ends at or after its start.
proof fn lemma_digits_end_ge(s: Seq<char>, i: int)
    ensures
        digits_end(s, i) >= i,
    decreases s.len() - i,
{
    if 0 <= i < s.len() && is_digit_char(s[i]) {
        lemma_digits_end_ge(s, i + 1);
    }
}

/// The value of the digit run `source[i..j)`, or `None` when it exceeds
/// the 32-bit unsigned range.
fn digits_value(source: &str, n: usize, i: usize, j: usize) -> (r: Option<u32>)
    requires
        n == source@.len(),
        i <= j <= n,
        forall|t: int| i <= t < j ==> is_digit_char(source@[t]),
    ensures
        match r {
            Some(v) => digits_val(source@, i as int, j as int) == v as int,
            None => digits_val(source@, i as int, j as int) > u32::MAX,
        },
{
    let mut acc: u64 = 0;
    let mut k = i;
    while k < j
        invariant
            n == source@.len(),
            i <= k <= j <= n,
            forall|t: int| i <= t < j ==> is_digit_char(source@[t]),
            acc as int == digits_val(source@, i as int, k as int),
            acc <= u32::MAX,
        decreases j - k,
    {
        let d = source.get_char(k);
        assert(is_digit_char(source@[k as int]));
        let dv: u64 = (d as u32) as u64 - 48;
        let acc2: u64 = acc * 10 + dv;
        if acc2 > u32::MAX as u64 {
            proof {
                lemma_digits_val_mono(source@, i as int, k as int + 1, j as int);
            }
            return None;
        }
        acc = acc2;
        k = k + 1;
    }
    Some(acc as u32)
}

fn keyword_of(source: &str, i: usize, j: usize) -> (r: Option<Token>)
    requires
        i <= j <= source@.len(),
    ensures
        match r {
            Some(t) => keyword_token(source@.subrange(i as int, j as int)) == Some(t@),
            None => keyword_token(source@.subrange(i as int, j as int)) is None,
        },
{
    let ghost w = source@.subrange(i as int, j as int);
    let len = j - i;
    if len == 3 && source.get_char(i) == 'i' && source.get_char(i + 1) == 'n' && source.get_char(
        i + 2,
    ) == 't' {
        proof {
            assert(w =~= seq!['i', 'n', 't']);
        }
        Some(Token::Int)
    } else if len == 5 && source.get_char(i) == 'f' && source.get_char(i + 1) == 'l'
        && source.get_char(i + 2) == 'o' && source.get_char(i + 3) == 'a' && source.get_char(i + 4)
        == 't' {
        proof {
            assert(w =~= seq!['f', 'l', 'o', 'a', 't']);
        }
        Some(Token::Float)
    } else if len == 5 && source.get_char(i) == 's' && source.get_char(i + 1) == 'c'
        && source.get_char(i + 2) == 'a' && source.get_char(i + 3) == 'n' && source.get_char(i + 4)
        == 'f' {
        proof {
            assert(w =~= seq!['s', 'c', 'a', 'n', 'f']);
        }
        Some(Token::Scanf)
    } else if len == 6 && source.get_char(i) == 'r' && source.get_char(i + 1) == 'e'
        && source.get_char(i + 2) == 't' && source.get_char(i + 3) == 'u' && source.get_char(i + 4)
        == 'r' && source.get_char(i + 5) == 'n' {
        proof {
            assert(w =~= seq!['r', 'e', 't', 'u', 'r', 'n']);
        }
        Some(Token::Return)
    } else if len == 6 && source.get_char(i) == 'p' && source.get_char(i + 1) == 'r'
        && source.get_char(i + 2) == 'i' && source.get_char(i + 3) == 'n' && source.get_char(i + 4)
        == 't' && source.get_char(i + 5) == 'f' {
        proof {
            assert(w =~= seq!['p', 'r', 'i', 'n', 't', 'f']);
        }
        Some(Token::Printf)
    } else {
        proof {
            assert(w.len() == j - i);
        }
        None
    }
}

fn single_of(c: char) -> (r: Option<Token>)
    ensures
        match r {
            Some(t) => single_token(c) == Some(t@),
            None => single_token(c) is None,
        },
{
    if c == '+' {
        Some(Token::Plus)
    } else if c == '-' {
        Some(Token::Minus)
    } else if c == '*' {
        Some(Token::Star)
    } else if c == '/' {
        Some(Token::FSlash)
    } else if c == '=' {
        Some(Token::Equals)
    } else if c == ';' {
        Some(Token::Semicolon)
    } else if c == ':' {
        Some(Token::Colon)
    } else if c == ',' {
        Some(Token::Comma)
    } else if c == '(' {
        Some(Token::OParen)
    } else if c == ')' {
        Some(Token::CParen)
    } else if c == '{' {
        Some(Token::OBrace)
    } else if c == '}' {
        Some(Token::CBrace)
    } else {
        None
    }
}

/// Scans the inside of a string literal, decoding escapes.
fn scan_string(source: &str, n: usize, j: usize) -> (r: Option<(String, usize)>)
    requires
        n == source@.len(),
        j <= n,
    ensures
        match r {
            Some(p) => {
                &&& str_scan(source@, j as int) == Some((p.0@, p.1 as int))
                &&& j < p.1 <= n
            },
            None => str_scan(source@, j as int) is None,
        },
    decreases n - j,
{
    if j >= n {
        None
    } else {
        let c = source.get_char(j);
        if c == '"' {
            let out = String::new();
            proof {
                assert(out@ =~= Seq::<char>::empty());
            }
            Some((out, j + 1))
        } else if c == '\\' {
            if j + 1 < n {
                let d = source.get_char(j + 1);
                let dec = if d == '"' {
                    Some('"')
                } else if d == '\\' {
                    Some('\\')
                } else if d == 'n' {
                    Some('\n')
                } else if d == 't' {
                    Some('\t')
                } else {
                    None
                };
                assert(dec == esc_char(source@[j as int + 1]));
                match dec {
                    Some(dc) => match scan_string(source, n, j + 2) {
                        Some((rest, e)) => {
                            let mut out = String::new();
                            push_char(&mut out, dc);
                            out.append(rest.as_str());
                            proof {
                                assert(out@ =~= seq![dc] + rest@);
                            }
                            Some((out, e))
                        },
                        None => None,
                    },
                    None => None,
                }
            } else {
                None
            }
        } else {
            match scan_string(source, n, j + 1) {
                Some((rest, e)) => {
                    let mut out = String::new();
                    push_char(&mut out, c);
                    out.append(rest.as_str());
                    proof {
                        assert(out@ =~= seq![c] + rest@);
                    }
                    Some((out, e))
                },
                None => None,
            }
        }
    }
}

/// One executable scanning step, mirroring `spec_step`.
fn next_step(source: &str, n: usize, i: usize) -> (r: (Option<Token>, usize))
    requires
        n == source@.len(),
        i < n,
    ensures
        ({
            let s = spec_step(source@, i as int);
            &&& r.1 == s.1
            &&& i < r.1 <= n
            &&& match r.0 {
                Some(tok) => s.0 == Some(tok@),
                None => s.0 is None,
            }
        }),
{
    let c = source.get_char(i);
    if is_ws(c) {
        (None, i + 1)
    } else if c == '#' {
        if n - i >= 8 && source.get_char(i + 1) == 'i' && source.get_char(i + 2) == 'n'
            && source.get_char(i + 3) == 'c' && source.get_char(i + 4) == 'l' && source.get_char(
            i + 5,
        ) == 'u' && source.get_char(i + 6) == 'd' && source.get_char(i + 7) == 'e' {
            let m = scan_hspace_end(source, n, i + 8);
            if m < n && source.get_char(m) == '<' {
                let e = scan_to_char(source, n, m + 1, '>');
                if e < n && m + 1 < e {
                    let p = source.substring_char(m + 1, e);
                    (Some(Token::Header(String::from_str(p), true)), e + 1)
                } else {
                    (None, i + 1)
                }
            } else if m < n && source.get_char(m) == '"' {
                let e = scan_to_char(source, n, m + 1, '"');
                if e < n && m + 1 < e {
                    let p = source.substring_char(m + 1, e);
                    (Some(Token::Header(String::from_str(p), false)), e + 1)
                } else {
                    (None, i + 1)
                }
            } else {
                (None, i + 1)
            }
        } else {
            (None, i + 1)
        }
    } else if is_ident_start(c) {
        let j = scan_ident_end(source, n, i);
        assert(j > i) by {
            assert(is_ident_cont_char(source@[i as int]));
            lemma_ident_end_ge(source@, i as int + 1);
        }
        match keyword_of(source, i, j) {
            Some(t) => (Some(t), j),
            None => {
                let w = source.substring_char(i, j);
                (Some(Token::Identifier(String::from_str(w))), j)
            },
        }
    } else if is_digit(c) {
        let j = scan_digits_end(source, n, i);
        assert(j > i) by {
            assert(is_digit_char(source@[i as int]));
            lemma_digits_end_ge(source@, i as int + 1);
        }
        let is_float = n - j >= 2 && source.get_char(j) == '.' && is_digit(source.get_char(j + 1));
        if is_float {
            let k = scan_digits_end(source, n, j + 1);
            let flen = k - (j + 1);
            match digits_value(source, n, i, j) {
                Some(whole) => {
                    if flen <= 9 {
                        match digits_value(source, n, j + 1, k) {
                            Some(frac) => (
                                Some(
                                    Token::FloatLiteral(
                                        FloatLit { whole, frac, frac_len: flen as u32 },
                                    ),
                                ),
                                k,
                            ),
                            None => (None, k),
                        }
                    } else {
                        (None, k)
                    }
                },
                None => (None, k),
            }
        } else {
            match digits_value(source, n, i, j) {
                Some(v) => {
                    if v <= 0x7fff_ffff {
                        (Some(Token::IntLiteral(v as i32)), j)
                    } else {
                        (None, j)
                    }
                },
                None => (None, j),
            }
        }
    } else if c == '"' {
        match scan_string(source, n, i + 1) {
            Some((content, e)) => (Some(Token::StringLiteral(content)), e),
            None => (None, i + 1),
        }
    } else {
        match single_of(c) {
            Some(t) => (Some(t), i + 1),
            None => (None, i + 1),
        }
    }
}

/// Converts source text into its token sequence by a left-to-right
/// maximal-munch scan; never fails, and skips whitespace and lexical gaps.
pub fn tokenize(source: &str) -> (r: Vec<Token>)
    ensures
        r.deep_view() == spec_lex(source@, 0),
{
    let n = source.unicode_len();
    let mut out: Vec<Token> = Vec::new();
    let mut i: usize = 0;
    while i < n
        invariant
            n == source@.len(),
            i <= n,
            spec_lex(source@, 0) == out.deep_view() + spec_lex(source@, i as int),
        decreases n - i,
    {
        let ghost prev = out.deep_view();
        let (t, j) = next_step(source, n, i);
        proof {
            let s = spec_step(source@, i as int);
            assert(spec_lex(source@, i as int) == match s.0 {
                Some(tok) => seq![tok] + spec_lex(source@, j as int),
                None => spec_lex(source@, j as int),
            });
        }
        match t {
            Some(tok) => {
                out.push(tok);
                proof {
                    assert(out.deep_view() =~= prev.push(tok@));
                    assert(prev.push(tok@) + spec_lex(source@, j as int) =~= prev + spec_lex(
                        source@,
                        i as int,
                    ));
                }
            },
            None => {},
        }
        i = j;
    }
    proof {
        assert(spec_lex(source@, i as int) =~= seq![]);
        assert(out.deep_view() + spec_lex(source@, i as int) =~= out.deep_view());
    }
    out
}


// ---------------------------------------------------------------------------
// The round-trip law for keyword, operator and punctuation tokens
// ---------------------------------------------------------------------------

/// A token with a fixed spelling: a keyword, operator or punctuation
/// token, carrying no payload.
pub open spec fn plain_token(t: TokenV) -> bool {
    match t {
        TokenV::Int | TokenV::Float | TokenV::Return | TokenV::Printf | TokenV::Scanf
        | TokenV::Plus | TokenV::Minus | TokenV::Star | TokenV::FSlash | TokenV::Equals
        | TokenV::Semicolon | TokenV::Colon | TokenV::Comma | TokenV::OParen | TokenV::CParen
        | TokenV::OBrace | TokenV::CBrace => true,
        _ => false,
    }
}

/// The spelling of a plain token.
pub open spec fn token_text(t: TokenV) -> Seq<char> {
    match t {
        TokenV::Int => seq!['i', 'n', 't'],
        TokenV::Float => seq!['f', 'l', 'o', 'a', 't'],
        TokenV::Return => seq!['r', 'e', 't', 'u', 'r', 'n'],
        TokenV::Printf => seq!['p', 'r', 'i', 'n', 't', 'f'],
        TokenV::Scanf => seq!['s', 'c', 'a', 'n', 'f'],
        TokenV::Plus => seq!['+'],
        TokenV::Minus => seq!['-'],
        TokenV::Star => seq!['*'],
        TokenV::FSlash => seq!['/'],
        TokenV::Equals => seq!['='],
        TokenV::Semicolon => seq![';'],
        TokenV::Colon => seq![':'],
        TokenV::Comma => seq![','],
        TokenV::OParen => seq!['('],
        TokenV::CParen => seq![')'],
        TokenV::OBrace => seq!['{'],
        TokenV::CBrace => seq!['}'],
        _ => seq![],
    }
}

/// The canonical rendering of a token sequence: each token's spelling
/// followed by one space.
pub open spec fn render(ts: Seq<TokenV>) -> Seq<char>
    decreases ts.len(),
{
    if ts.len() == 0 {
        seq![]
    } else {
        token_text(ts[0]) + seq![' '] + render(ts.drop_first())
    }
}

/// One scanning step over the rendering of a plain token yields exactly
/// that token and stops at the space after it.
proof fn lemma_step_plain(s: Seq<char>, i: int, t: TokenV, rest: Seq<char>)
    requires
        0 <= i <= s.len(),
        plain_token(t),
        s.subrange(i, s.len() as int) == token_text(t) + seq![' '] + rest,
    ensures
        spec_step(s, i) == (Some(t), i + token_text(t).len()),
        i + token_text(t).len() < s.len(),
        s[i + token_text(t).len()] == ' ',
{
    reveal_with_fuel(ident_end, 8);
    let suf = s.subrange(i, s.len() as int);
    let text = token_text(t);
    let tl = text.len() as int;
    assert(s.len() == i + suf.len());
    assert forall|k: int| 0 <= k < suf.len() implies s[i + k] == suf[k] by {
        assert(suf[k] == s[i + k]);
    }
    assert(suf[tl] == ' ');
    assert forall|k: int| 0 <= k < tl implies s[i + k] == text[k] by {
        assert(suf[k] == text[k]);
    }
    match t {
        TokenV::Int => {
            assert(s[i] == 'i' && s[i + 1] == 'n' && s[i + 2] == 't');
            assert(ident_end(s, i + 3) == i + 3);
            assert(ident_end(s, i) == i + 3);
            assert(s.subrange(i, i + 3) =~= seq!['i', 'n', 't']);
        },
        TokenV::Float => {
            assert(s[i] == 'f' && s[i + 1] == 'l' && s[i + 2] == 'o' && s[i + 3] == 'a' && s[i + 4]
                == 't');
            assert(ident_end(s, i + 5) == i + 5);
            assert(ident_end(s, i) == i + 5);
            assert(s.subrange(i, i + 5) =~= seq!['f', 'l', 'o', 'a', 't']);
            assert(s.subrange(i, i + 5) != seq!['i', 'n', 't']);
        },
        TokenV::Return => {
            assert(s[i] == 'r' && s[i + 1] == 'e' && s[i + 2] == 't' && s[i + 3] == 'u' && s[i + 4]
                == 'r' && s[i + 5] == 'n');
            assert(ident_end(s, i + 6) == i + 6);
            assert(ident_end(s, i) == i + 6);
            assert(s.subrange(i, i + 6) =~= seq!['r', 'e', 't', 'u', 'r', 'n']);
        },
        TokenV::Printf => {
            assert(s[i] == 'p' && s[i + 1] == 'r' && s[i + 2] == 'i' && s[i + 3] == 'n' && s[i + 4]
                == 't' && s[i + 5] == 'f');
            assert(ident_end(s, i + 6) == i + 6);
            assert(ident_end(s, i) == i + 6);
            assert(s.subrange(i, i + 6) =~= seq!['p', 'r', 'i', 'n', 't', 'f']);
            assert(s.subrange(i, i + 6) != seq!['r', 'e', 't', 'u', 'r', 'n']);
        },
        TokenV::Scanf => {
            assert(s[i] == 's' && s[i + 1] == 'c' && s[i + 2] == 'a' && s[i + 3] == 'n' && s[i + 4]
                == 'f');
            assert(ident_end(s, i + 5) == i + 5);
            assert(ident_end(s, i) == i + 5);
            assert(s.subrange(i, i + 5) =~= seq!['s', 'c', 'a', 'n', 'f']);
            assert(s.subrange(i, i + 5) != seq!['f', 'l', 'o', 'a', 't']);
        },
        _ => {
            assert(s[i] == text[0]);
        },
    }
}

/// Round trip: scanning the canonical rendering of any sequence of
/// keyword, operator and punctuation tokens reproduces exactly that
/// token sequence, in order, with no insertions or omissions.
pub proof fn lemma_lexer_round_trip(ts: Seq<TokenV>)
    requires
        forall|k: int| 0 <= k < ts.len() ==> plain_token(#[trigger] ts[k]),
    ensures
        spec_lex(render(ts), 0) == ts,
{
    let s = render(ts);
    assert(s.subrange(0, s.len() as int) =~= s);
    lemma_lex_render_from(s, ts, 0);
}

/// The generalized induction behind the round-trip law: if the suffix of
/// `s` at `i` is exactly the rendering of `ts`, scanning from `i` yields
/// `ts`.
proof fn lemma_lex_render_from(s: Seq<char>, ts: Seq<TokenV>, i: int)
    requires
        0 <= i <= s.len(),
        s.subrange(i, s.len() as int) == render(ts),
        forall|k: int| 0 <= k < ts.len() ==> plain_token(#[trigger] ts[k]),
    ensures
        spec_lex(s, i) == ts,
    decreases ts.len(),
{
    if ts.len() == 0 {
        assert(s.subrange(i, s.len() as int).len() == 0);
        assert(spec_lex(s, i) =~= ts);
    } else {
        let t0 = ts[0];
        let text = token_text(t0);
        let tl = text.len() as int;
        let rest = render(ts.drop_first());
        assert(render(ts) == text + seq![' '] + rest);
        lemma_step_plain(s, i, t0, rest);
        let j = i + tl;
        assert(spec_step(s, j) == (None::<TokenV>, j + 1));
        assert(spec_lex(s, j) == spec_lex(s, j + 1));
        let suf = s.subrange(i, s.len() as int);
        assert forall|k: int| 0 <= k < suf.len() implies s[i + k] == suf[k] by {
            assert(suf[k] == s[i + k]);
        }
        assert(s.subrange(j + 1, s.len() as int) =~= rest) by {
            assert(s.len() == i + suf.len());
            assert forall|k: int| 0 <= k < rest.len() implies s.subrange(
                j + 1,
                s.len() as int,
            )[k] == rest[k] by {
                assert(s.subrange(j + 1, s.len() as int)[k] == s[j + 1 + k]);
                assert(suf[tl + 1 + k] == rest[k]);
            }
        }
        assert(forall|k: int|
            0 <= k < ts.drop_first().len() ==> plain_token(#[trigger] ts.drop_first()[k]));
        lemma_lex_render_from(s, ts.drop_first(), j + 1);
        assert(tl >= 1);
        assert(spec_lex(s, i) == seq![t0] + spec_lex(s, j));
        assert(seq![t0] + ts.drop_first() =~= ts);
    }
}

} // verus!
