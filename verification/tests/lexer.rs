use minicc::ast::FloatLit;
use minicc::lexer::{tokenize, Token};

#[test]
fn minimal_program_tokens() {
    let toks = tokenize("int main() { return 0; }");
    assert_eq!(
        toks,
        vec![
            Token::Int,
            Token::Identifier("main".to_string()),
            Token::OParen,
            Token::CParen,
            Token::OBrace,
            Token::Return,
            Token::IntLiteral(0),
            Token::Semicolon,
            Token::CBrace,
        ]
    );
}

#[test]
fn keywords_take_priority_over_identifiers() {
    let toks = tokenize("intx int float return printf scanf foo_1");
    assert_eq!(
        toks,
        vec![
            Token::Identifier("intx".to_string()),
            Token::Int,
            Token::Float,
            Token::Return,
            Token::Printf,
            Token::Scanf,
            Token::Identifier("foo_1".to_string()),
        ]
    );
}

#[test]
fn keyword_operator_punctuation_round_trip() {
    // Re-deriving the keyword/operator/punctuation classes of a string with
    // no literals and no identifiers reproduces them in order, with no
    // insertions or omissions.
    let source = "int float return printf scanf + - * / = ; : , ( ) { }";
    let expected = vec![
        Token::Int,
        Token::Float,
        Token::Return,
        Token::Printf,
        Token::Scanf,
        Token::Plus,
        Token::Minus,
        Token::Star,
        Token::FSlash,
        Token::Equals,
        Token::Semicolon,
        Token::Colon,
        Token::Comma,
        Token::OParen,
        Token::CParen,
        Token::OBrace,
        Token::CBrace,
    ];
    assert_eq!(tokenize(source), expected);
    // The same classes glued to punctuation, without spaces where the
    // grammar allows it.
    assert_eq!(
        tokenize("int;float,(return)"),
        vec![
            Token::Int,
            Token::Semicolon,
            Token::Float,
            Token::Comma,
            Token::OParen,
            Token::Return,
            Token::CParen,
        ]
    );
}

#[test]
fn integer_and_float_literals() {
    assert_eq!(
        tokenize("12 3.25 2.50"),
        vec![
            Token::IntLiteral(12),
            Token::FloatLiteral(FloatLit { whole: 3, frac: 25, frac_len: 2 }),
            Token::FloatLiteral(FloatLit { whole: 2, frac: 50, frac_len: 2 }),
        ]
    );
    assert_eq!(tokenize("2147483647"), vec![Token::IntLiteral(2147483647)]);
}

#[test]
fn out_of_range_literal_is_a_silent_gap() {
    // The span is consumed whole but yields no token.
    assert_eq!(tokenize("2147483648 5"), vec![Token::IntLiteral(5)]);
    assert_eq!(tokenize("99999999999999999999 7"), vec![Token::IntLiteral(7)]);
}

#[test]
fn bare_dot_is_not_a_float() {
    // `3.` is an integer literal followed by a lexical gap for the dot.
    assert_eq!(tokenize("3."), vec![Token::IntLiteral(3)]);
    assert_eq!(tokenize("3. 4"), vec![Token::IntLiteral(3), Token::IntLiteral(4)]);
}

#[test]
fn string_literal_unescapes_contents() {
    let toks = tokenize("\"a\\n\\\"b\\\\c\\t\"");
    assert_eq!(toks, vec![Token::StringLiteral("a\n\"b\\c\t".to_string())]);
}

#[test]
fn unterminated_string_is_a_gap() {
    assert_eq!(tokenize("\"abc"), vec![Token::Identifier("abc".to_string())]);
}

#[test]
fn invalid_escape_is_a_gap() {
    // `\q` is not a valid escape, so the opening quote is a gap and the
    // rest is scanned on its own.
    let toks = tokenize("\"a\\qz");
    assert_eq!(
        toks,
        vec![Token::Identifier("a".to_string()), Token::Identifier("qz".to_string())]
    );
}

#[test]
fn header_directive_angle_form() {
    let src = format!("#{} <stdio.h>", "inclu\u{64}e");
    assert_eq!(tokenize(&src), vec![Token::Header("stdio.h".to_string(), true)]);
}

#[test]
fn header_directive_quoted_form() {
    let src = format!("#{}\"my.h\"", "inclu\u{64}e");
    assert_eq!(tokenize(&src), vec![Token::Header("my.h".to_string(), false)]);
}

#[test]
fn malformed_header_directive_is_a_gap() {
    // No path follows, so the `#` is a gap and the word after it is an
    // ordinary identifier.
    let word = format!("inclu{}e", "d");
    let src = format!("#{} ;", word);
    assert_eq!(
        tokenize(&src),
        vec![Token::Identifier(word), Token::Semicolon]
    );
}

#[test]
fn unknown_characters_are_gaps() {
    assert_eq!(
        tokenize("a @ $ b"),
        vec![Token::Identifier("a".to_string()), Token::Identifier("b".to_string())]
    );
}

#[test]
fn empty_input_gives_no_tokens() {
    assert_eq!(tokenize(""), Vec::<Token>::new());
    assert_eq!(tokenize(" \t\n"), Vec::<Token>::new());
}
