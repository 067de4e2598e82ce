use lexer::lexer::Lexer;
use lexer::token::Token;

fn tokens_of(input: &str) -> Vec<Token> {
    let mut lex = Lexer::new();
    lex.parse(input.into()).unwrap()
}

#[test]
fn lookahead_equal() {
    assert_eq!(tokens_of("=="), vec![Token::Equal]);
}

#[test]
fn lookahead_assign() {
    assert_eq!(tokens_of("="), vec![Token::Assign]);
}

#[test]
fn lookahead_not_equal() {
    assert_eq!(tokens_of("!="), vec![Token::NotEqual]);
}

#[test]
fn lookahead_bang() {
    assert_eq!(tokens_of("!"), vec![Token::Bang]);
}

#[test]
fn keyword_let() {
    assert_eq!(tokens_of("let"), vec![Token::Let]);
}

#[test]
fn keyword_extended_is_identifier() {
    assert_eq!(tokens_of("lets"), vec![Token::Ident("lets".into())]);
}

#[test]
fn digit_stops_identifier() {
    // The letter run ends at the digit; the text read is the keyword `let`
    // and the digit starts an integer literal of its own.
    assert_eq!(tokens_of("let5"), vec![Token::Let, Token::Int("5".into())]);
}

#[test]
fn digit_does_not_swallow_letters() {
    assert_eq!(
        tokens_of("5x"),
        vec![Token::Int("5".into()), Token::Ident("x".into())]
    );
}

#[test]
fn comparisons_scenario() {
    assert_eq!(
        tokens_of("10 == 10; 10 != 9;"),
        vec![
            Token::Int("10".into()),
            Token::Equal,
            Token::Int("10".into()),
            Token::Semicolon,
            Token::Int("10".into()),
            Token::NotEqual,
            Token::Int("9".into()),
            Token::Semicolon,
        ]
    );
}

#[test]
fn empty_input_yields_nothing() {
    assert_eq!(tokens_of(""), vec![]);
}

#[test]
fn whitespace_only_yields_sentinel_alone() {
    assert_eq!(tokens_of(" \t\r\n"), vec![Token::EOF]);
}

#[test]
fn trailing_whitespace_retains_sentinel() {
    assert_eq!(tokens_of("+ "), vec![Token::Plus, Token::EOF]);
}

#[test]
fn no_trailing_whitespace_no_sentinel() {
    assert_eq!(tokens_of("+"), vec![Token::Plus]);
}

#[test]
fn unrecognized_byte_is_illegal() {
    assert_eq!(tokens_of("@"), vec![Token::Illegal]);
}

#[test]
fn scan_continues_past_illegal() {
    assert_eq!(
        tokens_of("@+@"),
        vec![Token::Illegal, Token::Plus, Token::Illegal]
    );
}

#[test]
fn nul_byte_is_illegal() {
    assert_eq!(tokens_of("\0"), vec![Token::Illegal]);
}

#[test]
fn non_ascii_bytes_are_illegal_one_by_one() {
    // One two-byte character: each of its bytes is unrecognized on its own.
    assert_eq!(tokens_of("é"), vec![Token::Illegal, Token::Illegal]);
}

#[test]
fn underscore_starts_identifier() {
    assert_eq!(
        tokens_of("_a b_"),
        vec![Token::Ident("_a".into()), Token::Ident("b_".into())]
    );
}

#[test]
fn rescan_on_one_instance_is_identical() {
    let mut lex = Lexer::new();
    let first = lex.parse("let x = 1;".into()).unwrap();
    let second = lex.parse("let x = 1;".into()).unwrap();
    assert_eq!(first, second);
}

#[test]
fn scan_on_separate_instances_is_identical() {
    let mut a = Lexer::new();
    let mut b = Lexer::new();
    assert_eq!(
        a.parse("fn(x) { x != 1 }".into()).unwrap(),
        b.parse("fn(x) { x != 1 }".into()).unwrap()
    );
}

#[test]
fn rescan_after_longer_input_is_unaffected() {
    let mut lex = Lexer::new();
    let long = lex.parse("let five = 5;".into()).unwrap();
    assert!(long.len() > 1);
    assert_eq!(lex.parse("=".into()).unwrap(), vec![Token::Assign]);
}

#[test]
fn token_count_bounded_by_input_length() {
    let inputs = ["", " ", "=+(){},;", "let five = 5;", "@@@", "a b c"];
    for input in inputs {
        let n = tokens_of(input).len();
        assert!(n <= input.len());
    }
}

#[test]
fn render_literal_tokens() {
    assert_eq!(Token::Int("5".into()).render(), "Int: 5");
    assert_eq!(Token::Ident("five".into()).render(), "Indent: five");
}

#[test]
fn render_bare_tokens() {
    assert_eq!(Token::Assign.render(), "Assign");
    assert_eq!(Token::LessThan.render(), "LessThan");
    assert_eq!(Token::EOF.render(), "EOF");
    assert_eq!(Token::Illegal.render(), "Illegal");
}
