use lexer::lexer::Lexer;
use lexer::token::Token;

#[test]
fn get_next_token() {
    let input = "=+(){},;";
    let mut lexer = Lexer::new();

    let tokens = vec![
        Token::Assign,
        Token::Plus,
        Token::Lparen,
        Token::Rparen,
        Token::LSquirly,
        Token::RSquirly,
        Token::Comma,
        Token::Semicolon,
    ];

    assert_eq!(tokens, lexer.parse(input.into()).unwrap());
}

#[test]
fn get_next_complete() {
    let input = r#"let five = 5;
            let ten = 10;
            let add = fn(x, y) {
                x + y;
            };
            let result = add(five, ten);
        !-/*5;
        5 < 10 > 5;
        if (5 < 10) {
            return true;
        } else {
            return false;
        }

        10 == 10;
        10 != 9;
        "#;

    let mut lex = Lexer::new();

    let tokens = vec![
        Token::Let,
        Token::Ident(String::from("five")),
        Token::Assign,
        Token::Int(String::from("5")),
        Token::Semicolon,
        Token::Let,
        Token::Ident(String::from("ten")),
        Token::Assign,
        Token::Int(String::from("10")),
        Token::Semicolon,
        Token::Let,
        Token::Ident(String::from("add")),
        Token::Assign,
        Token::Function,
        Token::Lparen,
        Token::Ident(String::from("x")),
        Token::Comma,
        Token::Ident(String::from("y")),
        Token::Rparen,
        Token::LSquirly,
        Token::Ident(String::from("x")),
        Token::Plus,
        Token::Ident(String::from("y")),
        Token::Semicolon,
        Token::RSquirly,
        Token::Semicolon,
        Token::Let,
        Token::Ident(String::from("result")),
        Token::Assign,
        Token::Ident(String::from("add")),
        Token::Lparen,
        Token::Ident(String::from("five")),
        Token::Comma,
        Token::Ident(String::from("ten")),
        Token::Rparen,
        Token::Semicolon,
        Token::Bang,
        Token::Dash,
        Token::ForwardSlash,
        Token::Asterisk,
        Token::Int(String::from("5")),
        Token::Semicolon,
        Token::Int(String::from("5")),
        Token::LessThan,
        Token::Int(String::from("10")),
        Token::GreaterThan,
        Token::Int(String::from("5")),
        Token::Semicolon,
        Token::If,
        Token::Lparen,
        Token::Int(String::from("5")),
        Token::LessThan,
        Token::Int(String::from("10")),
        Token::Rparen,
        Token::LSquirly,
        Token::Return,
        Token::True,
        Token::Semicolon,
        Token::RSquirly,
        Token::Else,
        Token::LSquirly,
        Token::Return,
        Token::False,
        Token::Semicolon,
        Token::RSquirly,
        Token::Int(String::from("10")),
        Token::Equal,
        Token::Int(String::from("10")),
        Token::Semicolon,
        Token::Int(String::from("10")),
        Token::NotEqual,
        Token::Int(String::from("9")),
        Token::Semicolon,
        Token::EOF,
    ];

    assert_eq!(tokens, lex.parse(input.into()).unwrap());
}

#[test]
fn test_parse() {
    let input = "1+2/3*9".into();
    let tokens = vec![
        Token::Int("1".into()),
        Token::Plus,
        Token::Int("2".into()),
        Token::ForwardSlash,
        Token::Int("3".into()),
        Token::Asterisk,
        Token::Int("9".into()),
    ];

    let mut lexer = Lexer::new();

    let res = lexer.parse(input).unwrap();

    assert_eq!(tokens, res);
}
