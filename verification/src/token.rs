//! The token taxonomy: the closed set of token values that a scan produces,
//! together with their mathematical counterpart and their textual rendering.

use vstd::prelude::*;
use vstd::string::StringExecFns;

verus! {

/// The atomic classified unit produced by scanning.
///
/// Literal-carrying variants hold the matched text verbatim; all other
/// variants carry no payload. `Illegal` stands for one unrecognized input
/// byte and is itself a valid token value, not an error. `EOF` is the
/// end-of-input sentinel.
#[derive(Debug, PartialEq, Clone)]
pub enum Token {
    Ident(String),
    Int(String),
    Illegal,
    EOF,
    Assign,
    Bang,
    Dash,
    ForwardSlash,
    Asterisk,
    Equal,
    NotEqual,
    LessThan,
    GreaterThan,
    If,
    Else,
    For,
    Return,
    False,
    True,
    Function,
    Let,
    Plus,
    Comma,
    Semicolon,
    Lparen,
    Rparen,
    LSquirly,
    RSquirly,
}

/// The mathematical counterpart of [`Token`]: the same tagged union with the
/// literal text abstracted to a sequence of characters. Contracts and the
/// scan model speak of this type.
#[verifier::ext_equal]
pub enum SpecToken {
    Ident(Seq<char>),
    Int(Seq<char>),
    Illegal,
    EOF,
    Assign,
    Bang,
    Dash,
    ForwardSlash,
    Asterisk,
    Equal,
    NotEqual,
    LessThan,
    GreaterThan,
    If,
    Else,
    For,
    Return,
    False,
    True,
    Function,
    Let,
    Plus,
    Comma,
    Semicolon,
    Lparen,
    Rparen,
    LSquirly,
    RSquirly,
}

impl View for Token {
    type V = SpecToken;

    open spec fn view(&self) -> SpecToken {
        match self {
            Token::Ident(text) => SpecToken::Ident(text@),
            Token::Int(text) => SpecToken::Int(text@),
            Token::Illegal => SpecToken::Illegal,
            Token::EOF => SpecToken::EOF,
            Token::Assign => SpecToken::Assign,
            Token::Bang => SpecToken::Bang,
            Token::Dash => SpecToken::Dash,
            Token::ForwardSlash => SpecToken::ForwardSlash,
            Token::Asterisk => SpecToken::Asterisk,
            Token::Equal => SpecToken::Equal,
            Token::NotEqual => SpecToken::NotEqual,
            Token::LessThan => SpecToken::LessThan,
            Token::GreaterThan => SpecToken::GreaterThan,
            Token::If => SpecToken::If,
            Token::Else => SpecToken::Else,
            Token::For => SpecToken::For,
            Token::Return => SpecToken::Return,
            Token::False => SpecToken::False,
            Token::True => SpecToken::True,
            Token::Function => SpecToken::Function,
            Token::Let => SpecToken::Let,
            Token::Plus => SpecToken::Plus,
            Token::Comma => SpecToken::Comma,
            Token::Semicolon => SpecToken::Semicolon,
            Token::Lparen => SpecToken::Lparen,
            Token::Rparen => SpecToken::Rparen,
            Token::LSquirly => SpecToken::LSquirly,
            Token::RSquirly => SpecToken::RSquirly,
        }
    }
}

/// The views of a sequence of tokens, element by element.
pub open spec fn token_views(tokens: Seq<Token>) -> Seq<SpecToken> {
    tokens.map_values(|t: Token| t@)
}

/// The canonical textual rendering of a token: literal-carrying variants
/// render as `"<Kind>: <text>"`, all others as their bare kind name. The
/// label for `Ident` is the string `"Indent"`, kept as a compatibility
/// detail for existing consumers of the rendered form.
pub open spec fn spec_render(t: SpecToken) -> Seq<char> {
    match t {
        SpecToken::Ident(text) => "Indent: "@ + text,
        SpecToken::Int(text) => "Int: "@ + text,
        SpecToken::Illegal => "Illegal"@,
        SpecToken::EOF => "EOF"@,
        SpecToken::Assign => "Assign"@,
        SpecToken::Bang => "Bang"@,
        SpecToken::Dash => "Dash"@,
        SpecToken::ForwardSlash => "ForwardSlash"@,
        SpecToken::Asterisk => "Asterisk"@,
        SpecToken::Equal => "Equal"@,
        SpecToken::NotEqual => "NotEqual"@,
        SpecToken::LessThan => "LessThan"@,
        SpecToken::GreaterThan => "GreaterThan"@,
        SpecToken::If => "If"@,
        SpecToken::Else => "Else"@,
        SpecToken::For => "For"@,
        SpecToken::Return => "Return"@,
        SpecToken::False => "False"@,
        SpecToken::True => "True"@,
        SpecToken::Function => "Function"@,
        SpecToken::Let => "Let"@,
        SpecToken::Plus => "Plus"@,
        SpecToken::Comma => "Comma"@,
        SpecToken::Semicolon => "Semicolon"@,
        SpecToken::Lparen => "Lparen"@,
        SpecToken::Rparen => "Rparen"@,
        SpecToken::LSquirly => "LSquirly"@,
        SpecToken::RSquirly => "RSquirly"@,
    }
}

impl Token {
    /// The human-readable form of the token, exactly as [`spec_render`]
    /// describes it.
    pub fn render(&self) -> (r: String)
        ensures
            r@ == spec_render(self@),
    {
        match self {
            Token::Ident(text) => {
                let mut s = String::from_str("Indent: ");
                s.append(text.as_str());
                s
            },
            Token::Int(text) => {
                let mut s = String::from_str("Int: ");
                s.append(text.as_str());
                s
            },
            Token::Illegal => String::from_str("Illegal"),
            Token::EOF => String::from_str("EOF"),
            Token::Assign => String::from_str("Assign"),
            Token::Bang => String::from_str("Bang"),
            Token::Dash => String::from_str("Dash"),
            Token::ForwardSlash => String::from_str("ForwardSlash"),
            Token::Asterisk => String::from_str("Asterisk"),
            Token::Equal => String::from_str("Equal"),
            Token::NotEqual => String::from_str("NotEqual"),
            Token::LessThan => String::from_str("LessThan"),
            Token::GreaterThan => String::from_str("GreaterThan"),
            Token::If => String::from_str("If"),
            Token::Else => String::from_str("Else"),
            Token::For => String::from_str("For"),
            Token::Return => String::from_str("Return"),
            Token::False => String::from_str("False"),
            Token::True => String::from_str("True"),
            Token::Function => String::from_str("Function"),
            Token::Let => String::from_str("Let"),
            Token::Plus => String::from_str("Plus"),
            Token::Comma => String::from_str("Comma"),
            Token::Semicolon => String::from_str("Semicolon"),
            Token::Lparen => String::from_str("Lparen"),
            Token::Rparen => String::from_str("Rparen"),
            Token::LSquirly => String::from_str("LSquirly"),
            Token::RSquirly => String::from_str("RSquirly"),
        }
    }
}

} // verus!
