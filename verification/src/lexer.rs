//! The executable scanner: a cursor over the bytes of one input string,
//! verified against the model in [`crate::scan`].

use crate::scan::chars_of_bytes;
use crate::scan::ident_end;
use crate::scan::int_end;
use crate::scan::is_digit_byte;
use crate::scan::is_letter_byte;
use crate::scan::is_whitespace_byte;
use crate::scan::lemma_ident_end;
use crate::scan::lemma_int_end;
use crate::scan::lemma_token_end;
use crate::scan::lemma_whitespace_end;
use crate::scan::scan;
use crate::scan::scan_from;
use crate::scan::token_at;
use crate::scan::token_end;
use crate::scan::whitespace_end;
use crate::scan::word_token;
use crate::token::SpecToken;
use crate::token::Token;
use crate::token::token_views;
use vstd::prelude::*;
use vstd::string::StrSliceExecFns;
use vstd::utf8::encode_utf8;

verus! {

/// The one failure kind of the scanner: an internal scanning fault, carrying
/// a message. Unrecognized input is not a fault — it surfaces as `Illegal`
/// tokens — and in the present behaviour no input raises one; the kind keeps
/// the interface open for stricter error modes.
#[derive(Debug, PartialEq, Clone)]
pub struct ScanFault {
    pub message: String,
}

/// The scanning engine. One instance owns the input buffer and a cursor; it
/// may be reused, each call of [`Lexer::parse`] being a fresh self-contained
/// scan of its own input.
pub struct Lexer {
    position: usize,
    read_position: usize,
    ch: u8,
    input: Vec<u8>,
}

/// Whether `b` is an ASCII whitespace byte.
fn whitespace_byte(b: u8) -> (r: bool)
    ensures
        r == is_whitespace_byte(b),
{
    b == ' ' as u8 || b == '\t' as u8 || b == '\n' as u8 || b == 12 || b == '\r' as u8
}

/// Whether `b` is an ASCII letter or the underscore.
fn letter_byte(b: u8) -> (r: bool)
    ensures
        r == is_letter_byte(b),
{
    ('a' as u8 <= b && b <= 'z' as u8) || ('A' as u8 <= b && b <= 'Z' as u8) || b == '_' as u8
}

/// Whether `b` is an ASCII decimal digit.
fn digit_byte(b: u8) -> (r: bool)
    ensures
        r == is_digit_byte(b),
{
    '0' as u8 <= b && b <= '9' as u8
}

/// Relies on `String::from_utf8_lossy`: bytes below 128 are valid UTF-8 and
/// decode to one character per byte, each the character with the byte's code
/// point.
#[verifier::external_body]
fn ascii_to_string(bytes: &Vec<u8>) -> (r: String)
    requires
        forall|k: int| 0 <= k < bytes@.len() ==> bytes@[k] < 128,
    ensures
        r@ == chars_of_bytes(bytes@),
{
    String::from_utf8_lossy(bytes).into_owned()
}

/// The token that the identifier text `word` yields: the matching keyword,
/// or an `Ident` carrying the text.
fn keyword_or_ident(word: Vec<u8>) -> (t: Token)
    requires
        forall|k: int| 0 <= k < word@.len() ==> is_letter_byte(#[trigger] word@[k]),
    ensures
        t@ == word_token(word@),
{
    if word.len() == 2 && word[0] == 'f' as u8 && word[1] == 'n' as u8 {
        Token::Function
    } else if word.len() == 3 && word[0] == 'l' as u8 && word[1] == 'e' as u8 && word[2] == 't'
        as u8 {
        Token::Let
    } else if word.len() == 2 && word[0] == 'i' as u8 && word[1] == 'f' as u8 {
        Token::If
    } else if word.len() == 4 && word[0] == 'e' as u8 && word[1] == 'l' as u8 && word[2] == 's'
        as u8 && word[3] == 'e' as u8 {
        Token::Else
    } else if word.len() == 3 && word[0] == 'f' as u8 && word[1] == 'o' as u8 && word[2] == 'r'
        as u8 {
        Token::For
    } else if word.len() == 4 && word[0] == 't' as u8 && word[1] == 'r' as u8 && word[2] == 'u'
        as u8 && word[3] == 'e' as u8 {
        Token::True
    } else if word.len() == 5 && word[0] == 'f' as u8 && word[1] == 'a' as u8 && word[2] == 'l'
        as u8 && word[3] == 's' as u8 && word[4] == 'e' as u8 {
        Token::False
    } else if word.len() == 6 && word[0] == 'r' as u8 && word[1] == 'e' as u8 && word[2] == 't'
        as u8 && word[3] == 'u' as u8 && word[4] == 'r' as u8 && word[5] == 'n' as u8 {
        Token::Return
    } else {
        Token::Ident(ascii_to_string(&word))
    }
}

impl Lexer {
    /// The cursor invariant: the current position is inside the buffer or
    /// just past it, the next-read position trails it by one (capped at the
    /// buffer's end), and the current byte mirrors the buffer — 0 standing
    /// for "no more input".
    pub closed spec fn wf(self) -> bool {
        &&& self.position <= self.input@.len()
        &&& self.read_position as int == (if self.position + 1 <= self.input@.len() {
            self.position + 1
        } else {
            self.input@.len() as int
        })
        &&& self.ch == (if self.position < self.input@.len() {
            self.input@[self.position as int]
        } else {
            0u8
        })
    }

    /// A fresh scanner over an empty buffer.
    pub fn new() -> (lex: Lexer)
        ensures
            lex.wf(),
    {
        let lex = Lexer { position: 0, read_position: 0, ch: 0, input: Vec::new() };
        lex
    }

    /// Scan `input` in one left-to-right pass and return its tokens in
    /// emission order: exactly the scan of the UTF-8 bytes of `input` that
    /// [`scan`] describes. No input fails the scan; unrecognized bytes
    /// surface as `Illegal` tokens. The end-of-input sentinel is the last
    /// token exactly when trailing whitespace forced the scan to look past
    /// the end of the buffer.
    pub fn parse(&mut self, input: String) -> (r: Result<Vec<Token>, ScanFault>)
        ensures
            final(self).wf(),
            r matches Ok(tokens) && token_views(tokens@) == scan(encode_utf8(input@)),
    {
        self.input = input.as_str().as_bytes_vec();
        self.position = 0;
        if self.input.len() > 0 {
            self.ch = self.input[0];
            self.read_position = 1;
        } else {
            self.ch = 0;
            self.read_position = 0;
        }
        let ghost s = self.input@;
        let mut tokens: Vec<Token> = Vec::new();
        proof {
            assert(token_views(tokens@) + scan_from(s, 0) =~= scan_from(s, 0));
        }
        while self.position < self.input.len()
            invariant
                self.wf(),
                self.input@ == s,
                token_views(tokens@) + scan_from(s, self.position as int) == scan_from(s, 0),
            decreases s.len() - self.position,
        {
            let ghost i = self.position as int;
            let ghost prev = tokens@;
            let tok = self.next_token();
            tokens.push(tok);
            proof {
                lemma_whitespace_end(s, i);
                let j = whitespace_end(s, i);
                if j >= s.len() {
                    assert(scan_from(s, i) =~= seq![SpecToken::EOF]);
                } else {
                    lemma_token_end(s, j);
                    assert(scan_from(s, i) =~= seq![token_at(s, j)] + scan_from(
                        s,
                        token_end(s, j),
                    ));
                }
                assert(token_views(tokens@) =~= token_views(prev).push(tok@));
                assert(token_views(prev).push(tok@) + scan_from(s, self.position as int)
                    =~= token_views(prev) + scan_from(s, i));
            }
        }
        proof {
            assert(token_views(tokens@) + scan_from(s, self.position as int) =~= token_views(
                tokens@,
            ));
        }
        Ok(tokens)
    }

    /// Skip whitespace, then read one token at the cursor: the end-of-input
    /// sentinel when only whitespace remained, otherwise the token that the
    /// model reads at the first non-whitespace byte.
    fn next_token(&mut self) -> (t: Token)
        requires
            old(self).wf(),
        ensures
            final(self).wf(),
            final(self).input == old(self).input,
            ({
                let s = old(self).input@;
                let j = whitespace_end(s, old(self).position as int);
                if j >= s.len() {
                    t@ == SpecToken::EOF && final(self).position == s.len()
                } else {
                    t@ == token_at(s, j) && final(self).position as int == token_end(s, j)
                }
            }),
    {
        let ghost s = self.input@;
        self.skip_whitespace();
        let ghost j = self.position as int;
        if self.position >= self.input.len() {
            return Token::EOF;
        }
        let b = self.ch;
        if b == '{' as u8 {
            self.read_char();
            Token::LSquirly
        } else if b == '}' as u8 {
            self.read_char();
            Token::RSquirly
        } else if b == '(' as u8 {
            self.read_char();
            Token::Lparen
        } else if b == ')' as u8 {
            self.read_char();
            Token::Rparen
        } else if b == '+' as u8 {
            self.read_char();
            Token::Plus
        } else if b == ';' as u8 {
            self.read_char();
            Token::Semicolon
        } else if b == ',' as u8 {
            self.read_char();
            Token::Comma
        } else if b == '-' as u8 {
            self.read_char();
            Token::Dash
        } else if b == '/' as u8 {
            self.read_char();
            Token::ForwardSlash
        } else if b == '*' as u8 {
            self.read_char();
            Token::Asterisk
        } else if b == '>' as u8 {
            self.read_char();
            Token::GreaterThan
        } else if b == '<' as u8 {
            self.read_char();
            Token::LessThan
        } else if b == '!' as u8 {
            if self.peek() == '=' as u8 {
                self.read_char();
                self.read_char();
                Token::NotEqual
            } else {
                self.read_char();
                Token::Bang
            }
        } else if b == '=' as u8 {
            if self.peek() == '=' as u8 {
                self.read_char();
                self.read_char();
                Token::Equal
            } else {
                self.read_char();
                Token::Assign
            }
        } else if letter_byte(b) {
            proof {
                lemma_ident_end(s, j);
            }
            let word = self.read_indent();
            keyword_or_ident(word)
        } else if digit_byte(b) {
            proof {
                lemma_int_end(s, j);
            }
            let word = self.read_int();
            Token::Int(ascii_to_string(&word))
        } else {
            self.read_char();
            Token::Illegal
        }
    }

    /// Advance the cursor past the run of whitespace bytes under it.
    fn skip_whitespace(&mut self)
        requires
            old(self).wf(),
        ensures
            final(self).wf(),
            final(self).input == old(self).input,
            old(self).position <= final(self).position,
            final(self).position as int == whitespace_end(old(self).input@, old(self).position as int),
    {
        while whitespace_byte(self.ch)
            invariant
                self.wf(),
                self.input == old(self).input,
                old(self).position <= self.position,
                whitespace_end(self.input@, self.position as int) == whitespace_end(
                    old(self).input@,
                    old(self).position as int,
                ),
            decreases self.input@.len() - self.position,
        {
            self.read_char();
        }
    }

    /// Advance the cursor by one byte; past the end of the buffer the
    /// current byte reads 0.
    fn read_char(&mut self)
        requires
            old(self).wf(),
            old(self).position < old(self).input@.len(),
        ensures
            final(self).wf(),
            final(self).input == old(self).input,
            final(self).position == old(self).position + 1,
    {
        if self.read_position >= self.input.len() {
            self.ch = 0;
            self.position = self.input.len();
            self.read_position = self.input.len();
        } else {
            self.ch = self.input[self.read_position];
            self.position = self.read_position;
            self.read_position = self.read_position + 1;
        }
    }

    /// The byte after the current one, without advancing: the one-byte
    /// lookahead that disambiguates `==` from `=` and `!=` from `!`. Past
    /// the end of the buffer it reads 0.
    fn peek(&self) -> (b: u8)
        requires
            self.wf(),
        ensures
            b == (if self.position + 1 < self.input@.len() {
                self.input@[self.position + 1]
            } else {
                0u8
            }),
    {
        if self.read_position >= self.input.len() {
            0
        } else {
            self.input[self.read_position]
        }
    }

    /// Read the maximal run of identifier bytes at the cursor and return it.
    fn read_indent(&mut self) -> (word: Vec<u8>)
        requires
            old(self).wf(),
        ensures
            final(self).wf(),
            final(self).input == old(self).input,
            final(self).position as int == ident_end(old(self).input@, old(self).position as int),
            word@ == old(self).input@.subrange(old(self).position as int, final(self).position as int),
    {
        let mut word: Vec<u8> = Vec::new();
        let ghost start = self.position as int;
        proof {
            assert(word@ =~= self.input@.subrange(start, start));
        }
        while letter_byte(self.ch)
            invariant
                self.wf(),
                self.input == old(self).input,
                start == old(self).position as int,
                start <= self.position,
                word@ == self.input@.subrange(start, self.position as int),
                ident_end(self.input@, self.position as int) == ident_end(
                    old(self).input@,
                    start,
                ),
            decreases self.input@.len() - self.position,
        {
            let ghost prev = self.position as int;
            word.push(self.ch);
            self.read_char();
            proof {
                assert(self.input@.subrange(start, prev + 1) =~= self.input@.subrange(
                    start,
                    prev,
                ).push(self.input@[prev]));
            }
        }
        word
    }

    /// Read the maximal run of digit bytes at the cursor and return it.
    fn read_int(&mut self) -> (word: Vec<u8>)
        requires
            old(self).wf(),
        ensures
            final(self).wf(),
            final(self).input == old(self).input,
            final(self).position as int == int_end(old(self).input@, old(self).position as int),
            word@ == old(self).input@.subrange(old(self).position as int, final(self).position as int),
    {
        let mut word: Vec<u8> = Vec::new();
        let ghost start = self.position as int;
        proof {
            assert(word@ =~= self.input@.subrange(start, start));
        }
        while digit_byte(self.ch)
            invariant
                self.wf(),
                self.input == old(self).input,
                start == old(self).position as int,
                start <= self.position,
                word@ == self.input@.subrange(start, self.position as int),
                int_end(self.input@, self.position as int) == int_end(old(self).input@, start),
            decreases self.input@.len() - self.position,
        {
            let ghost prev = self.position as int;
            word.push(self.ch);
            self.read_char();
            proof {
                assert(self.input@.subrange(start, prev + 1) =~= self.input@.subrange(
                    start,
                    prev,
                ).push(self.input@[prev]));
            }
        }
        word
    }
}

} // verus!
