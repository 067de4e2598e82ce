//! The mathematical model of the scan: what sequence of tokens a given byte
//! sequence yields.
//!
//! The model mirrors the single-pass scanning loop. From a position `i` it
//! first skips the run of whitespace bytes; if that run reaches the end of
//! the input while `i` itself was still inside it, the end-of-input sentinel
//! is the last token. Otherwise one token is read at the first non-whitespace
//! byte — with one byte of lookahead for `==` and `!=` — and the scan goes on
//! after it.

use crate::token::SpecToken;
use vstd::prelude::*;

verus! {

/// ASCII whitespace: space, tab, line feed, form feed, carriage return.
pub open spec fn is_whitespace_byte(b: u8) -> bool {
    b == ' ' as u8 || b == '\t' as u8 || b == '\n' as u8 || b == 12 || b == '\r' as u8
}

/// Identifier bytes: ASCII letters and the underscore. Digits never extend
/// an identifier.
pub open spec fn is_letter_byte(b: u8) -> bool {
    ('a' as u8 <= b && b <= 'z' as u8) || ('A' as u8 <= b && b <= 'Z' as u8) || b == '_' as u8
}

/// ASCII decimal digits.
pub open spec fn is_digit_byte(b: u8) -> bool {
    '0' as u8 <= b && b <= '9' as u8
}

/// The bytes that start a token of their own: everything but whitespace and
/// these yields an `Illegal` token.
pub open spec fn is_recognized_byte(b: u8) -> bool {
    ||| b == '{' as u8
    ||| b == '}' as u8
    ||| b == '(' as u8
    ||| b == ')' as u8
    ||| b == '+' as u8
    ||| b == ';' as u8
    ||| b == ',' as u8
    ||| b == '-' as u8
    ||| b == '/' as u8
    ||| b == '*' as u8
    ||| b == '>' as u8
    ||| b == '<' as u8
    ||| b == '!' as u8
    ||| b == '=' as u8
    ||| is_letter_byte(b)
    ||| is_digit_byte(b)
}

/// The position of the first non-whitespace byte at or after `i`, or the
/// length of the input when only whitespace remains.
pub open spec fn whitespace_end(s: Seq<u8>, i: int) -> int
    decreases s.len() - i,
    when 0 <= i <= s.len()
{
    if i >= s.len() {
        i
    } else if is_whitespace_byte(s[i]) {
        whitespace_end(s, i + 1)
    } else {
        i
    }
}

/// The end of the maximal run of identifier bytes starting at `i`.
pub open spec fn ident_end(s: Seq<u8>, i: int) -> int
    decreases s.len() - i,
    when 0 <= i <= s.len()
{
    if i >= s.len() {
        i
    } else if is_letter_byte(s[i]) {
        ident_end(s, i + 1)
    } else {
        i
    }
}

/// The end of the maximal run of digit bytes starting at `i`.
pub open spec fn int_end(s: Seq<u8>, i: int) -> int
    decreases s.len() - i,
    when 0 <= i <= s.len()
{
    if i >= s.len() {
        i
    } else if is_digit_byte(s[i]) {
        int_end(s, i + 1)
    } else {
        i
    }
}

/// ASCII bytes read as the characters with the same code points.
pub open spec fn chars_of_bytes(bs: Seq<u8>) -> Seq<char> {
    Seq::new(bs.len(), |i: int| bs[i] as char)
}

/// Whether `bs` spells the two-character word `ab`.
pub open spec fn spells2(bs: Seq<u8>, a: char, b: char) -> bool {
    bs.len() == 2 && bs[0] == a as u8 && bs[1] == b as u8
}

/// Whether `bs` spells the three-character word `abc`.
pub open spec fn spells3(bs: Seq<u8>, a: char, b: char, c: char) -> bool {
    bs.len() == 3 && bs[0] == a as u8 && bs[1] == b as u8 && bs[2] == c as u8
}

/// Whether `bs` spells the four-character word `abcd`.
pub open spec fn spells4(bs: Seq<u8>, a: char, b: char, c: char, d: char) -> bool {
    bs.len() == 4 && bs[0] == a as u8 && bs[1] == b as u8 && bs[2] == c as u8 && bs[3] == d as u8
}

/// Whether `bs` spells the five-character word `abcde`.
pub open spec fn spells5(bs: Seq<u8>, a: char, b: char, c: char, d: char, e: char) -> bool {
    bs.len() == 5 && bs[0] == a as u8 && bs[1] == b as u8 && bs[2] == c as u8 && bs[3] == d as u8
        && bs[4] == e as u8
}

/// Whether `bs` spells the six-character word `abcdef`.
pub open spec fn spells6(bs: Seq<u8>, a: char, b: char, c: char, d: char, e: char, f: char) -> bool {
    bs.len() == 6 && bs[0] == a as u8 && bs[1] == b as u8 && bs[2] == c as u8 && bs[3] == d as u8
        && bs[4] == e as u8 && bs[5] == f as u8
}

/// The token that a maximal identifier run yields: one of the eight fixed
/// keywords when the text matches it exactly, an `Ident` carrying the text
/// otherwise.
pub open spec fn word_token(bs: Seq<u8>) -> SpecToken {
    if spells2(bs, 'f', 'n') {
        SpecToken::Function
    } else if spells3(bs, 'l', 'e', 't') {
        SpecToken::Let
    } else if spells2(bs, 'i', 'f') {
        SpecToken::If
    } else if spells4(bs, 'e', 'l', 's', 'e') {
        SpecToken::Else
    } else if spells3(bs, 'f', 'o', 'r') {
        SpecToken::For
    } else if spells4(bs, 't', 'r', 'u', 'e') {
        SpecToken::True
    } else if spells5(bs, 'f', 'a', 'l', 's', 'e') {
        SpecToken::False
    } else if spells6(bs, 'r', 'e', 't', 'u', 'r', 'n') {
        SpecToken::Return
    } else {
        SpecToken::Ident(chars_of_bytes(bs))
    }
}

/// The token read at a non-whitespace byte `j`. Two-character operators are
/// preferred over their one-character prefix exactly when the lookahead byte
/// matches.
pub open spec fn token_at(s: Seq<u8>, j: int) -> SpecToken {
    let b = s[j];
    if b == '{' as u8 {
        SpecToken::LSquirly
    } else if b == '}' as u8 {
        SpecToken::RSquirly
    } else if b == '(' as u8 {
        SpecToken::Lparen
    } else if b == ')' as u8 {
        SpecToken::Rparen
    } else if b == '+' as u8 {
        SpecToken::Plus
    } else if b == ';' as u8 {
        SpecToken::Semicolon
    } else if b == ',' as u8 {
        SpecToken::Comma
    } else if b == '-' as u8 {
        SpecToken::Dash
    } else if b == '/' as u8 {
        SpecToken::ForwardSlash
    } else if b == '*' as u8 {
        SpecToken::Asterisk
    } else if b == '>' as u8 {
        SpecToken::GreaterThan
    } else if b == '<' as u8 {
        SpecToken::LessThan
    } else if b == '!' as u8 {
        if j + 1 < s.len() && s[j + 1] == '=' as u8 {
            SpecToken::NotEqual
        } else {
            SpecToken::Bang
        }
    } else if b == '=' as u8 {
        if j + 1 < s.len() && s[j + 1] == '=' as u8 {
            SpecToken::Equal
        } else {
            SpecToken::Assign
        }
    } else if is_letter_byte(b) {
        word_token(s.subrange(j, ident_end(s, j)))
    } else if is_digit_byte(b) {
        SpecToken::Int(chars_of_bytes(s.subrange(j, int_end(s, j))))
    } else {
        SpecToken::Illegal
    }
}

/// The position just after the token read at `j`.
pub open spec fn token_end(s: Seq<u8>, j: int) -> int {
    let b = s[j];
    if b == '!' as u8 || b == '=' as u8 {
        if j + 1 < s.len() && s[j + 1] == '=' as u8 {
            j + 2
        } else {
            j + 1
        }
    } else if is_letter_byte(b) {
        ident_end(s, j)
    } else if is_digit_byte(b) {
        int_end(s, j)
    } else {
        j + 1
    }
}

/// The tokens that scanning `s` from position `i` yields.
pub open spec fn scan_from(s: Seq<u8>, i: int) -> Seq<SpecToken>
    decreases s.len() - i,
    when 0 <= i <= s.len()
    via scan_from_decreases
{
    if i >= s.len() {
        Seq::empty()
    } else {
        let j = whitespace_end(s, i);
        if j >= s.len() {
            seq![SpecToken::EOF]
        } else {
            seq![token_at(s, j)] + scan_from(s, token_end(s, j))
        }
    }
}

/// The full scan of `s`.
pub open spec fn scan(s: Seq<u8>) -> Seq<SpecToken> {
    scan_from(s, 0)
}

#[via_fn]
proof fn scan_from_decreases(s: Seq<u8>, i: int) {
    if 0 <= i < s.len() {
        let j = whitespace_end(s, i);
        lemma_whitespace_end(s, i);
        if j < s.len() {
            lemma_token_end(s, j);
        }
    }
}

/// Where whitespace skipping lands: no earlier than it started, within the
/// input, every skipped byte whitespace, and the landing byte (if any) not.
pub proof fn lemma_whitespace_end(s: Seq<u8>, i: int)
    requires
        0 <= i <= s.len(),
    ensures
        i <= whitespace_end(s, i) <= s.len(),
        forall|k: int| i <= k < whitespace_end(s, i) ==> is_whitespace_byte(s[k]),
        whitespace_end(s, i) < s.len() ==> !is_whitespace_byte(s[whitespace_end(s, i)]),
    decreases s.len() - i,
{
    if i < s.len() && is_whitespace_byte(s[i]) {
        lemma_whitespace_end(s, i + 1);
    }
}

/// An identifier run ends within the input, after its start; it consists of
/// identifier bytes and stops at the first byte that is none.
pub proof fn lemma_ident_end(s: Seq<u8>, i: int)
    requires
        0 <= i <= s.len(),
    ensures
        i <= ident_end(s, i) <= s.len(),
        forall|k: int| i <= k < ident_end(s, i) ==> is_letter_byte(s[k]),
        ident_end(s, i) < s.len() ==> !is_letter_byte(s[ident_end(s, i)]),
        i < s.len() && is_letter_byte(s[i]) ==> ident_end(s, i) > i,
    decreases s.len() - i,
{
    if i < s.len() && is_letter_byte(s[i]) {
        lemma_ident_end(s, i + 1);
    }
}

/// The digit-run counterpart of [`lemma_ident_end`].
pub proof fn lemma_int_end(s: Seq<u8>, i: int)
    requires
        0 <= i <= s.len(),
    ensures
        i <= int_end(s, i) <= s.len(),
        forall|k: int| i <= k < int_end(s, i) ==> is_digit_byte(s[k]),
        int_end(s, i) < s.len() ==> !is_digit_byte(s[int_end(s, i)]),
        i < s.len() && is_digit_byte(s[i]) ==> int_end(s, i) > i,
    decreases s.len() - i,
{
    if i < s.len() && is_digit_byte(s[i]) {
        lemma_int_end(s, i + 1);
    }
}

/// Every token consumes at least one byte and never runs past the input.
pub proof fn lemma_token_end(s: Seq<u8>, j: int)
    requires
        0 <= j < s.len(),
    ensures
        j < token_end(s, j) <= s.len(),
{
    lemma_ident_end(s, j);
    lemma_int_end(s, j);
}

/// The number of tokens a scan yields is bounded by the length of the input:
/// every token consumes at least one byte; the end-of-input sentinel consumes
/// the run of trailing whitespace that led to it.
pub proof fn lemma_scan_bounded(s: Seq<u8>)
    ensures
        scan(s).len() <= s.len(),
{
    lemma_scan_from_bounded(s, 0);
}

proof fn lemma_scan_from_bounded(s: Seq<u8>, i: int)
    requires
        0 <= i <= s.len(),
    ensures
        scan_from(s, i).len() <= s.len() - i,
    decreases s.len() - i,
{
    if i < s.len() {
        let j = whitespace_end(s, i);
        lemma_whitespace_end(s, i);
        if j < s.len() {
            lemma_token_end(s, j);
            lemma_scan_from_bounded(s, token_end(s, j));
        }
    }
}

/// Scanning is idempotent: the scan is a function of the input bytes alone,
/// so two scans of the same input — on one reused scanner or on separate
/// ones — yield identical token sequences.
pub proof fn lemma_scan_idempotent(s: Seq<u8>, first: Seq<SpecToken>, second: Seq<SpecToken>)
    requires
        first == scan(s),
        second == scan(s),
    ensures
        first == second,
{
}

/// Input that holds nothing but whitespace yields no structural or literal
/// token: the empty input yields nothing at all, and whitespace-only input
/// yields the end-of-input sentinel alone.
pub proof fn lemma_whitespace_only(s: Seq<u8>)
    requires
        forall|k: int| 0 <= k < s.len() ==> is_whitespace_byte(s[k]),
    ensures
        s.len() == 0 ==> scan(s) == Seq::<SpecToken>::empty(),
        s.len() > 0 ==> scan(s) == seq![SpecToken::EOF],
{
    if s.len() > 0 {
        lemma_whitespace_end(s, 0);
        let j = whitespace_end(s, 0);
        if j < s.len() {
            assert(is_whitespace_byte(s[j]));
        }
    }
}

/// An unrecognized byte yields a single `Illegal` token, and the scan
/// continues with the byte after it instead of aborting.
pub proof fn lemma_illegal_byte_continues(s: Seq<u8>, i: int)
    requires
        0 <= i < s.len(),
        !is_whitespace_byte(s[i]),
        !is_recognized_byte(s[i]),
    ensures
        scan_from(s, i) == seq![SpecToken::Illegal] + scan_from(s, i + 1),
{
    assert(whitespace_end(s, i) == i);
    assert(token_at(s, i) == SpecToken::Illegal);
    assert(token_end(s, i) == i + 1);
}

} // verus!
