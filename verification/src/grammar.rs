//! What a token is: the grammar of the language, as functions of the source
//! bytes and an index into them.
use crate::charset::{
    byte_at, is_digit, is_letter, lemma_run_end, run_end, text_of, CharClass, END_OF_INPUT,
};
use crate::token::{keyword_kind, TokenKind, TokenSpec};
use vstd::prelude::*;

verus! {

/// The kind of an operator or delimiter that is one byte long. `=` and `!`
/// are listed with the kind they have when no `=` follows them.
pub open spec fn symbol_kind(ch: u8) -> Option<TokenKind> {
    if ch == '=' as u8 {
        Some(TokenKind::Assign)
    } else if ch == '!' as u8 {
        Some(TokenKind::Bang)
    } else if ch == ';' as u8 {
        Some(TokenKind::Semicolon)
    } else if ch == '(' as u8 {
        Some(TokenKind::Lparen)
    } else if ch == ')' as u8 {
        Some(TokenKind::Rparen)
    } else if ch == '{' as u8 {
        Some(TokenKind::Lbrace)
    } else if ch == '}' as u8 {
        Some(TokenKind::Rbrace)
    } else if ch == '+' as u8 {
        Some(TokenKind::Plus)
    } else if ch == '*' as u8 {
        Some(TokenKind::Asterisk)
    } else if ch == ',' as u8 {
        Some(TokenKind::Comma)
    } else if ch == '-' as u8 {
        Some(TokenKind::Minus)
    } else if ch == '/' as u8 {
        Some(TokenKind::Slash)
    } else if ch == '<' as u8 {
        Some(TokenKind::Lt)
    } else if ch == '>' as u8 {
        Some(TokenKind::Gt)
    } else {
        None
    }
}

/// Whether the two bytes at `at` are `==` or `!=`. Only the one byte behind
/// the first is looked at.
pub open spec fn is_pair(s: Seq<u8>, at: int) -> bool {
    (byte_at(s, at) == '=' as u8 || byte_at(s, at) == '!' as u8) && byte_at(s, at + 1) == '=' as u8
}

/// The index of the first byte of the token that is read with the cursor at
/// `pos`: whitespace before a token is passed over.
pub open spec fn token_start(s: Seq<u8>, pos: int) -> int {
    run_end(s, pos, CharClass::Whitespace)
}

/// How many bytes the token that starts at `at` takes from the source.
/// Nothing is left to take at the end of the source. A zero byte inside the
/// source is taken like any single byte.
pub open spec fn token_len(s: Seq<u8>, at: int) -> int {
    let ch: u8 = byte_at(s, at);
    if !(0 <= at < s.len()) {
        0
    } else if is_pair(s, at) {
        2
    } else if is_letter(ch) {
        run_end(s, at, CharClass::Letter) - at
    } else if is_digit(ch) {
        run_end(s, at, CharClass::Digit) - at
    } else {
        1
    }
}

/// The text of the token that starts at `at`: the bytes it takes from the
/// source. The end of the input has no text, and neither has a zero byte.
pub open spec fn token_literal(s: Seq<u8>, at: int) -> Seq<char> {
    if byte_at(s, at) == END_OF_INPUT {
        Seq::empty()
    } else {
        text_of(s.subrange(at, at + token_len(s, at)))
    }
}

/// The kind of the token that starts at `at`.
pub open spec fn token_kind(s: Seq<u8>, at: int) -> TokenKind {
    let ch: u8 = byte_at(s, at);
    if ch == END_OF_INPUT {
        TokenKind::Eof
    } else if is_pair(s, at) {
        if ch == '=' as u8 {
            TokenKind::Equals
        } else {
            TokenKind::NotEquals
        }
    } else if symbol_kind(ch) is Some {
        symbol_kind(ch)->0
    } else if is_letter(ch) {
        keyword_kind(token_literal(s, at))
    } else if is_digit(ch) {
        TokenKind::Int
    } else {
        TokenKind::Illegal
    }
}

/// The token that is read with the cursor at `pos`.
pub open spec fn token_at(s: Seq<u8>, pos: int) -> TokenSpec {
    let at: int = token_start(s, pos);
    TokenSpec { kind: token_kind(s, at), literal: token_literal(s, at) }
}

/// Where the cursor stands after the token at `pos` was read.
pub open spec fn cursor_after(s: Seq<u8>, pos: int) -> int {
    let at: int = token_start(s, pos);
    at + token_len(s, at)
}

/// A token lies inside the source and behind the cursor it was read from.
/// Every token but `Eof` takes at least one byte, and before the end of the
/// source every call moves the cursor on.
pub proof fn lemma_token_bounds(s: Seq<u8>, pos: int)
    requires
        0 <= pos <= s.len(),
    ensures
        pos <= token_start(s, pos) <= cursor_after(s, pos) <= s.len(),
        token_at(s, pos).kind != TokenKind::Eof ==> token_start(s, pos) < cursor_after(s, pos),
        pos < s.len() ==> pos < cursor_after(s, pos),
{
    lemma_run_end(s, pos, CharClass::Whitespace);
    let at: int = token_start(s, pos);
    if at < s.len() {
        lemma_run_end(s, at, CharClass::Letter);
        lemma_run_end(s, at, CharClass::Digit);
    }
}

/// The tokens that are read from `pos` on, up to and with the first `Eof`.
pub open spec fn token_stream(s: Seq<u8>, pos: int) -> Seq<TokenSpec>
    decreases s.len() - pos,
    via token_stream_decreases
{
    let tok = token_at(s, pos);
    if tok.kind == TokenKind::Eof {
        seq![tok]
    } else {
        seq![tok] + token_stream(s, cursor_after(s, pos))
    }
}

#[via_fn]
proof fn token_stream_decreases(s: Seq<u8>, pos: int) {
    if token_at(s, pos).kind != TokenKind::Eof {
        lemma_token_bounds(s, pos);
    }
}

} // verus!
