//! What holds of the grammar for every source text.
use crate::charset::{
    byte_at, is_digit, is_letter, is_whitespace, lemma_run_end, lemma_run_end_unique, run_end,
    text_of, CharClass, END_OF_INPUT,
};
use crate::grammar::{
    cursor_after, is_pair, lemma_token_bounds, symbol_kind, token_at, token_kind, token_len,
    token_literal, token_start, token_stream,
};
use crate::token::{keyword_kind, TokenKind, TokenSpec};
use vstd::prelude::*;
use vstd::utf8::{encode_utf8, is_ascii_chars_encode_utf8};

verus! {

/// Where the cursor stands after `n` tokens were read, the first from `pos`.
pub open spec fn cursor_after_tokens(s: Seq<u8>, pos: int, n: nat) -> int
    decreases n,
{
    if n == 0 {
        pos
    } else {
        cursor_after(s, cursor_after_tokens(s, pos, (n - 1) as nat))
    }
}

/// At the end of the source the token is `Eof` with no text, and the cursor
/// stays at the end: the end is a state that no call leaves.
pub proof fn lemma_end_is_terminal(s: Seq<u8>)
    ensures
        token_at(s, s.len() as int) == (TokenSpec { kind: TokenKind::Eof, literal: Seq::empty() }),
        cursor_after(s, s.len() as int) == s.len(),
{
}

/// The cursor never moves back, and each of the first calls moves it at
/// least one byte on until it is at the end.
pub proof fn lemma_cursor_progress(s: Seq<u8>, pos: int, n: nat)
    requires
        0 <= pos <= s.len(),
    ensures
        pos <= cursor_after_tokens(s, pos, n) <= s.len(),
        cursor_after_tokens(s, pos, n) == s.len() || cursor_after_tokens(s, pos, n) >= pos + n,
    decreases n,
{
    if n > 0 {
        lemma_cursor_progress(s, pos, (n - 1) as nat);
        lemma_token_bounds(s, cursor_after_tokens(s, pos, (n - 1) as nat));
    }
}

/// Scanning ends. After as many calls as the source has bytes the cursor is
/// at the end of the source, and from then on every call returns `Eof`
/// with no text.
pub proof fn lemma_scanning_ends(s: Seq<u8>, n: nat)
    requires
        n >= s.len(),
    ensures
        cursor_after_tokens(s, 0, n) == s.len(),
        token_at(s, cursor_after_tokens(s, 0, n)) == (TokenSpec {
            kind: TokenKind::Eof,
            literal: Seq::empty(),
        }),
{
    lemma_cursor_progress(s, 0, n);
    lemma_end_is_terminal(s);
}

/// Reading `n` tokens from `pos` is reading one, and `n - 1` from where
/// that one ends.
pub proof fn lemma_cursor_first_token(s: Seq<u8>, pos: int, n: nat)
    requires
        n > 0,
    ensures
        cursor_after_tokens(s, pos, n) == cursor_after_tokens(
            s,
            cursor_after(s, pos),
            (n - 1) as nat,
        ),
    decreases n,
{
    if n > 1 {
        lemma_cursor_first_token(s, pos, (n - 1) as nat);
    } else {
        assert(cursor_after_tokens(s, pos, 0) == pos);
    }
}

/// The stream of tokens is what the calls return one after the other, up
/// to the first `Eof`: it ends with `Eof`, holds no other `Eof`, and is
/// never longer than the bytes that were left, and one.
pub proof fn lemma_stream_is_the_calls(s: Seq<u8>, pos: int)
    requires
        0 <= pos <= s.len(),
    ensures
        1 <= token_stream(s, pos).len() <= s.len() - pos + 1,
        forall|i: int|
            0 <= i < token_stream(s, pos).len() ==> #[trigger] token_stream(s, pos)[i] == token_at(
                s,
                cursor_after_tokens(s, pos, i as nat),
            ),
        forall|i: int|
            0 <= i < token_stream(s, pos).len() ==> (#[trigger] token_stream(s, pos)[i].kind
                == TokenKind::Eof <==> i == token_stream(s, pos).len() - 1),
    decreases s.len() - pos,
{
    let first = token_at(s, pos);
    if first.kind != TokenKind::Eof {
        lemma_token_bounds(s, pos);
        let next: int = cursor_after(s, pos);
        let rest = token_stream(s, next);
        lemma_stream_is_the_calls(s, next);
        assert forall|i: int| 0 <= i < token_stream(s, pos).len() implies #[trigger] token_stream(
            s,
            pos,
        )[i] == token_at(s, cursor_after_tokens(s, pos, i as nat)) by {
            if i > 0 {
                lemma_cursor_first_token(s, pos, i as nat);
            }
        }
    }
}

/// A source that is one operator or delimiter byte is read as one token of
/// that byte's kind, with the byte as its text.
pub proof fn lemma_single_symbol(ch: u8)
    requires
        symbol_kind(ch) is Some,
    ensures
        token_at(seq![ch], 0) == (TokenSpec { kind: symbol_kind(ch)->0, literal: seq![ch as char] }),
        cursor_after(seq![ch], 0) == 1,
{
    let s = seq![ch];
    assert(text_of(s.subrange(0, 1)) =~= seq![ch as char]);
}

/// `=` or `!` with `=` right behind it is read as one token of two bytes,
/// whatever follows: `Equals` or `NotEquals`, never two tokens.
pub proof fn lemma_pair_token(first: u8, rest: Seq<u8>)
    requires
        first == '=' as u8 || first == '!' as u8,
    ensures
        token_at(seq![first, '=' as u8] + rest, 0) == (TokenSpec {
            kind: if first == '=' as u8 {
                TokenKind::Equals
            } else {
                TokenKind::NotEquals
            },
            literal: seq![first as char, '='],
        }),
        cursor_after(seq![first, '=' as u8] + rest, 0) == 2,
{
    let s = seq![first, '=' as u8] + rest;
    assert(text_of(s.subrange(0, 2)) =~= seq![first as char, '=']);
}

/// A byte that is no whitespace, operator, delimiter, letter or digit is
/// read as one `Illegal` token with the byte as its text, and the tokens
/// behind it are those of the rest of the source.
pub proof fn lemma_illegal_byte(ch: u8, rest: Seq<u8>)
    requires
        ch != END_OF_INPUT,
        !is_whitespace(ch),
        symbol_kind(ch) is None,
        !is_letter(ch),
        !is_digit(ch),
    ensures
        token_stream(seq![ch] + rest, 0) == seq![
            TokenSpec { kind: TokenKind::Illegal, literal: seq![ch as char] },
        ] + token_stream(rest, 0),
{
    let s = seq![ch] + rest;
    assert(text_of(s.subrange(0, 1)) =~= seq![ch as char]);
    lemma_stream_skip(s, 1);
    assert(s.skip(1) =~= rest);
}

/// Each keyword has its own kind, and every other word is an identifier.
pub proof fn lemma_keyword_table()
    ensures
        keyword_kind("fn"@) == TokenKind::Function,
        keyword_kind("let"@) == TokenKind::Let,
        keyword_kind("true"@) == TokenKind::True,
        keyword_kind("false"@) == TokenKind::False,
        keyword_kind("if"@) == TokenKind::If,
        keyword_kind("else"@) == TokenKind::Else,
        keyword_kind("return"@) == TokenKind::Return,
        forall|word: Seq<char>|
            word != "fn"@ && word != "let"@ && word != "true"@ && word != "false"@ && word != "if"@
                && word != "else"@ && word != "return"@ ==> #[trigger] keyword_kind(word)
                == TokenKind::Ident,
{
    reveal_strlit("fn");
    reveal_strlit("let");
    reveal_strlit("true");
    reveal_strlit("false");
    reveal_strlit("if");
    reveal_strlit("else");
    reveal_strlit("return");
    assert("fn"@.len() == 2 && "if"@.len() == 2 && "let"@.len() == 3 && "true"@.len() == 4
        && "else"@.len() == 4 && "false"@.len() == 5 && "return"@.len() == 6);
    assert("fn"@[0] != "if"@[0]);
    assert("true"@[0] != "else"@[0]);
}

/// A run of letters is read as one token with the whole run as its text,
/// whatever follows the run. Its kind is the one the keyword table gives.
pub proof fn lemma_word_token(word: Seq<u8>, rest: Seq<u8>)
    requires
        word.len() > 0,
        forall|i: int| 0 <= i < word.len() ==> is_letter(#[trigger] word[i]),
        !is_letter(byte_at(rest, 0)),
    ensures
        token_at(word + rest, 0) == (TokenSpec {
            kind: keyword_kind(text_of(word)),
            literal: text_of(word),
        }),
        cursor_after(word + rest, 0) == word.len(),
{
    let s = word + rest;
    lemma_run_end_unique(s, 0, CharClass::Letter, word.len() as int);
    assert(s.subrange(0, word.len() as int) =~= word);
}

/// A run of digits is read as one `Int` token with the whole run as its
/// text, whatever follows the run.
pub proof fn lemma_number_token(digits: Seq<u8>, rest: Seq<u8>)
    requires
        digits.len() > 0,
        forall|i: int| 0 <= i < digits.len() ==> is_digit(#[trigger] digits[i]),
        !is_digit(byte_at(rest, 0)),
    ensures
        token_at(digits + rest, 0) == (TokenSpec { kind: TokenKind::Int, literal: text_of(digits) }),
        cursor_after(digits + rest, 0) == digits.len(),
{
    let s = digits + rest;
    lemma_run_end_unique(s, 0, CharClass::Digit, digits.len() as int);
    assert(s.subrange(0, digits.len() as int) =~= digits);
}

/// Where every byte is ASCII the text is exact: the bytes are the UTF-8
/// encoding of the text.
pub proof fn lemma_ascii_text_is_exact(bytes: Seq<u8>)
    requires
        forall|i: int| 0 <= i < bytes.len() ==> #[trigger] bytes[i] < 128,
    ensures
        encode_utf8(text_of(bytes)) == bytes,
{
    let text = text_of(bytes);
    is_ascii_chars_encode_utf8(text);
}

/// The text of a token is the stretch of the source that it was read from.
/// Every token but `Illegal` starts with an ASCII byte, and the bytes of a
/// token that starts with one are the UTF-8 encoding of its text.
pub proof fn lemma_literal_is_exact(s: Seq<u8>, at: int)
    requires
        0 <= at < s.len(),
        token_kind(s, at) != TokenKind::Eof,
    ensures
        token_kind(s, at) != TokenKind::Illegal ==> s[at] < 128,
        s[at] < 128 ==> encode_utf8(token_literal(s, at)) == s.subrange(at, at + token_len(s, at)),
{
    if s[at] < 128 {
        let end: int = at + token_len(s, at);
        lemma_run_end(s, at, CharClass::Letter);
        lemma_run_end(s, at, CharClass::Digit);
        let bytes = s.subrange(at, end);
        lemma_ascii_text_is_exact(bytes);
    }
}

/// A run is found by what lies at and behind its start: the bytes before
/// the start have no say in where it ends.
pub proof fn lemma_run_end_skip(s: Seq<u8>, i: int, class: CharClass)
    requires
        0 <= i <= s.len(),
    ensures
        run_end(s, i, class) == i + run_end(s.skip(i), 0, class),
{
    let t = s.skip(i);
    let e: int = run_end(t, 0, class);
    lemma_run_end(t, 0, class);
    assert forall|k: int| i <= k < i + e implies class.contains(#[trigger] s[k]) by {
        assert(s[k] == t[k - i]);
    }
    lemma_run_end_unique(s, i, class, i + e);
}

/// A token is found by what lies at and behind its first byte.
pub proof fn lemma_token_skip(s: Seq<u8>, at: int)
    requires
        0 <= at <= s.len(),
    ensures
        token_len(s, at) == token_len(s.skip(at), 0),
        token_kind(s, at) == token_kind(s.skip(at), 0),
        token_literal(s, at) == token_literal(s.skip(at), 0),
{
    let t = s.skip(at);
    lemma_run_end_skip(s, at, CharClass::Letter);
    lemma_run_end_skip(s, at, CharClass::Digit);
    if at < s.len() {
        lemma_run_end(s, at, CharClass::Letter);
        lemma_run_end(s, at, CharClass::Digit);
        let n: int = token_len(s, at);
        assert(s.subrange(at, at + n) =~= t.subrange(0, n));
    }
}

/// The token read at a cursor, and how far the cursor moves, are found by
/// what lies at and behind the cursor.
pub proof fn lemma_token_at_skip(s: Seq<u8>, pos: int)
    requires
        0 <= pos <= s.len(),
    ensures
        token_at(s, pos) == token_at(s.skip(pos), 0),
        cursor_after(s, pos) == pos + cursor_after(s.skip(pos), 0),
{
    let t = s.skip(pos);
    lemma_run_end_skip(s, pos, CharClass::Whitespace);
    lemma_run_end(t, 0, CharClass::Whitespace);
    let at: int = token_start(s, pos);
    lemma_token_skip(s, at);
    lemma_token_skip(t, at - pos);
    assert(t.skip(at - pos) =~= s.skip(at));
}

/// Scanning carries nothing forward: the tokens read from a cursor on are
/// the tokens of the rest of the source, read on its own.
pub proof fn lemma_stream_skip(s: Seq<u8>, pos: int)
    requires
        0 <= pos <= s.len(),
    ensures
        token_stream(s, pos) == token_stream(s.skip(pos), 0),
    decreases s.len() - pos,
{
    let t = s.skip(pos);
    lemma_token_at_skip(s, pos);
    if token_at(s, pos).kind != TokenKind::Eof {
        lemma_token_bounds(s, pos);
        let c: int = cursor_after(s, pos);
        lemma_stream_skip(s, c);
        lemma_stream_skip(t, c - pos);
        assert(t.skip(c - pos) =~= s.skip(c));
    }
}

/// A token that takes at least one byte stays what it is when the source
/// is changed behind it, as long as the byte right behind it stays the same
/// or becomes whitespace.
pub proof fn lemma_token_stable(s: Seq<u8>, changed: Seq<u8>, pos: int)
    requires
        0 <= pos <= s.len(),
        token_start(s, pos) < cursor_after(s, pos) <= changed.len(),
        forall|j: int| pos <= j < cursor_after(s, pos) ==> changed[j] == s[j],
        byte_at(changed, cursor_after(s, pos)) == byte_at(s, cursor_after(s, pos)) || is_whitespace(
            byte_at(changed, cursor_after(s, pos)),
        ),
    ensures
        token_at(changed, pos) == token_at(s, pos),
        cursor_after(changed, pos) == cursor_after(s, pos),
{
    let at: int = token_start(s, pos);
    let end: int = cursor_after(s, pos);
    lemma_token_bounds(s, pos);
    lemma_run_end(s, pos, CharClass::Whitespace);
    lemma_run_end_unique(changed, pos, CharClass::Whitespace, at);
    if !is_pair(s, at) && is_letter(s[at]) {
        lemma_run_end(s, at, CharClass::Letter);
        lemma_run_end_unique(changed, at, CharClass::Letter, end);
    } else if !is_pair(s, at) && is_digit(s[at]) {
        lemma_run_end(s, at, CharClass::Digit);
        lemma_run_end_unique(changed, at, CharClass::Digit, end);
    }
    assert(changed.subrange(at, end) =~= s.subrange(at, end));
}

/// Whitespace is never part of a token: no byte that a token takes from
/// the source is whitespace.
pub proof fn lemma_token_holds_no_whitespace(s: Seq<u8>, pos: int)
    requires
        0 <= pos <= s.len(),
    ensures
        forall|i: int|
            token_start(s, pos) <= i < cursor_after(s, pos) ==> !is_whitespace(#[trigger] s[i]),
{
    let at: int = token_start(s, pos);
    lemma_run_end(s, pos, CharClass::Whitespace);
    lemma_run_end(s, at, CharClass::Letter);
    lemma_run_end(s, at, CharClass::Digit);
    assert forall|i: int| at <= i < cursor_after(s, pos) implies !is_whitespace(
        #[trigger] s[i],
    ) by {
        if !is_pair(s, at) && is_letter(s[at]) {
            assert(CharClass::Letter.contains(s[i]));
        } else if !is_pair(s, at) && is_digit(s[at]) {
            assert(CharClass::Digit.contains(s[i]));
        }
    }
}

/// Whether `p` lies between two tokens of those read from `pos` on: in the
/// whitespace, if any, before the token read at `pos`, or between two
/// tokens further on. The ends of that stretch of whitespace count.
pub open spec fn between_tokens(s: Seq<u8>, pos: int, p: int) -> bool
    decreases s.len() - pos,
    via between_tokens_decreases
{
    ||| pos <= p <= token_start(s, pos)
    ||| (token_start(s, pos) < cursor_after(s, pos) <= p && between_tokens(
        s,
        cursor_after(s, pos),
        p,
    ))
}

#[via_fn]
proof fn between_tokens_decreases(s: Seq<u8>, pos: int, p: int) {
    if token_start(s, pos) < cursor_after(s, pos) {
        lemma_token_bounds(s, pos);
    }
}

/// The source `s` with the bytes `w` put in before index `p`.
pub open spec fn insert_at(s: Seq<u8>, p: int, w: Seq<u8>) -> Seq<u8> {
    s.subrange(0, p) + w + s.subrange(p, s.len() as int)
}

/// Whether every byte of `w` is whitespace.
pub open spec fn all_whitespace(w: Seq<u8>) -> bool {
    forall|i: int| 0 <= i < w.len() ==> is_whitespace(#[trigger] w[i])
}

/// Whitespace put in between two tokens changes no token read from `pos`
/// on.
pub proof fn lemma_whitespace_from(s: Seq<u8>, pos: int, p: int, w: Seq<u8>)
    requires
        0 <= pos <= p <= s.len(),
        between_tokens(s, pos, p),
        all_whitespace(w),
    ensures
        token_stream(insert_at(s, p, w), pos) == token_stream(s, pos),
    decreases s.len() - pos,
{
    let wide = insert_at(s, p, w);
    let at: int = token_start(s, pos);
    let end: int = cursor_after(s, pos);
    lemma_token_bounds(s, pos);
    lemma_run_end(s, pos, CharClass::Whitespace);
    if pos <= p <= at {
        lemma_run_end_unique(wide, pos, CharClass::Whitespace, at + w.len());
        lemma_token_skip(wide, at + w.len());
        lemma_token_skip(s, at);
        assert(wide.skip(at + w.len()) =~= s.skip(at));
        if token_at(s, pos).kind != TokenKind::Eof {
            lemma_stream_skip(wide, end + w.len());
            lemma_stream_skip(s, end);
            assert(wide.skip(end + w.len()) =~= s.skip(end));
        }
    } else {
        lemma_token_stable(s, wide, pos);
        lemma_whitespace_from(s, end, p, w);
    }
}

/// Whitespace is transparent: any run of whitespace put in between two
/// tokens of a source leaves the sequence of its tokens as it was.
pub proof fn lemma_whitespace_is_transparent(s: Seq<u8>, p: int, w: Seq<u8>)
    requires
        0 <= p <= s.len(),
        between_tokens(s, 0, p),
        all_whitespace(w),
    ensures
        token_stream(insert_at(s, p, w), 0) == token_stream(s, 0),
{
    lemma_whitespace_from(s, 0, p, w);
}

} // verus!
