//! One scanning session: all the tokens of one source text.
use crate::grammar::{lemma_token_bounds, token_stream};
use crate::lexer::Lexer;
use crate::token::{Token, TokenKind};
use vstd::prelude::*;
use vstd::utf8::encode_utf8;

verus! {

/// Scans `input` from its first byte and collects the tokens up to and with
/// the first `Eof`. No more calls are made than the input has bytes, and one
/// more; that many always reach `Eof`.
pub fn tokenize(input: String) -> (tokens: Vec<Token>)
    ensures
        tokens.deep_view() == token_stream(encode_utf8(input@), 0),
{
    let limit: usize = input.as_str().len();
    let mut lexer = Lexer::new(input);
    let ghost source = lexer@.source;
    let mut tokens: Vec<Token> = Vec::new();
    let mut counter: usize = 0;
    let mut done = false;
    while counter <= limit && !done
        invariant
            lexer.wf(),
            lexer@.source == source,
            limit == source.len(),
            !done ==> counter <= lexer@.position,
            done ==> token_stream(source, 0) == tokens.deep_view(),
            !done ==> token_stream(source, 0) == tokens.deep_view() + token_stream(
                source,
                lexer@.position,
            ),
        decreases limit + 1 - counter,
    {
        proof {
            lemma_token_bounds(source, lexer@.position);
        }
        let token = lexer.next_token();
        done = token.kind == TokenKind::Eof;
        tokens.push(token);
        counter += 1;
    }
    tokens
}

} // verus!
