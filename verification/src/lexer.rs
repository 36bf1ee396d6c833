//! The scanner: a cursor over the source bytes that hands out one token per
//! call.
use crate::charset::{
    byte_at, is_digit, is_letter, lemma_run_end, run_end, text_of, CharClass, END_OF_INPUT,
};
use crate::grammar::{cursor_after, symbol_kind, token_at, token_start};
use crate::token::{Token, TokenKind};
use vstd::prelude::*;
use vstd::string::StrSliceExecFns;
use vstd::utf8::encode_utf8;

verus! {

/// `String::push`: the string afterwards is the string before with the one
/// character `ch` added at its end.
pub assume_specification[ String::push ](s: &mut String, ch: char)
    ensures
        final(s)@ == old(s)@.push(ch),
;

/// What a scanner is in contracts: the source bytes, which never change,
/// and the cursor, the index of the current byte.
pub struct LexerView {
    pub source: Seq<u8>,
    pub position: int,
}

/// A scanner over one source text.
pub struct Lexer {
    /// The source bytes, with one `END_OF_INPUT` behind them.
    input: Vec<u8>,
    /// Index of the current byte.
    position: usize,
    /// Index of the byte that is read next.
    read_position: usize,
    /// The current byte, `END_OF_INPUT` behind the last one.
    ch: u8,
}

impl View for Lexer {
    type V = LexerView;

    closed spec fn view(&self) -> LexerView {
        LexerView { source: self.input@.drop_last(), position: self.position as int }
    }
}

/// The kind of a one-byte operator or delimiter, if `ch` is one.
fn symbol(ch: u8) -> (kind: Option<TokenKind>)
    ensures
        kind == symbol_kind(ch),
{
    if ch == '=' as u8 {
        Some(TokenKind::Assign)
    } else if ch == '!' as u8 {
        Some(TokenKind::Bang)
    } else if ch == ';' as u8 {
        Some(TokenKind::Semicolon)
    } else if ch == '(' as u8 {
        Some(TokenKind::Lparen)
    } else if ch == ')' as u8 {
        Some(TokenKind::Rparen)
    } else if ch == '{' as u8 {
        Some(TokenKind::Lbrace)
    } else if ch == '}' as u8 {
        Some(TokenKind::Rbrace)
    } else if ch == '+' as u8 {
        Some(TokenKind::Plus)
    } else if ch == '*' as u8 {
        Some(TokenKind::Asterisk)
    } else if ch == ',' as u8 {
        Some(TokenKind::Comma)
    } else if ch == '-' as u8 {
        Some(TokenKind::Minus)
    } else if ch == '/' as u8 {
        Some(TokenKind::Slash)
    } else if ch == '<' as u8 {
        Some(TokenKind::Lt)
    } else if ch == '>' as u8 {
        Some(TokenKind::Gt)
    } else {
        None
    }
}

impl Lexer {
    /// The index of the byte that is read next.
    pub closed spec fn read_position(&self) -> int {
        self.read_position as int
    }

    /// The current byte.
    pub closed spec fn current(&self) -> u8 {
        self.ch
    }

    /// The buffer holds the source and the end mark behind it.
    pub closed spec fn terminated(&self) -> bool {
        self.input@.len() > 0 && self.input@.last() == END_OF_INPUT
    }

    /// The invariant of the cursor: it stands on a byte of the source or
    /// just behind the last one, the read position is one ahead of it, and
    /// the current byte is the byte under it. Both positions fit the
    /// machine's index type.
    pub open spec fn wf(&self) -> bool {
        &&& self.terminated()
        &&& 0 <= self@.position <= self@.source.len() < usize::MAX
        &&& self.read_position() == self@.position + 1
        &&& self.current() == byte_at(self@.source, self@.position)
    }

    /// A scanner over the bytes of `input`, with the cursor on the first
    /// byte.
    pub fn new(input: String) -> (lexer: Lexer)
        ensures
            lexer.wf(),
            lexer@.source == encode_utf8(input@),
            lexer@.position == 0,
    {
        let mut buffer = input.as_str().as_bytes_vec();
        buffer.push(END_OF_INPUT);
        assert(buffer@.len() == buffer.len());
        let ch: u8 = buffer[0];
        Lexer { input: buffer, position: 0, read_position: 1, ch }
    }

    /// Moves the cursor one byte on. Behind the last byte the cursor stays
    /// where it is.
    pub fn read_char(&mut self)
        requires
            old(self).wf(),
        ensures
            final(self).wf(),
            final(self)@.source == old(self)@.source,
            final(self)@.position == if old(self)@.position < old(self)@.source.len() {
                old(self)@.position + 1
            } else {
                old(self)@.position
            },
    {
        if self.read_position < self.input.len() {
            self.ch = self.input[self.read_position];
            self.position = self.read_position;
            self.read_position += 1;
        } else {
            self.ch = END_OF_INPUT;
        }
    }

    /// The byte behind the current one, `END_OF_INPUT` where there is none.
    /// The scanner is left as it was.
    pub fn peek_char(&mut self) -> (ch: u8)
        requires
            old(self).wf(),
        ensures
            *final(self) == *old(self),
            ch == byte_at(old(self)@.source, old(self)@.position + 1),
    {
        if self.read_position >= self.input.len() {
            return END_OF_INPUT;
        }
        self.input[self.read_position]
    }

    /// Moves the cursor over the run of bytes of `class` that starts under
    /// it.
    fn skip_run(&mut self, class: CharClass)
        requires
            old(self).wf(),
        ensures
            final(self).wf(),
            final(self)@.source == old(self)@.source,
            final(self)@.position == run_end(old(self)@.source, old(self)@.position, class),
    {
        while class.contains(self.ch)
            invariant
                self.wf(),
                self@.source == old(self)@.source,
                old(self)@.position <= self@.position,
                run_end(self@.source, self@.position, class) == run_end(
                    old(self)@.source,
                    old(self)@.position,
                    class,
                ),
            decreases self@.source.len() - self@.position,
        {
            self.read_char();
        }
    }

    /// The text of the source bytes in `start..end`.
    fn text_between(&self, start: usize, end: usize) -> (text: String)
        requires
            self.wf(),
            start <= end <= self@.source.len(),
        ensures
            text@ == text_of(self@.source.subrange(start as int, end as int)),
    {
        let mut text = String::new();
        let mut i: usize = start;
        while i < end
            invariant
                self.wf(),
                start <= i <= end <= self@.source.len(),
                text@ == text_of(self@.source.subrange(start as int, i as int)),
            decreases end - i,
        {
            text.push(self.input[i] as char);
            i += 1;
        }
        text
    }

    /// Moves the cursor over the letters that start under it and returns
    /// them. Where the current byte is no letter the cursor stays and the
    /// text is empty.
    pub fn read_identifier(&mut self) -> (text: String)
        requires
            old(self).wf(),
        ensures
            final(self).wf(),
            final(self)@.source == old(self)@.source,
            final(self)@.position == run_end(
                old(self)@.source,
                old(self)@.position,
                CharClass::Letter,
            ),
            text@ == text_of(
                old(self)@.source.subrange(old(self)@.position, final(self)@.position),
            ),
    {
        let start: usize = self.position;
        self.skip_run(CharClass::Letter);
        proof {
            lemma_run_end(self@.source, start as int, CharClass::Letter);
        }
        self.text_between(start, self.position)
    }

    /// Moves the cursor over the digits that start under it and returns
    /// them. Where the current byte is no digit the cursor stays and the
    /// text is empty.
    pub fn read_number(&mut self) -> (text: String)
        requires
            old(self).wf(),
        ensures
            final(self).wf(),
            final(self)@.source == old(self)@.source,
            final(self)@.position == run_end(
                old(self)@.source,
                old(self)@.position,
                CharClass::Digit,
            ),
            text@ == text_of(
                old(self)@.source.subrange(old(self)@.position, final(self)@.position),
            ),
    {
        let start: usize = self.position;
        self.skip_run(CharClass::Digit);
        proof {
            lemma_run_end(self@.source, start as int, CharClass::Digit);
        }
        self.text_between(start, self.position)
    }

    /// Moves the cursor over the whitespace that starts under it.
    pub fn skip_white_spaces(&mut self)
        requires
            old(self).wf(),
        ensures
            final(self).wf(),
            final(self)@.source == old(self)@.source,
            final(self)@.position == token_start(old(self)@.source, old(self)@.position),
    {
        self.skip_run(CharClass::Whitespace);
    }

    /// Reads the next token: passes over whitespace, classifies what
    /// follows and moves the cursor behind it. At the end of the source
    /// every call returns `Eof` and the cursor stays.
    pub fn next_token(&mut self) -> (token: Token)
        requires
            old(self).wf(),
        ensures
            final(self).wf(),
            final(self)@.source == old(self)@.source,
            token@ == token_at(old(self)@.source, old(self)@.position),
            final(self)@.position == cursor_after(old(self)@.source, old(self)@.position),
    {
        self.skip_white_spaces();
        let start: usize = self.position;
        let ch: u8 = self.ch;
        if ch == END_OF_INPUT {
            self.read_char();
            return Token::new(TokenKind::Eof, String::new());
        }
        if (ch == '=' as u8 || ch == '!' as u8) && self.peek_char() == '=' as u8 {
            self.read_char();
            self.read_char();
            let kind = if ch == '=' as u8 {
                TokenKind::Equals
            } else {
                TokenKind::NotEquals
            };
            return Token::new(kind, self.text_between(start, self.position));
        }
        match symbol(ch) {
            Some(kind) => {
                self.read_char();
                Token::new(kind, self.text_between(start, self.position))
            },
            None => {
                if is_letter(ch) {
                    let literal = self.read_identifier();
                    let kind = Token::get_keyword(literal.as_str());
                    Token::new(kind, literal)
                } else if is_digit(ch) {
                    let literal = self.read_number();
                    Token::new(TokenKind::Int, literal)
                } else {
                    self.read_char();
                    Token::new(TokenKind::Illegal, self.text_between(start, self.position))
                }
            },
        }
    }
}

} // verus!
