//! Tokens: a kind out of a closed set, and the text that was read.
use vstd::prelude::*;
use vstd::utf8::encode_utf8_decode_utf8;

verus! {

/// The classifications a token can have.
#[derive(Clone, Copy, Debug, PartialEq, Eq, Structural)]
pub enum TokenKind {
    /// A byte that starts no token of the language.
    Illegal,
    /// The end of the input, or a zero byte in it.
    Eof,
    /// A word that is no keyword.
    Ident,
    /// A run of decimal digits.
    Int,
    /// `=`
    Assign,
    /// `+`
    Plus,
    /// `-`
    Minus,
    /// `!`
    Bang,
    /// `*`
    Asterisk,
    /// `/`
    Slash,
    /// `<`
    Lt,
    /// `>`
    Gt,
    /// `==`
    Equals,
    /// `!=`
    NotEquals,
    /// `,`
    Comma,
    /// `;`
    Semicolon,
    /// `(`
    Lparen,
    /// `)`
    Rparen,
    /// `{`
    Lbrace,
    /// `}`
    Rbrace,
    /// The keyword `fn`.
    Function,
    /// The keyword `let`.
    Let,
    /// The keyword `true`.
    True,
    /// The keyword `false`.
    False,
    /// The keyword `if`.
    If,
    /// The keyword `else`.
    Else,
    /// The keyword `return`.
    Return,
}

impl TokenKind {
    /// The name under which a parser knows the kind.
    pub open spec fn spec_name(self) -> Seq<char> {
        match self {
            TokenKind::Illegal => "ILLEGAL"@,
            TokenKind::Eof => "EOF"@,
            TokenKind::Ident => "IDENT"@,
            TokenKind::Int => "INT"@,
            TokenKind::Assign => "ASSIGN"@,
            TokenKind::Plus => "PLUS"@,
            TokenKind::Minus => "MINUS"@,
            TokenKind::Bang => "BANG"@,
            TokenKind::Asterisk => "ASTERISK"@,
            TokenKind::Slash => "SLASH"@,
            TokenKind::Lt => "LT"@,
            TokenKind::Gt => "GT"@,
            TokenKind::Equals => "EQUALS"@,
            TokenKind::NotEquals => "NOT_EQUALS"@,
            TokenKind::Comma => "COMMA"@,
            TokenKind::Semicolon => "SEMICOLON"@,
            TokenKind::Lparen => "LPAREN"@,
            TokenKind::Rparen => "RPAREN"@,
            TokenKind::Lbrace => "LBRACE"@,
            TokenKind::Rbrace => "RBRACE"@,
            TokenKind::Function => "FUNCTION"@,
            TokenKind::Let => "LET"@,
            TokenKind::True => "TRUE"@,
            TokenKind::False => "FALSE"@,
            TokenKind::If => "IF"@,
            TokenKind::Else => "ELSE"@,
            TokenKind::Return => "RETURN"@,
        }
    }

    /// The name under which a parser knows the kind.
    pub fn name(self) -> (name: &'static str)
        ensures
            name@ == self.spec_name(),
    {
        match self {
            TokenKind::Illegal => "ILLEGAL",
            TokenKind::Eof => "EOF",
            TokenKind::Ident => "IDENT",
            TokenKind::Int => "INT",
            TokenKind::Assign => "ASSIGN",
            TokenKind::Plus => "PLUS",
            TokenKind::Minus => "MINUS",
            TokenKind::Bang => "BANG",
            TokenKind::Asterisk => "ASTERISK",
            TokenKind::Slash => "SLASH",
            TokenKind::Lt => "LT",
            TokenKind::Gt => "GT",
            TokenKind::Equals => "EQUALS",
            TokenKind::NotEquals => "NOT_EQUALS",
            TokenKind::Comma => "COMMA",
            TokenKind::Semicolon => "SEMICOLON",
            TokenKind::Lparen => "LPAREN",
            TokenKind::Rparen => "RPAREN",
            TokenKind::Lbrace => "LBRACE",
            TokenKind::Rbrace => "RBRACE",
            TokenKind::Function => "FUNCTION",
            TokenKind::Let => "LET",
            TokenKind::True => "TRUE",
            TokenKind::False => "FALSE",
            TokenKind::If => "IF",
            TokenKind::Else => "ELSE",
            TokenKind::Return => "RETURN",
        }
    }
}

/// What a token is in contracts: its kind and its text.
pub struct TokenSpec {
    pub kind: TokenKind,
    pub literal: Seq<char>,
}

/// A token as the scanner hands it out. The caller owns it.
#[derive(Clone, Debug, PartialEq, Eq)]
pub struct Token {
    pub kind: TokenKind,
    pub literal: String,
}

impl View for Token {
    type V = TokenSpec;

    open spec fn view(&self) -> TokenSpec {
        TokenSpec { kind: self.kind, literal: self.literal@ }
    }
}

impl DeepView for Token {
    type V = TokenSpec;

    open spec fn deep_view(&self) -> TokenSpec {
        self@
    }
}

/// The keyword table: the kind that a word has. A word is matched whole and
/// with its case; every word outside the table is an identifier.
pub open spec fn keyword_kind(word: Seq<char>) -> TokenKind {
    if word == "fn"@ {
        TokenKind::Function
    } else if word == "let"@ {
        TokenKind::Let
    } else if word == "true"@ {
        TokenKind::True
    } else if word == "false"@ {
        TokenKind::False
    } else if word == "if"@ {
        TokenKind::If
    } else if word == "else"@ {
        TokenKind::Else
    } else if word == "return"@ {
        TokenKind::Return
    } else {
        TokenKind::Ident
    }
}

/// Whether two string slices hold the same text.
fn same_text(a: &str, b: &str) -> (r: bool)
    ensures
        r == (a@ == b@),
{
    let x = a.as_bytes();
    let y = b.as_bytes();
    proof {
        encode_utf8_decode_utf8(a@);
        encode_utf8_decode_utf8(b@);
    }
    if x.len() != y.len() {
        return false;
    }
    let mut i: usize = 0;
    while i < x.len()
        invariant
            x@.len() == y@.len(),
            i <= x@.len(),
            forall|j: int| 0 <= j < i ==> x@[j] == y@[j],
            (a@ == b@) ==> (x@ == y@),
        decreases x.len() - i,
    {
        if x[i] != y[i] {
            return false;
        }
        i += 1;
    }
    assert(x@ =~= y@);
    true
}

impl Token {
    /// A token of `kind` with the text `literal`.
    pub fn new(kind: TokenKind, literal: String) -> (token: Token)
        ensures
            token.kind == kind,
            token.literal == literal,
    {
        Token { kind, literal }
    }

    /// Looks a word up in the keyword table.
    pub fn get_keyword(ident: &str) -> (kind: TokenKind)
        ensures
            kind == keyword_kind(ident@),
    {
        if same_text(ident, "fn") {
            TokenKind::Function
        } else if same_text(ident, "let") {
            TokenKind::Let
        } else if same_text(ident, "true") {
            TokenKind::True
        } else if same_text(ident, "false") {
            TokenKind::False
        } else if same_text(ident, "if") {
            TokenKind::If
        } else if same_text(ident, "else") {
            TokenKind::Else
        } else if same_text(ident, "return") {
            TokenKind::Return
        } else {
            TokenKind::Ident
        }
    }
}

} // verus!
