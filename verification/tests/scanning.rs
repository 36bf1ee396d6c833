use lexer::lexer::Lexer;
use lexer::session::tokenize;
use lexer::token::{Token, TokenKind};

fn tok(kind: TokenKind, literal: &str) -> Token {
    Token::new(kind, literal.to_string())
}

fn first_token(input: &str) -> Token {
    Lexer::new(input.to_string()).next_token()
}

#[test]
fn test() {
    let input = "fn(x, y) {}; let five = 5;";
    let mut lexer = Lexer::new(input.to_string());
    let mut counter = 0;

    while counter <= input.len() {
        let l = lexer.next_token();
        println!("{:?}", l);
        counter += 1;
    }
}

#[test]
fn every_single_symbol_has_its_kind() {
    let table = [
        (";", TokenKind::Semicolon),
        ("(", TokenKind::Lparen),
        (")", TokenKind::Rparen),
        ("+", TokenKind::Plus),
        ("-", TokenKind::Minus),
        ("*", TokenKind::Asterisk),
        ("/", TokenKind::Slash),
        ("<", TokenKind::Lt),
        (">", TokenKind::Gt),
        ("{", TokenKind::Lbrace),
        ("}", TokenKind::Rbrace),
        (",", TokenKind::Comma),
    ];
    for (text, kind) in table {
        let mut lexer = Lexer::new(text.to_string());
        assert_eq!(lexer.next_token(), tok(kind, text));
        assert_eq!(lexer.next_token(), tok(TokenKind::Eof, ""));
    }
}

#[test]
fn double_equals_is_one_token() {
    assert_eq!(tokenize("==".to_string()), vec![tok(TokenKind::Equals, "=="), tok(TokenKind::Eof, "")]);
}

#[test]
fn single_equals_is_assign() {
    assert_eq!(tokenize("=".to_string()), vec![tok(TokenKind::Assign, "="), tok(TokenKind::Eof, "")]);
}

#[test]
fn bang_equals_is_one_token() {
    assert_eq!(
        tokenize("!=".to_string()),
        vec![tok(TokenKind::NotEquals, "!="), tok(TokenKind::Eof, "")]
    );
}

#[test]
fn single_bang_is_bang() {
    assert_eq!(tokenize("!".to_string()), vec![tok(TokenKind::Bang, "!"), tok(TokenKind::Eof, "")]);
}

#[test]
fn lookahead_is_one_byte_only() {
    assert_eq!(
        tokenize("===".to_string()),
        vec![tok(TokenKind::Equals, "=="), tok(TokenKind::Assign, "="), tok(TokenKind::Eof, "")]
    );
    assert_eq!(
        tokenize("!==".to_string()),
        vec![tok(TokenKind::NotEquals, "!="), tok(TokenKind::Assign, "="), tok(TokenKind::Eof, "")]
    );
    assert_eq!(
        tokenize("=!".to_string()),
        vec![tok(TokenKind::Assign, "="), tok(TokenKind::Bang, "!"), tok(TokenKind::Eof, "")]
    );
    assert_eq!(
        tokenize("= =".to_string()),
        vec![tok(TokenKind::Assign, "="), tok(TokenKind::Assign, "="), tok(TokenKind::Eof, "")]
    );
    assert_eq!(
        tokenize("! =".to_string()),
        vec![tok(TokenKind::Bang, "!"), tok(TokenKind::Assign, "="), tok(TokenKind::Eof, "")]
    );
}

#[test]
fn keywords_have_their_kinds() {
    let table = [
        ("fn", TokenKind::Function),
        ("let", TokenKind::Let),
        ("true", TokenKind::True),
        ("false", TokenKind::False),
        ("if", TokenKind::If),
        ("else", TokenKind::Else),
        ("return", TokenKind::Return),
    ];
    for (text, kind) in table {
        assert_eq!(Token::get_keyword(text), kind);
        assert_eq!(tokenize(text.to_string()), vec![tok(kind, text), tok(TokenKind::Eof, "")]);
    }
}

#[test]
fn other_words_are_identifiers() {
    for text in ["five", "x", "f", "fnn", "lets", "le", "iff", "elsee", "retur", "returns", "_", "_a_B", "truefalse"] {
        assert_eq!(Token::get_keyword(text), TokenKind::Ident);
        assert_eq!(tokenize(text.to_string()), vec![tok(TokenKind::Ident, text), tok(TokenKind::Eof, "")]);
    }
}

#[test]
fn keywords_are_matched_with_their_case() {
    for text in ["Fn", "LET", "True", "FALSE", "If", "ELSE", "Return"] {
        assert_eq!(first_token(text), tok(TokenKind::Ident, text));
    }
}

#[test]
fn keyword_lookup_of_text_that_is_no_word() {
    assert_eq!(Token::get_keyword(""), TokenKind::Ident);
    assert_eq!(Token::get_keyword("123"), TokenKind::Ident);
    assert_eq!(Token::get_keyword("let "), TokenKind::Ident);
}

#[test]
fn digit_run_is_one_int() {
    for text in ["0", "5", "10", "0123456789", "99999999999999999999999999"] {
        assert_eq!(tokenize(text.to_string()), vec![tok(TokenKind::Int, text), tok(TokenKind::Eof, "")]);
    }
}

#[test]
fn digits_then_letter() {
    assert_eq!(
        tokenize("12a".to_string()),
        vec![tok(TokenKind::Int, "12"), tok(TokenKind::Ident, "a"), tok(TokenKind::Eof, "")]
    );
}

#[test]
fn letters_then_digits() {
    assert_eq!(
        tokenize("abc123".to_string()),
        vec![tok(TokenKind::Ident, "abc"), tok(TokenKind::Int, "123"), tok(TokenKind::Eof, "")]
    );
}

#[test]
fn no_signs_or_points_in_numbers() {
    assert_eq!(
        tokenize("-1.5".to_string()),
        vec![
            tok(TokenKind::Minus, "-"),
            tok(TokenKind::Int, "1"),
            tok(TokenKind::Illegal, "."),
            tok(TokenKind::Int, "5"),
            tok(TokenKind::Eof, ""),
        ]
    );
}

#[test]
fn whitespace_between_tokens_is_transparent() {
    let tight = tokenize("let five=5;".to_string());
    assert_eq!(tokenize("let five = 5;".to_string()), tight);
    assert_eq!(tokenize("  let\tfive\n=\r\n5 ;  ".to_string()), tight);
    assert_eq!(tokenize("let \t\r\n five=5\n\n\n;".to_string()), tight);
    assert_eq!(
        tight,
        vec![
            tok(TokenKind::Let, "let"),
            tok(TokenKind::Ident, "five"),
            tok(TokenKind::Assign, "="),
            tok(TokenKind::Int, "5"),
            tok(TokenKind::Semicolon, ";"),
            tok(TokenKind::Eof, ""),
        ]
    );
}

#[test]
fn only_whitespace_is_eof() {
    assert_eq!(tokenize(" \t\r\n ".to_string()), vec![tok(TokenKind::Eof, "")]);
}

#[test]
fn other_blank_bytes_are_not_whitespace() {
    assert_eq!(
        tokenize("\u{b}".to_string()),
        vec![tok(TokenKind::Illegal, "\u{b}"), tok(TokenKind::Eof, "")]
    );
    assert_eq!(
        tokenize("\u{c}".to_string()),
        vec![tok(TokenKind::Illegal, "\u{c}"), tok(TokenKind::Eof, "")]
    );
}

#[test]
fn let_statement() {
    assert_eq!(
        tokenize("let five = 5;".to_string()),
        vec![
            tok(TokenKind::Let, "let"),
            tok(TokenKind::Ident, "five"),
            tok(TokenKind::Assign, "="),
            tok(TokenKind::Int, "5"),
            tok(TokenKind::Semicolon, ";"),
            tok(TokenKind::Eof, ""),
        ]
    );
}

#[test]
fn function_literal() {
    assert_eq!(
        tokenize("fn(x, y) {};".to_string()),
        vec![
            tok(TokenKind::Function, "fn"),
            tok(TokenKind::Lparen, "("),
            tok(TokenKind::Ident, "x"),
            tok(TokenKind::Comma, ","),
            tok(TokenKind::Ident, "y"),
            tok(TokenKind::Rparen, ")"),
            tok(TokenKind::Lbrace, "{"),
            tok(TokenKind::Rbrace, "}"),
            tok(TokenKind::Semicolon, ";"),
            tok(TokenKind::Eof, ""),
        ]
    );
}

#[test]
fn comparisons() {
    assert_eq!(
        tokenize("10 == 10; 10 != 9;".to_string()),
        vec![
            tok(TokenKind::Int, "10"),
            tok(TokenKind::Equals, "=="),
            tok(TokenKind::Int, "10"),
            tok(TokenKind::Semicolon, ";"),
            tok(TokenKind::Int, "10"),
            tok(TokenKind::NotEquals, "!="),
            tok(TokenKind::Int, "9"),
            tok(TokenKind::Semicolon, ";"),
            tok(TokenKind::Eof, ""),
        ]
    );
}

#[test]
fn every_operator_in_one_line() {
    assert_eq!(
        tokenize("!-/*5; 5 < 10 > 5; if (5 < 10) { return true; } else { return false; }".to_string()),
        vec![
            tok(TokenKind::Bang, "!"),
            tok(TokenKind::Minus, "-"),
            tok(TokenKind::Slash, "/"),
            tok(TokenKind::Asterisk, "*"),
            tok(TokenKind::Int, "5"),
            tok(TokenKind::Semicolon, ";"),
            tok(TokenKind::Int, "5"),
            tok(TokenKind::Lt, "<"),
            tok(TokenKind::Int, "10"),
            tok(TokenKind::Gt, ">"),
            tok(TokenKind::Int, "5"),
            tok(TokenKind::Semicolon, ";"),
            tok(TokenKind::If, "if"),
            tok(TokenKind::Lparen, "("),
            tok(TokenKind::Int, "5"),
            tok(TokenKind::Lt, "<"),
            tok(TokenKind::Int, "10"),
            tok(TokenKind::Rparen, ")"),
            tok(TokenKind::Lbrace, "{"),
            tok(TokenKind::Return, "return"),
            tok(TokenKind::True, "true"),
            tok(TokenKind::Semicolon, ";"),
            tok(TokenKind::Rbrace, "}"),
            tok(TokenKind::Else, "else"),
            tok(TokenKind::Lbrace, "{"),
            tok(TokenKind::Return, "return"),
            tok(TokenKind::False, "false"),
            tok(TokenKind::Semicolon, ";"),
            tok(TokenKind::Rbrace, "}"),
            tok(TokenKind::Eof, ""),
        ]
    );
}

#[test]
fn empty_input_is_eof() {
    assert_eq!(tokenize(String::new()), vec![tok(TokenKind::Eof, "")]);
    let mut lexer = Lexer::new(String::new());
    assert_eq!(lexer.next_token(), tok(TokenKind::Eof, ""));
}

#[test]
fn eof_is_returned_again_and_again() {
    let mut lexer = Lexer::new("x".to_string());
    assert_eq!(lexer.next_token(), tok(TokenKind::Ident, "x"));
    for _ in 0..100 {
        assert_eq!(lexer.next_token(), tok(TokenKind::Eof, ""));
    }
}

#[test]
fn illegal_byte_is_marked_and_passed() {
    assert_eq!(
        tokenize("a @ b".to_string()),
        vec![
            tok(TokenKind::Ident, "a"),
            tok(TokenKind::Illegal, "@"),
            tok(TokenKind::Ident, "b"),
            tok(TokenKind::Eof, ""),
        ]
    );
    assert_eq!(tokenize("@".to_string()), vec![tok(TokenKind::Illegal, "@"), tok(TokenKind::Eof, "")]);
    assert_eq!(
        tokenize("#%".to_string()),
        vec![tok(TokenKind::Illegal, "#"), tok(TokenKind::Illegal, "%"), tok(TokenKind::Eof, "")]
    );
}

#[test]
fn bytes_outside_ascii_are_illegal_one_by_one() {
    // U+00E9 is the two bytes C3 A9 in the source.
    assert_eq!(
        tokenize("a\u{e9}1".to_string()),
        vec![
            tok(TokenKind::Ident, "a"),
            tok(TokenKind::Illegal, "\u{c3}"),
            tok(TokenKind::Illegal, "\u{a9}"),
            tok(TokenKind::Int, "1"),
            tok(TokenKind::Eof, ""),
        ]
    );
}

#[test]
fn zero_byte_reads_as_eof_and_is_passed() {
    let mut lexer = Lexer::new("a\u{0}b".to_string());
    assert_eq!(lexer.next_token(), tok(TokenKind::Ident, "a"));
    assert_eq!(lexer.next_token(), tok(TokenKind::Eof, ""));
    assert_eq!(lexer.next_token(), tok(TokenKind::Ident, "b"));
    assert_eq!(lexer.next_token(), tok(TokenKind::Eof, ""));
    assert_eq!(lexer.next_token(), tok(TokenKind::Eof, ""));
    assert_eq!(
        tokenize("a\u{0}b".to_string()),
        vec![tok(TokenKind::Ident, "a"), tok(TokenKind::Eof, "")]
    );
}

#[test]
fn tokenize_ends_with_the_one_eof() {
    for input in ["", " ", "x", "1 2 3", "@@@", "let x = fn(a) { a + 1 };", "==!=", "\t\n"] {
        let tokens = tokenize(input.to_string());
        assert!(tokens.len() >= 1);
        assert!(tokens.len() <= input.len() + 1);
        for (i, token) in tokens.iter().enumerate() {
            assert_eq!(token.kind == TokenKind::Eof, i + 1 == tokens.len());
        }
    }
}

#[test]
fn tokenize_is_what_the_calls_give() {
    let input = "if (a != b) { return 10 / 2; } else { let _c = !true == false; }";
    let mut lexer = Lexer::new(input.to_string());
    let mut expected = Vec::new();
    loop {
        let token = lexer.next_token();
        let done = token.kind == TokenKind::Eof;
        expected.push(token);
        if done {
            break;
        }
    }
    assert_eq!(tokenize(input.to_string()), expected);
    assert_eq!(expected.len(), 25);
}

#[test]
fn read_char_moves_one_byte_and_stops_at_the_end() {
    let mut lexer = Lexer::new("ab".to_string());
    assert_eq!(lexer.peek_char(), 98);
    lexer.read_char();
    assert_eq!(lexer.peek_char(), 0);
    assert_eq!(lexer.read_identifier(), "b");
    for _ in 0..10 {
        lexer.read_char();
        assert_eq!(lexer.peek_char(), 0);
        assert_eq!(lexer.next_token(), tok(TokenKind::Eof, ""));
    }
}

#[test]
fn peek_char_leaves_the_scanner_alone() {
    let mut lexer = Lexer::new("=;".to_string());
    assert_eq!(lexer.peek_char(), 59);
    assert_eq!(lexer.peek_char(), 59);
    assert_eq!(lexer.next_token(), tok(TokenKind::Assign, "="));
    assert_eq!(lexer.peek_char(), 0);
    assert_eq!(lexer.next_token(), tok(TokenKind::Semicolon, ";"));
    assert_eq!(lexer.peek_char(), 0);
}

#[test]
fn read_identifier_takes_the_letters() {
    let mut lexer = Lexer::new("foo_Bar9 x".to_string());
    assert_eq!(lexer.read_identifier(), "foo_Bar");
    assert_eq!(lexer.read_identifier(), "");
    assert_eq!(lexer.read_number(), "9");
    assert_eq!(lexer.read_identifier(), "");
    lexer.skip_white_spaces();
    assert_eq!(lexer.read_identifier(), "x");
    assert_eq!(lexer.read_identifier(), "");
}

#[test]
fn read_number_takes_the_digits() {
    let mut lexer = Lexer::new("0042x".to_string());
    assert_eq!(lexer.read_number(), "0042");
    assert_eq!(lexer.read_number(), "");
    assert_eq!(lexer.next_token(), tok(TokenKind::Ident, "x"));
    assert_eq!(lexer.read_number(), "");
}

#[test]
fn skip_white_spaces_stops_at_the_token() {
    let mut lexer = Lexer::new(" \t\r\n+ ".to_string());
    lexer.skip_white_spaces();
    assert_eq!(lexer.peek_char(), 32);
    lexer.skip_white_spaces();
    assert_eq!(lexer.next_token(), tok(TokenKind::Plus, "+"));
    lexer.skip_white_spaces();
    lexer.skip_white_spaces();
    assert_eq!(lexer.next_token(), tok(TokenKind::Eof, ""));
}

#[test]
fn two_scanners_over_one_text_do_not_share() {
    let mut first = Lexer::new("a b".to_string());
    let mut second = Lexer::new("a b".to_string());
    assert_eq!(first.next_token(), tok(TokenKind::Ident, "a"));
    assert_eq!(first.next_token(), tok(TokenKind::Ident, "b"));
    assert_eq!(second.next_token(), tok(TokenKind::Ident, "a"));
    assert_eq!(first.next_token(), tok(TokenKind::Eof, ""));
    assert_eq!(second.next_token(), tok(TokenKind::Ident, "b"));
}

#[test]
fn token_new_keeps_its_parts() {
    let token = Token::new(TokenKind::Ident, "name".to_string());
    assert_eq!(token.kind, TokenKind::Ident);
    assert_eq!(token.literal, "name");
    assert_ne!(token, Token::new(TokenKind::Ident, "nam".to_string()));
    assert_ne!(token, Token::new(TokenKind::Let, "name".to_string()));
}

#[test]
fn kinds_have_their_names() {
    let table = [
        (TokenKind::Illegal, "ILLEGAL"),
        (TokenKind::Eof, "EOF"),
        (TokenKind::Ident, "IDENT"),
        (TokenKind::Int, "INT"),
        (TokenKind::Assign, "ASSIGN"),
        (TokenKind::Plus, "PLUS"),
        (TokenKind::Minus, "MINUS"),
        (TokenKind::Bang, "BANG"),
        (TokenKind::Asterisk, "ASTERISK"),
        (TokenKind::Slash, "SLASH"),
        (TokenKind::Lt, "LT"),
        (TokenKind::Gt, "GT"),
        (TokenKind::Equals, "EQUALS"),
        (TokenKind::NotEquals, "NOT_EQUALS"),
        (TokenKind::Comma, "COMMA"),
        (TokenKind::Semicolon, "SEMICOLON"),
        (TokenKind::Lparen, "LPAREN"),
        (TokenKind::Rparen, "RPAREN"),
        (TokenKind::Lbrace, "LBRACE"),
        (TokenKind::Rbrace, "RBRACE"),
        (TokenKind::Function, "FUNCTION"),
        (TokenKind::Let, "LET"),
        (TokenKind::True, "TRUE"),
        (TokenKind::False, "FALSE"),
        (TokenKind::If, "IF"),
        (TokenKind::Else, "ELSE"),
        (TokenKind::Return, "RETURN"),
    ];
    for (kind, name) in table {
        assert_eq!(kind.name(), name);
    }
}

#[test]
fn long_input_is_scanned_to_its_end() {
    let input = "let x1 = 10 != y_; ".repeat(5000);
    let tokens = tokenize(input);
    assert_eq!(tokens.len(), 5000 * 8 + 1);
    assert_eq!(tokens[0], tok(TokenKind::Let, "let"));
    assert_eq!(tokens[1], tok(TokenKind::Ident, "x"));
    assert_eq!(tokens[2], tok(TokenKind::Int, "1"));
    assert_eq!(tokens[5], tok(TokenKind::NotEquals, "!="));
    assert_eq!(tokens[6], tok(TokenKind::Ident, "y_"));
    assert_eq!(tokens[5000 * 8], tok(TokenKind::Eof, ""));
}
