use rlox::error::{ErrorKind, LoxError};
use rlox::scanner::{Keywords, Scanner};
use rlox::token::{Object, Token, TokenType};

fn scanner_on(source: &str) -> Scanner {
    Scanner::new(source.to_string())
}

#[test]
fn new_scanner_stands_at_the_start() {
    let scanner = scanner_on("a\u{e9}b");
    assert_eq!(scanner.source, vec!['a', '\u{e9}', 'b']);
    assert!(scanner.tokens.is_empty());
    assert!(scanner.errors.is_empty());
    assert_eq!(scanner.start, 0);
    assert_eq!(scanner.current, 0);
    assert_eq!(scanner.line, 1);
}

#[test]
fn is_at_end_tells_when_the_text_is_used_up() {
    let mut scanner = scanner_on("ab");
    assert!(!scanner.is_at_end());
    scanner.advance();
    assert!(!scanner.is_at_end());
    scanner.advance();
    assert!(scanner.is_at_end());
    assert!(scanner_on("").is_at_end());
}

#[test]
fn peek_and_peek_next_do_not_move() {
    let mut scanner = scanner_on("xy");
    assert_eq!(scanner.peek(), Some('x'));
    assert_eq!(scanner.peek_next(), Some('y'));
    assert_eq!(scanner.current, 0);
    scanner.advance();
    assert_eq!(scanner.peek(), Some('y'));
    assert_eq!(scanner.peek_next(), None);
    scanner.advance();
    assert_eq!(scanner.peek(), None);
    assert_eq!(scanner.peek_next(), None);
    assert_eq!(scanner.current, 2);
}

#[test]
fn advance_returns_the_character_and_moves_by_one() {
    let mut scanner = scanner_on("a\nb");
    assert_eq!(scanner.advance(), 'a');
    assert_eq!(scanner.current, 1);
    assert_eq!(scanner.advance(), '\n');
    assert_eq!(scanner.current, 2);
    assert_eq!(scanner.line, 1);
    assert_eq!(scanner.start, 0);
    assert_eq!(scanner.advance(), 'b');
    assert_eq!(scanner.current, 3);
}

#[test]
fn is_match_consumes_only_the_expected_character() {
    let mut scanner = scanner_on("=x");
    assert!(!scanner.is_match('x'));
    assert_eq!(scanner.current, 0);
    assert!(scanner.is_match('='));
    assert_eq!(scanner.current, 1);
    assert!(!scanner.is_match('='));
    assert_eq!(scanner.current, 1);
    assert!(scanner.is_match('x'));
    assert_eq!(scanner.current, 2);
    assert!(!scanner.is_match('x'));
    assert_eq!(scanner.current, 2);
}

#[test]
fn is_double_match_consumes_both_or_neither() {
    let mut scanner = scanner_on("*/*");
    assert!(!scanner.is_double_match('/', '*'));
    assert!(!scanner.is_double_match('*', '*'));
    assert_eq!(scanner.current, 0);
    assert!(scanner.is_double_match('*', '/'));
    assert_eq!(scanner.current, 2);
    assert!(!scanner.is_double_match('*', '/'));
    assert_eq!(scanner.current, 2);
    scanner.advance();
    assert!(!scanner.is_double_match('*', '/'));
    assert_eq!(scanner.current, 3);
}

#[test]
fn is_digit_knows_the_ascii_digits() {
    for c in '0'..='9' {
        assert!(Scanner::is_digit(Some(c)));
    }
    for c in ['a', 'Z', '_', '.', ' ', '/', ':', '\u{663}', '\u{ff11}'] {
        assert!(!Scanner::is_digit(Some(c)), "{:?}", c);
    }
    assert!(!Scanner::is_digit(None));
}

#[test]
fn is_alpha_numeric_knows_the_ascii_letters_and_digits() {
    for c in ('a'..='z').chain('A'..='Z').chain('0'..='9') {
        assert!(Scanner::is_alpha_numeric(Some(c)));
    }
    for c in ['_', '@', '[', '`', '{', ' ', '\u{e9}', '\u{3b1}'] {
        assert!(!Scanner::is_alpha_numeric(Some(c)), "{:?}", c);
    }
    assert!(!Scanner::is_alpha_numeric(None));
}

#[test]
fn add_token_takes_the_text_from_start_to_current() {
    let mut scanner = scanner_on("hello world");
    scanner.start = 6;
    scanner.current = 11;
    scanner.line = 3;
    scanner.add_token(TokenType::Identifier);
    assert_eq!(
        scanner.tokens,
        vec![Token::new(TokenType::Identifier, "world".to_string(), Some(Object::Nil), 3)]
    );
    assert_eq!(scanner.current, 11);
    assert_eq!(scanner.start, 6);
}

#[test]
fn add_token_object_keeps_the_literal() {
    let mut scanner = scanner_on("12 ab");
    scanner.current = 2;
    scanner.add_token_object(TokenType::Number, Some(Object::Num("12".to_string())));
    scanner.start = 3;
    scanner.current = 3;
    scanner.add_token_object(TokenType::True, None);
    assert_eq!(
        scanner.tokens,
        vec![
            Token::new(TokenType::Number, "12".to_string(), Some(Object::Num("12".to_string())), 1),
            Token::new(TokenType::True, String::new(), None, 1),
        ]
    );
}

#[test]
fn scan_token_recognises_one_lexeme() {
    let mut scanner = scanner_on("var x;");
    assert_eq!(scanner.scan_token(), Ok(()));
    assert_eq!(scanner.current, 3);
    assert_eq!(
        scanner.tokens,
        vec![Token::new(TokenType::Var, "var".to_string(), Some(Object::Nil), 1)]
    );
    scanner.start = scanner.current;
    assert_eq!(scanner.scan_token(), Ok(()));
    assert_eq!(scanner.current, 4);
    assert_eq!(scanner.tokens.len(), 1);
    scanner.start = scanner.current;
    assert_eq!(scanner.scan_token(), Ok(()));
    assert_eq!(scanner.current, 5);
    assert_eq!(scanner.tokens.len(), 2);
    assert_eq!(scanner.tokens[1].ttype, TokenType::Identifier);
}

#[test]
fn scan_token_counts_a_line_feed() {
    let mut scanner = scanner_on("\nx");
    assert_eq!(scanner.scan_token(), Ok(()));
    assert_eq!(scanner.line, 2);
    assert_eq!(scanner.current, 1);
    assert!(scanner.tokens.is_empty());
}

#[test]
fn scan_token_returns_the_error_and_records_none() {
    let mut scanner = scanner_on("\n\n@x");
    scanner.current = 2;
    scanner.start = 2;
    scanner.line = 3;
    assert_eq!(
        scanner.scan_token(),
        Err(LoxError::error(3, "Unexpected character".to_string()))
    );
    assert_eq!(scanner.current, 3);
    assert!(scanner.tokens.is_empty());
    assert!(scanner.errors.is_empty());
}

#[test]
fn line_counter_advances_across_a_string() {
    let mut scanner = scanner_on("\"ab\ncd\"");
    assert_eq!(scanner.line, 1);
    assert_eq!(scanner.scan_token(), Ok(()));
    assert_eq!(scanner.line, 2);
    assert_eq!(scanner.current, 7);
    assert_eq!(
        scanner.tokens,
        vec![Token::new(
            TokenType::String,
            "\"ab\ncd\"".to_string(),
            Some(Object::Str("ab\ncd".to_string())),
            1,
        )]
    );
}

#[test]
fn string_scans_from_behind_the_opening_quote() {
    let mut scanner = scanner_on("\"a\n\nb\" c");
    scanner.advance();
    assert_eq!(scanner.string(), Ok(()));
    assert_eq!(scanner.current, 6);
    assert_eq!(scanner.line, 3);
    assert_eq!(scanner.tokens.len(), 1);
    assert_eq!(scanner.tokens[0].literal, Some(Object::Str("a\n\nb".to_string())));
    assert_eq!(scanner.tokens[0].line, 1);
}

#[test]
fn string_without_a_close_runs_to_the_end() {
    let mut scanner = scanner_on("\"a\nb");
    scanner.advance();
    assert_eq!(
        scanner.string(),
        Err(LoxError::error(1, "Unterminated string.".to_string()))
    );
    assert_eq!(scanner.current, 4);
    assert_eq!(scanner.line, 2);
    assert!(scanner.tokens.is_empty());
}

#[test]
fn number_scans_digits_and_one_fraction() {
    let mut scanner = scanner_on("3.14.15");
    scanner.number();
    assert_eq!(scanner.current, 4);
    assert_eq!(
        scanner.tokens,
        vec![Token::new(
            TokenType::Number,
            "3.14".to_string(),
            Some(Object::Num("3.14".to_string())),
            1,
        )]
    );
}

#[test]
fn number_leaves_a_dot_without_digit() {
    let mut scanner = scanner_on("42.x");
    scanner.number();
    assert_eq!(scanner.current, 2);
    assert_eq!(scanner.tokens[0].lexeme, "42");
    let mut scanner = scanner_on("42.");
    scanner.number();
    assert_eq!(scanner.current, 2);
    assert_eq!(scanner.tokens[0].lexeme, "42");
}

#[test]
fn identifier_looks_the_whole_word_up() {
    let mut scanner = scanner_on("while_1 while");
    scanner.identifier();
    assert_eq!(scanner.current, 7);
    scanner.start = 8;
    scanner.current = 8;
    scanner.identifier();
    assert_eq!(scanner.current, 13);
    assert_eq!(
        scanner.tokens,
        vec![
            Token::new(TokenType::Identifier, "while_1".to_string(), Some(Object::Nil), 1),
            Token::new(TokenType::While, "while".to_string(), Some(Object::Nil), 1),
        ]
    );
}

#[test]
fn comment_block_scans_from_behind_the_opener() {
    let mut scanner = scanner_on("/* a\n/* b */\n*/ c");
    scanner.current = 2;
    assert_eq!(scanner.comment_block(), Ok(()));
    assert_eq!(scanner.current, 15);
    assert_eq!(scanner.line, 3);
    assert!(scanner.tokens.is_empty());
}

#[test]
fn comment_block_without_a_close_runs_to_the_end() {
    let mut scanner = scanner_on("/* a\n/* b */\n c");
    scanner.current = 2;
    assert_eq!(
        scanner.comment_block(),
        Err(LoxError::error(3, "Unterminated comment block".to_string()))
    );
    assert_eq!(scanner.current, 15);
    assert_eq!(scanner.line, 3);
}

#[test]
fn scan_tokens_keeps_what_was_there() {
    let mut scanner = scanner_on("a b");
    scanner.scan_token().unwrap();
    scanner.errors.push(LoxError::error(7, "earlier".to_string()));
    let (tokens, errors) = scanner.scan_tokens();
    assert_eq!(
        tokens,
        vec![
            Token::new(TokenType::Identifier, "a".to_string(), Some(Object::Nil), 1),
            Token::new(TokenType::Identifier, "b".to_string(), Some(Object::Nil), 1),
            Token::eof(1),
        ]
    );
    assert_eq!(errors, vec![LoxError::error(7, "earlier".to_string())]);
}

#[test]
fn keywords_finds_the_reserved_words() {
    let table = [
        ("and", TokenType::And),
        ("class", TokenType::Class),
        ("else", TokenType::Else),
        ("false", TokenType::False),
        ("for", TokenType::For),
        ("fun", TokenType::Fun),
        ("if", TokenType::If),
        ("nil", TokenType::Nil),
        ("or", TokenType::Or),
        ("print", TokenType::Print),
        ("return", TokenType::Return),
        ("super", TokenType::Super),
        ("this", TokenType::This),
        ("true", TokenType::True),
        ("var", TokenType::Var),
        ("while", TokenType::While),
    ];
    for (word, ttype) in table {
        assert_eq!(Keywords(word), Some(ttype));
    }
}

#[test]
fn keywords_matches_exactly() {
    for word in ["", "classy", "clas", "Class", "AND", " and", "and ", "eof", "identifier", "fn"] {
        assert_eq!(Keywords(word), None, "{:?}", word);
    }
}

#[test]
fn error_kinds_have_their_messages() {
    assert_eq!(ErrorKind::UnexpectedCharacter.message(), "Unexpected character");
    assert_eq!(ErrorKind::UnterminatedString.message(), "Unterminated string.");
    assert_eq!(ErrorKind::UnterminatedComment.message(), "Unterminated comment block");
}

#[test]
fn error_holds_line_and_message() {
    let error = LoxError::error(12, "something".to_string());
    assert_eq!(error.line, 12);
    assert_eq!(error.message, "something");
}
