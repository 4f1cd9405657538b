use rlox::error::LoxError;
use rlox::scanner::Scanner;
use rlox::token::{Object, Token, TokenType};

fn scan(source: &str) -> (Vec<Token>, Vec<LoxError>) {
    Scanner::new(source.to_string()).scan_tokens()
}

fn types(tokens: &[Token]) -> Vec<TokenType> {
    tokens.iter().map(|t| t.ttype).collect()
}

fn lexemes(tokens: &[Token]) -> Vec<String> {
    tokens.iter().map(|t| t.lexeme.clone()).collect()
}

fn lines(tokens: &[Token]) -> Vec<usize> {
    tokens.iter().map(|t| t.line).collect()
}

fn plain(ttype: TokenType, lexeme: &str, line: usize) -> Token {
    Token::new(ttype, lexeme.to_string(), Some(Object::Nil), line)
}

fn number_value(token: &Token) -> f64 {
    match &token.literal {
        Some(Object::Num(text)) => text.parse::<f64>().unwrap(),
        other => panic!("not a number: {:?}", other),
    }
}

#[test]
fn empty_input_gives_only_eof() {
    let (tokens, errors) = scan("");
    assert_eq!(tokens, vec![Token::eof(1)]);
    assert_eq!(tokens[0].ttype, TokenType::Eof);
    assert_eq!(tokens[0].lexeme, "");
    assert_eq!(tokens[0].literal, Some(Object::Nil));
    assert_eq!(tokens[0].line, 1);
    assert!(errors.is_empty());
}

#[test]
fn whitespace_gives_only_eof() {
    let (tokens, errors) = scan(" \t\r  \t");
    assert_eq!(tokens, vec![Token::eof(1)]);
    assert!(errors.is_empty());
}

#[test]
fn whitespace_and_comments_give_only_eof() {
    let (tokens, errors) = scan("  // a line comment\n\t/* a block\n comment */\r\n// last");
    assert_eq!(tokens, vec![Token::eof(4)]);
    assert!(errors.is_empty());
}

#[test]
fn last_token_is_the_only_eof() {
    let sources = [
        "",
        "\n\n",
        "var x = 1;",
        "\"open",
        "/* open",
        "@ # $",
        "a /* b */ c // d",
        "print \"hello\";\nreturn 12.5;",
    ];
    for source in sources {
        let (tokens, _) = scan(source);
        let last = tokens.last().unwrap();
        assert_eq!(last.ttype, TokenType::Eof);
        assert_eq!(last.lexeme, "");
        let count = tokens.iter().filter(|t| t.ttype == TokenType::Eof).count();
        assert_eq!(count, 1, "source {:?}", source);
    }
}

#[test]
fn eof_stands_on_the_last_line() {
    let (tokens, _) = scan("a\nb\n\n");
    assert_eq!(tokens.last().unwrap().line, 4);
    let (tokens, _) = scan("a");
    assert_eq!(tokens.last().unwrap().line, 1);
}

#[test]
fn single_character_punctuation() {
    let (tokens, errors) = scan("(){},.-+;*/");
    assert!(errors.is_empty());
    assert_eq!(
        tokens,
        vec![
            plain(TokenType::LeftParen, "(", 1),
            plain(TokenType::RightParen, ")", 1),
            plain(TokenType::LeftBrace, "{", 1),
            plain(TokenType::RightBrace, "}", 1),
            plain(TokenType::Comma, ",", 1),
            plain(TokenType::Dot, ".", 1),
            plain(TokenType::Minus, "-", 1),
            plain(TokenType::Plus, "+", 1),
            plain(TokenType::Semicolon, ";", 1),
            plain(TokenType::Star, "*", 1),
            plain(TokenType::Slash, "/", 1),
            Token::eof(1),
        ]
    );
}

#[test]
fn bang_equal_is_one_token() {
    let (tokens, errors) = scan("!=");
    assert!(errors.is_empty());
    assert_eq!(tokens, vec![plain(TokenType::BangEqual, "!=", 1), Token::eof(1)]);
}

#[test]
fn two_character_operators_are_greedy() {
    let (tokens, errors) = scan("! != = == < <= > >=");
    assert!(errors.is_empty());
    assert_eq!(
        tokens,
        vec![
            plain(TokenType::Bang, "!", 1),
            plain(TokenType::BangEqual, "!=", 1),
            plain(TokenType::Equal, "=", 1),
            plain(TokenType::EqualEqual, "==", 1),
            plain(TokenType::Less, "<", 1),
            plain(TokenType::LessEqual, "<=", 1),
            plain(TokenType::Greater, ">", 1),
            plain(TokenType::GreaterEqual, ">=", 1),
            Token::eof(1),
        ]
    );
}

#[test]
fn operators_pair_from_the_left() {
    let (tokens, _) = scan("===");
    assert_eq!(types(&tokens), vec![TokenType::EqualEqual, TokenType::Equal, TokenType::Eof]);
    let (tokens, _) = scan("!==");
    assert_eq!(types(&tokens), vec![TokenType::BangEqual, TokenType::Equal, TokenType::Eof]);
    let (tokens, _) = scan("<>=");
    assert_eq!(types(&tokens), vec![TokenType::Less, TokenType::GreaterEqual, TokenType::Eof]);
    let (tokens, _) = scan("! =");
    assert_eq!(types(&tokens), vec![TokenType::Bang, TokenType::Equal, TokenType::Eof]);
}

#[test]
fn operator_at_the_end_of_input() {
    let (tokens, errors) = scan("a <");
    assert!(errors.is_empty());
    assert_eq!(types(&tokens), vec![TokenType::Identifier, TokenType::Less, TokenType::Eof]);
}

#[test]
fn classy_is_one_identifier() {
    let (tokens, errors) = scan("classy");
    assert!(errors.is_empty());
    assert_eq!(tokens, vec![plain(TokenType::Identifier, "classy", 1), Token::eof(1)]);
}

#[test]
fn every_keyword_has_its_type() {
    let (tokens, errors) = scan(
        "and class else false for fun if nil or print return super this true var while",
    );
    assert!(errors.is_empty());
    assert_eq!(
        types(&tokens),
        vec![
            TokenType::And,
            TokenType::Class,
            TokenType::Else,
            TokenType::False,
            TokenType::For,
            TokenType::Fun,
            TokenType::If,
            TokenType::Nil,
            TokenType::Or,
            TokenType::Print,
            TokenType::Return,
            TokenType::Super,
            TokenType::This,
            TokenType::True,
            TokenType::Var,
            TokenType::While,
            TokenType::Eof,
        ]
    );
    for token in &tokens {
        assert_eq!(token.literal, Some(Object::Nil));
    }
    assert_eq!(tokens[1].lexeme, "class");
    assert_eq!(tokens[10].lexeme, "return");
}

#[test]
fn keywords_are_case_sensitive() {
    let (tokens, _) = scan("Class CLASS class nil Nil");
    assert_eq!(
        types(&tokens),
        vec![
            TokenType::Identifier,
            TokenType::Identifier,
            TokenType::Class,
            TokenType::Nil,
            TokenType::Identifier,
            TokenType::Eof,
        ]
    );
}

#[test]
fn keyword_inside_a_word_is_no_keyword() {
    let (tokens, _) = scan("orchid fortune _if if_ var1 nilly");
    assert_eq!(
        types(&tokens),
        vec![
            TokenType::Identifier,
            TokenType::Identifier,
            TokenType::Identifier,
            TokenType::Identifier,
            TokenType::Identifier,
            TokenType::Identifier,
            TokenType::Eof,
        ]
    );
    assert_eq!(lexemes(&tokens), vec!["orchid", "fortune", "_if", "if_", "var1", "nilly", ""]);
}

#[test]
fn identifiers_hold_letters_digits_and_underscores() {
    let (tokens, errors) = scan("foo_bar _x1 a1b2 __ Z9");
    assert!(errors.is_empty());
    assert_eq!(lexemes(&tokens), vec!["foo_bar", "_x1", "a1b2", "__", "Z9", ""]);
    for token in &tokens[..5] {
        assert_eq!(token.ttype, TokenType::Identifier);
        assert_eq!(token.literal, Some(Object::Nil));
    }
}

#[test]
fn integer_number() {
    let (tokens, errors) = scan("123");
    assert!(errors.is_empty());
    assert_eq!(tokens.len(), 2);
    assert_eq!(tokens[0].ttype, TokenType::Number);
    assert_eq!(tokens[0].lexeme, "123");
    assert_eq!(tokens[0].literal, Some(Object::Num("123".to_string())));
    assert_eq!(number_value(&tokens[0]), 123.0);
    assert_eq!(tokens[1], Token::eof(1));
}

#[test]
fn fractional_number() {
    let (tokens, errors) = scan("123.45");
    assert!(errors.is_empty());
    assert_eq!(tokens.len(), 2);
    assert_eq!(tokens[0].ttype, TokenType::Number);
    assert_eq!(tokens[0].lexeme, "123.45");
    assert_eq!(tokens[0].literal, Some(Object::Num("123.45".to_string())));
    assert_eq!(number_value(&tokens[0]), 123.45);
}

#[test]
fn trailing_dot_is_not_part_of_the_number() {
    let (tokens, errors) = scan("123.");
    assert!(errors.is_empty());
    assert_eq!(tokens.len(), 3);
    assert_eq!(tokens[0].ttype, TokenType::Number);
    assert_eq!(tokens[0].lexeme, "123");
    assert_eq!(number_value(&tokens[0]), 123.0);
    assert_eq!(tokens[1], plain(TokenType::Dot, ".", 1));
    assert_eq!(tokens[2], Token::eof(1));
}

#[test]
fn leading_dot_is_not_part_of_the_number() {
    let (tokens, _) = scan(".5");
    assert_eq!(types(&tokens), vec![TokenType::Dot, TokenType::Number, TokenType::Eof]);
    assert_eq!(number_value(&tokens[1]), 5.0);
}

#[test]
fn number_takes_one_fraction_only() {
    let (tokens, errors) = scan("1.2.3");
    assert!(errors.is_empty());
    assert_eq!(
        types(&tokens),
        vec![TokenType::Number, TokenType::Dot, TokenType::Number, TokenType::Eof]
    );
    assert_eq!(lexemes(&tokens), vec!["1.2", ".", "3", ""]);
    assert_eq!(number_value(&tokens[0]), 1.2);
    assert_eq!(number_value(&tokens[2]), 3.0);
}

#[test]
fn number_ends_where_the_digits_end() {
    let (tokens, _) = scan("12abc 7.x 0.50");
    assert_eq!(
        types(&tokens),
        vec![
            TokenType::Number,
            TokenType::Identifier,
            TokenType::Number,
            TokenType::Dot,
            TokenType::Identifier,
            TokenType::Number,
            TokenType::Eof,
        ]
    );
    assert_eq!(lexemes(&tokens), vec!["12", "abc", "7", ".", "x", "0.50", ""]);
    assert_eq!(number_value(&tokens[5]), 0.5);
}

#[test]
fn string_may_span_lines() {
    let (tokens, errors) = scan("\"ab\ncd\"");
    assert!(errors.is_empty());
    assert_eq!(tokens.len(), 2);
    assert_eq!(tokens[0].ttype, TokenType::String);
    assert_eq!(tokens[0].lexeme, "\"ab\ncd\"");
    assert_eq!(tokens[0].literal, Some(Object::Str("ab\ncd".to_string())));
    assert_eq!(tokens[0].line, 1);
    assert_eq!(tokens[1], Token::eof(2));
}

#[test]
fn string_literal_is_the_text_between_the_quotes() {
    let (tokens, errors) = scan("\"hello world\" \"\" \"a/*b*/c // d\"");
    assert!(errors.is_empty());
    assert_eq!(
        types(&tokens),
        vec![TokenType::String, TokenType::String, TokenType::String, TokenType::Eof]
    );
    assert_eq!(tokens[0].literal, Some(Object::Str("hello world".to_string())));
    assert_eq!(tokens[0].lexeme, "\"hello world\"");
    assert_eq!(tokens[1].literal, Some(Object::Str(String::new())));
    assert_eq!(tokens[1].lexeme, "\"\"");
    assert_eq!(tokens[2].literal, Some(Object::Str("a/*b*/c // d".to_string())));
}

#[test]
fn string_may_hold_any_character() {
    let (tokens, errors) = scan("\"h\u{e9}llo \u{4e16}\u{754c} @\" x");
    assert!(errors.is_empty());
    assert_eq!(types(&tokens), vec![TokenType::String, TokenType::Identifier, TokenType::Eof]);
    assert_eq!(
        tokens[0].literal,
        Some(Object::Str("h\u{e9}llo \u{4e16}\u{754c} @".to_string()))
    );
}

#[test]
fn unterminated_string_gives_a_diagnostic_and_no_token() {
    let (tokens, errors) = scan("\"abc");
    assert_eq!(tokens, vec![Token::eof(1)]);
    assert_eq!(errors, vec![LoxError::error(1, "Unterminated string.".to_string())]);
}

#[test]
fn unterminated_string_is_reported_where_it_began() {
    let (tokens, errors) = scan("a\n\"bc\nde\nf");
    assert_eq!(tokens, vec![plain(TokenType::Identifier, "a", 1), Token::eof(4)]);
    assert_eq!(errors, vec![LoxError::error(2, "Unterminated string.".to_string())]);
}

#[test]
fn nested_block_comment_is_consumed_whole() {
    let (tokens, errors) = scan("/* outer /* inner */ still outer */");
    assert_eq!(tokens, vec![Token::eof(1)]);
    assert!(errors.is_empty());
}

#[test]
fn block_comments_nest_to_any_depth() {
    let (tokens, errors) = scan("a /* 1 /* 2 /* 3 */ 2 */ 1 /* 2 */ 1 */ b");
    assert!(errors.is_empty());
    assert_eq!(lexemes(&tokens), vec!["a", "b", ""]);
    let (tokens, errors) = scan("/*/* */*/ +");
    assert!(errors.is_empty());
    assert_eq!(types(&tokens), vec![TokenType::Plus, TokenType::Eof]);
}

#[test]
fn block_comment_ends_at_its_own_close() {
    let (tokens, errors) = scan("/* a */ b */");
    assert!(errors.is_empty());
    assert_eq!(
        types(&tokens),
        vec![TokenType::Identifier, TokenType::Star, TokenType::Slash, TokenType::Eof]
    );
    let (tokens, errors) = scan("/**/x");
    assert!(errors.is_empty());
    assert_eq!(lexemes(&tokens), vec!["x", ""]);
}

#[test]
fn unterminated_block_comment() {
    let (tokens, errors) = scan("a /* never closed");
    assert_eq!(tokens, vec![plain(TokenType::Identifier, "a", 1), Token::eof(1)]);
    assert_eq!(errors, vec![LoxError::error(1, "Unterminated comment block".to_string())]);
}

#[test]
fn unterminated_inner_comment_leaves_the_outer_open() {
    let (tokens, errors) = scan("/* outer /* inner */ x");
    assert_eq!(tokens, vec![Token::eof(1)]);
    assert_eq!(errors, vec![LoxError::error(1, "Unterminated comment block".to_string())]);
}

#[test]
fn unterminated_comment_is_reported_on_the_last_line() {
    let (tokens, errors) = scan("x\n/* a\nb\nc");
    assert_eq!(tokens, vec![plain(TokenType::Identifier, "x", 1), Token::eof(4)]);
    assert_eq!(errors, vec![LoxError::error(4, "Unterminated comment block".to_string())]);
}

#[test]
fn comment_opener_alone_is_unterminated() {
    let (tokens, errors) = scan("/*");
    assert_eq!(tokens, vec![Token::eof(1)]);
    assert_eq!(errors.len(), 1);
    assert_eq!(errors[0].message, "Unterminated comment block");
    let (tokens, errors) = scan("/*/");
    assert_eq!(tokens, vec![Token::eof(1)]);
    assert_eq!(errors.len(), 1);
}

#[test]
fn line_comment_runs_to_the_end_of_the_line() {
    let (tokens, errors) = scan("a // b c \"d\n e // /* f\n//");
    assert!(errors.is_empty());
    assert_eq!(
        tokens,
        vec![
            plain(TokenType::Identifier, "a", 1),
            plain(TokenType::Identifier, "e", 2),
            Token::eof(3),
        ]
    );
}

#[test]
fn unexpected_character_does_not_stop_the_scan() {
    let (tokens, errors) = scan("a @ b");
    assert_eq!(
        tokens,
        vec![
            plain(TokenType::Identifier, "a", 1),
            plain(TokenType::Identifier, "b", 1),
            Token::eof(1),
        ]
    );
    assert_eq!(errors, vec![LoxError::error(1, "Unexpected character".to_string())]);
}

#[test]
fn each_unexpected_character_is_reported() {
    let (tokens, errors) = scan("#\n$ ^\n\u{e9}x");
    assert_eq!(tokens, vec![plain(TokenType::Identifier, "x", 3), Token::eof(3)]);
    assert_eq!(
        errors,
        vec![
            LoxError::error(1, "Unexpected character".to_string()),
            LoxError::error(2, "Unexpected character".to_string()),
            LoxError::error(2, "Unexpected character".to_string()),
            LoxError::error(3, "Unexpected character".to_string()),
        ]
    );
}

#[test]
fn diagnostics_come_in_the_order_of_the_text() {
    let (tokens, errors) = scan("@\n1\n/* open");
    assert_eq!(types(&tokens), vec![TokenType::Number, TokenType::Eof]);
    assert_eq!(
        errors,
        vec![
            LoxError::error(1, "Unexpected character".to_string()),
            LoxError::error(3, "Unterminated comment block".to_string()),
        ]
    );
}

#[test]
fn token_lines_count_the_line_feeds_before_them() {
    let source = "a\nb c\n\n  d /* x\ny */ e \"s\nt\" f\n";
    let (tokens, errors) = scan(source);
    assert!(errors.is_empty());
    assert_eq!(lexemes(&tokens), vec!["a", "b", "c", "d", "e", "\"s\nt\"", "f", ""]);
    assert_eq!(lines(&tokens), vec![1, 2, 2, 4, 5, 5, 6, 7]);
    let chars: Vec<char> = source.chars().collect();
    let mut from = 0;
    for token in &tokens[..tokens.len() - 1] {
        let lexeme: Vec<char> = token.lexeme.chars().collect();
        let start = (from..chars.len())
            .find(|&i| chars[i..].starts_with(&lexeme))
            .unwrap();
        let before = chars[..start].iter().filter(|&&c| c == '\n').count();
        assert_eq!(token.line, before + 1);
        from = start + lexeme.len();
    }
    let all = chars.iter().filter(|&&c| c == '\n').count();
    assert_eq!(tokens.last().unwrap().line, all + 1);
}

#[test]
fn carriage_return_is_no_line_feed() {
    let (tokens, _) = scan("a\r\nb\rc");
    assert_eq!(lines(&tokens), vec![1, 2, 2, 2]);
}

#[test]
fn a_small_program() {
    let source = "fun add(a, b) {\n  return a + b; // sum\n}\nprint add(1, 2.5) >= 3;\n";
    let (tokens, errors) = scan(source);
    assert!(errors.is_empty());
    assert_eq!(
        types(&tokens),
        vec![
            TokenType::Fun,
            TokenType::Identifier,
            TokenType::LeftParen,
            TokenType::Identifier,
            TokenType::Comma,
            TokenType::Identifier,
            TokenType::RightParen,
            TokenType::LeftBrace,
            TokenType::Return,
            TokenType::Identifier,
            TokenType::Plus,
            TokenType::Identifier,
            TokenType::Semicolon,
            TokenType::RightBrace,
            TokenType::Print,
            TokenType::Identifier,
            TokenType::LeftParen,
            TokenType::Number,
            TokenType::Comma,
            TokenType::Number,
            TokenType::RightParen,
            TokenType::GreaterEqual,
            TokenType::Number,
            TokenType::Semicolon,
            TokenType::Eof,
        ]
    );
    assert_eq!(
        lines(&tokens),
        vec![1, 1, 1, 1, 1, 1, 1, 1, 2, 2, 2, 2, 2, 3, 4, 4, 4, 4, 4, 4, 4, 4, 4, 4, 5]
    );
    assert_eq!(number_value(&tokens[19]), 2.5);
    let rebuilt: String = lexemes(&tokens).concat();
    assert_eq!(rebuilt, "funadd(a,b){returna+b;}printadd(1,2.5)>=3;");
}

#[test]
fn scan_goes_on_from_where_the_scanner_stands() {
    let mut scanner = Scanner::new("a\nb c".to_string());
    scanner.current = 2;
    scanner.start = 2;
    scanner.line = 2;
    let (tokens, errors) = scanner.scan_tokens();
    assert!(errors.is_empty());
    assert_eq!(
        tokens,
        vec![
            plain(TokenType::Identifier, "b", 2),
            plain(TokenType::Identifier, "c", 2),
            Token::eof(2),
        ]
    );
}
