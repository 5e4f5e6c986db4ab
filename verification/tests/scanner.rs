use lox::scanner::{ErrorToken, ScanResult, Scanner, Token, TokenType};

fn create(source: &str) -> Scanner {
    Scanner::new(source)
}

fn assert_token(result: ScanResult, expected: Token) {
    assert_eq!(result, Ok(expected));
}

#[test]
fn test_else_token() {
    let mut target = create("else");
    let res = target.scan_token();
    let expected = Token { token_type: TokenType::Else, line: 1, start: 0, length: 4 };
    assert_token(res, expected);
}

#[test]
fn test_false_token() {
    let mut target = create("false");
    let res = target.scan_token();
    let expected = Token { token_type: TokenType::False, line: 1, start: 0, length: 5 };
    assert_token(res, expected);
}

#[test]
fn test_identifier() {
    let mut target = create("falso");
    let res = target.scan_token();
    let expected = Token { token_type: TokenType::Identifier, line: 1, start: 0, length: 5 };
    assert_token(res, expected);
}

#[test]
fn test_whitespace() {
    let mut target = create(" ");
    let res = target.scan_token();
    let expected = Token { token_type: TokenType::Eof, line: 1, start: 1, length: 0 };
    assert_token(res, expected);
}

#[test]
fn test_invalid_input() {
    let mut target = create("\"str");
    let res = target.scan_token();
    let expected = ErrorToken { message: "Undetermined string".to_string(), line: 1, start: 0, length: 4 };
    assert_eq!(res, Err(expected));
}

fn kinds(source: &str) -> Vec<TokenType> {
    let mut scanner = Scanner::new(source);
    let mut kinds = Vec::new();
    loop {
        match scanner.scan_token() {
            Ok(token) => {
                kinds.push(token.token_type);
                if token.token_type == TokenType::Eof {
                    return kinds;
                }
            }
            Err(error) => panic!("unexpected error {:?}", error),
        }
    }
}

#[test]
fn every_keyword_is_recognized() {
    let source = "and class else false for fun if nil or print return super this true var while";
    assert_eq!(
        kinds(source),
        vec![
            TokenType::And,
            TokenType::Class,
            TokenType::Else,
            TokenType::False,
            TokenType::For,
            TokenType::Fun,
            TokenType::If,
            TokenType::Nil,
            TokenType::Or,
            TokenType::Print,
            TokenType::Return,
            TokenType::Super,
            TokenType::This,
            TokenType::True,
            TokenType::Var,
            TokenType::While,
            TokenType::Eof,
        ]
    );
}

#[test]
fn words_that_only_begin_or_end_like_keywords_are_identifiers() {
    let source = "an andy f fa fo fu forx t th tr thi truex _if if_ i o p classes whil e_ é x1";
    let found = kinds(source);
    assert_eq!(found.len(), 23);
    assert!(found[..22].iter().all(|kind| *kind == TokenType::Identifier));
    assert_eq!(found[22], TokenType::Eof);
}

#[test]
fn punctuation_and_operators() {
    assert_eq!(
        kinds("(){},.-+;/* ! != = == > >= < <="),
        vec![
            TokenType::LeftParen,
            TokenType::RightParen,
            TokenType::LeftBrace,
            TokenType::RightBrace,
            TokenType::Comma,
            TokenType::Dot,
            TokenType::Minus,
            TokenType::Plus,
            TokenType::Semicolon,
            TokenType::Slash,
            TokenType::Star,
            TokenType::Bang,
            TokenType::BangEqual,
            TokenType::Equal,
            TokenType::EqualEqual,
            TokenType::Greater,
            TokenType::GreaterEqual,
            TokenType::Less,
            TokenType::LessEqual,
            TokenType::Eof,
        ]
    );
    assert_eq!(kinds("!==="), vec![TokenType::BangEqual, TokenType::EqualEqual, TokenType::Eof]);
}

#[test]
fn a_slash_alone_is_a_token_and_two_begin_a_comment() {
    assert_eq!(
        kinds("1 / 2 // 3 / 4\n/"),
        vec![TokenType::Number, TokenType::Slash, TokenType::Number, TokenType::Slash, TokenType::Eof]
    );
    assert_eq!(kinds("// only a comment"), vec![TokenType::Eof]);
    assert_eq!(kinds("/"), vec![TokenType::Slash, TokenType::Eof]);
}

#[test]
fn numbers_take_a_dot_only_between_digits() {
    let mut scanner = create("12.5 7. .5 3");
    assert_token(
        scanner.scan_token(),
        Token { token_type: TokenType::Number, line: 1, start: 0, length: 4 },
    );
    assert_token(
        scanner.scan_token(),
        Token { token_type: TokenType::Number, line: 1, start: 5, length: 1 },
    );
    assert_token(
        scanner.scan_token(),
        Token { token_type: TokenType::Dot, line: 1, start: 6, length: 1 },
    );
    assert_token(
        scanner.scan_token(),
        Token { token_type: TokenType::Dot, line: 1, start: 8, length: 1 },
    );
    assert_token(
        scanner.scan_token(),
        Token { token_type: TokenType::Number, line: 1, start: 9, length: 1 },
    );
    assert_token(
        scanner.scan_token(),
        Token { token_type: TokenType::Number, line: 1, start: 11, length: 1 },
    );
    assert_eq!(kinds("1."), vec![TokenType::Number, TokenType::Dot, TokenType::Eof]);
}

#[test]
fn lines_are_counted_from_one() {
    let mut scanner = create("a\n\n  b // c\n\"x\ny\" d");
    let a = scanner.scan_token().unwrap();
    assert_eq!((a.line, a.start, a.length), (1, 0, 1));
    let b = scanner.scan_token().unwrap();
    assert_eq!((b.line, b.start, b.length), (3, 5, 1));
    let text = scanner.scan_token().unwrap();
    assert_eq!(text.token_type, TokenType::String);
    assert_eq!((text.line, text.start, text.length), (5, 12, 5));
    let d = scanner.scan_token().unwrap();
    assert_eq!((d.line, d.start, d.length), (5, 18, 1));
    let end = scanner.scan_token().unwrap();
    assert_eq!(end, Token { token_type: TokenType::Eof, line: 5, start: 19, length: 0 });
    assert_eq!(scanner.scan_token().unwrap(), end);
}

#[test]
fn lexemes_are_the_text_of_the_token() {
    let mut scanner = create("var name = \"some text\";");
    let var = scanner.scan_token().unwrap();
    assert_eq!(scanner.lexeme(&var), "var");
    let name = scanner.scan_token().unwrap();
    assert_eq!(scanner.get_lexeme(&name), "name");
    let _ = scanner.scan_token().unwrap();
    let text = scanner.scan_token().unwrap();
    assert_eq!(scanner.lexeme(&text), "\"some text\"");
    assert_eq!(scanner.lexeme_string(&text), "some text");
    assert!(!scanner.identifiers_equal(&var, &name));
    assert!(scanner.identifiers_equal(&name, &name));
}

#[test]
fn equal_identifiers_are_found_at_different_places() {
    let mut scanner = create("abc abd abc ab");
    let first = scanner.scan_token().unwrap();
    let second = scanner.scan_token().unwrap();
    let third = scanner.scan_token().unwrap();
    let fourth = scanner.scan_token().unwrap();
    assert!(scanner.identifiers_equal(&first, &third));
    assert!(!scanner.identifiers_equal(&first, &second));
    assert!(!scanner.identifiers_equal(&first, &fourth));
}

#[test]
fn the_empty_string_is_a_token_of_two_quotes() {
    let mut scanner = create("\"\"");
    let text = scanner.scan_token().unwrap();
    assert_eq!(text, Token { token_type: TokenType::String, line: 1, start: 0, length: 2 });
    assert_eq!(scanner.lexeme_string(&text), "");
}

#[test]
fn an_unexpected_character_is_reported_and_passed_over() {
    let mut scanner = create(" @x");
    let error = scanner.scan_token().unwrap_err();
    assert_eq!(
        error,
        ErrorToken { line: 1, start: 1, length: 1, message: "Unexpected character".to_string() }
    );
    assert_eq!(scanner.get_lexeme_error(&error), "@");
    assert_eq!(scanner.scan_token().unwrap().token_type, TokenType::Identifier);
}

#[test]
fn an_unterminated_string_runs_to_the_end() {
    let mut scanner = create("x \"ab\ncd");
    let _ = scanner.scan_token().unwrap();
    let error = scanner.scan_token().unwrap_err();
    assert_eq!(
        error,
        ErrorToken { line: 2, start: 2, length: 6, message: "Undetermined string".to_string() }
    );
    assert_eq!(scanner.get_lexeme_error(&error), "\"ab\ncd");
    assert_eq!(scanner.scan_token().unwrap().token_type, TokenType::Eof);
}

#[test]
fn positions_count_characters_not_bytes() {
    let mut scanner = create("\"é\" ü1");
    let text = scanner.scan_token().unwrap();
    assert_eq!((text.start, text.length), (0, 3));
    assert_eq!(scanner.lexeme_string(&text), "é");
    let name = scanner.scan_token().unwrap();
    assert_eq!(name.token_type, TokenType::Identifier);
    assert_eq!((name.start, name.length), (4, 2));
    assert_eq!(scanner.lexeme(&name), "ü1");
}

#[test]
fn token_kinds_are_numbered_in_their_order() {
    assert_eq!(usize::from(TokenType::LeftParen), 0);
    assert_eq!(usize::from(TokenType::Bang), 11);
    assert_eq!(usize::from(TokenType::Identifier), 19);
    assert_eq!(usize::from(TokenType::And), 22);
    assert_eq!(usize::from(TokenType::While), 37);
    assert_eq!(usize::from(TokenType::Eof), 38);
}
