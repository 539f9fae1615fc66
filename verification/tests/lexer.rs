use tinyscript::lexer::{tokenize, LexError, Lexer, Token, TokenKind};

fn token(text: &str, kind: TokenKind) -> Token {
    Token { text: text.to_string(), kind }
}

fn end() -> Token {
    token("\0", TokenKind::EndOfFile)
}

#[test]
fn an_empty_source_has_the_end_token_only() {
    assert_eq!(tokenize(""), Ok(vec![end()]));
    assert_eq!(tokenize(" \t\r\n\x0C"), Ok(vec![end()]));
    assert_eq!(Lexer::new(String::new()).scan_tokens(), Ok(vec![end()]));
}

#[test]
fn numbers_are_runs_of_digits() {
    assert_eq!(
        tokenize("0 12 0034"),
        Ok(vec![
            token("0", TokenKind::Number),
            token("12", TokenKind::Number),
            token("0034", TokenKind::Number),
            end()
        ])
    );
}

#[test]
fn words_are_runs_of_letters_and_underscores() {
    assert_eq!(
        tokenize("abc _x a_b Z"),
        Ok(vec![
            token("abc", TokenKind::Identifier),
            token("_x", TokenKind::Identifier),
            token("a_b", TokenKind::Identifier),
            token("Z", TokenKind::Identifier),
            end()
        ])
    );
}

#[test]
fn a_digit_ends_a_word() {
    assert_eq!(
        tokenize("x1y"),
        Ok(vec![
            token("x", TokenKind::Identifier),
            token("1", TokenKind::Number),
            token("y", TokenKind::Identifier),
            end()
        ])
    );
}

#[test]
fn keywords_are_told_from_names() {
    assert_eq!(
        tokenize("fn let return if while true false null"),
        Ok(vec![
            token("fn", TokenKind::FnKeyword),
            token("let", TokenKind::LetKeyword),
            token("return", TokenKind::ReturnKeyword),
            token("if", TokenKind::IfKeyword),
            token("while", TokenKind::WhileKeyword),
            token("true", TokenKind::TrueKeyword),
            token("false", TokenKind::FalseKeyword),
            token("null", TokenKind::NullKeyword),
            end()
        ])
    );
    assert_eq!(
        tokenize("fnx If nulls struct"),
        Ok(vec![
            token("fnx", TokenKind::Identifier),
            token("If", TokenKind::Identifier),
            token("nulls", TokenKind::Identifier),
            token("struct", TokenKind::Identifier),
            end()
        ])
    );
}

#[test]
fn symbols_stand_alone() {
    assert_eq!(
        tokenize("(){},;:=.+-*/<>"),
        Ok(vec![
            token("(", TokenKind::LeftParen),
            token(")", TokenKind::RightParen),
            token("{", TokenKind::LeftBrace),
            token("}", TokenKind::RightBrace),
            token(",", TokenKind::Comma),
            token(";", TokenKind::Semicolon),
            token(":", TokenKind::Colon),
            token("=", TokenKind::Equals),
            token(".", TokenKind::Period),
            token("+", TokenKind::Plus),
            token("-", TokenKind::Minus),
            token("*", TokenKind::Star),
            token("/", TokenKind::Slash),
            token("<", TokenKind::LessThan),
            token(">", TokenKind::GreaterThan),
            end()
        ])
    );
}

#[test]
fn a_string_is_taken_with_its_quotes() {
    assert_eq!(
        tokenize("\"a b\" \"\" \"1+\u{e9}\""),
        Ok(vec![
            token("\"a b\"", TokenKind::String),
            token("\"\"", TokenKind::String),
            token("\"1+\u{e9}\"", TokenKind::String),
            end()
        ])
    );
}

#[test]
fn a_string_without_end_goes_to_the_end_of_input() {
    assert_eq!(tokenize("x \"abc"), Ok(vec![
        token("x", TokenKind::Identifier),
        token("\"abc", TokenKind::String),
        end()
    ]));
    assert_eq!(tokenize("\""), Ok(vec![token("\"", TokenKind::String), end()]));
}

#[test]
fn a_backslash_escapes_nothing() {
    assert_eq!(
        tokenize("\"a\\\" b"),
        Ok(vec![token("\"a\\\"", TokenKind::String), token("b", TokenKind::Identifier), end()])
    );
}

#[test]
fn whitespace_separates_and_is_dropped() {
    assert_eq!(
        tokenize("  let\tx\n=\r\n1 ;  "),
        Ok(vec![
            token("let", TokenKind::LetKeyword),
            token("x", TokenKind::Identifier),
            token("=", TokenKind::Equals),
            token("1", TokenKind::Number),
            token(";", TokenKind::Semicolon),
            end()
        ])
    );
}

#[test]
fn an_invalid_character_fails() {
    assert_eq!(tokenize("let x = #;"), Err(LexError::InvalidChar('#')));
    assert_eq!(tokenize("[1]"), Err(LexError::InvalidChar('[')));
    assert_eq!(tokenize("a \u{e9}"), Err(LexError::InvalidChar('\u{e9}')));
    assert_eq!(tokenize("a ! b ?"), Err(LexError::InvalidChar('!')));
    assert_eq!(tokenize("\x0B"), Err(LexError::InvalidChar('\x0B')));
}

#[test]
fn a_program_is_cut_into_tokens() {
    let tokens = tokenize("fn main(){ print(add(2,3)); }").unwrap();
    let kinds: Vec<TokenKind> = tokens.iter().map(|t| t.kind).collect();
    assert_eq!(
        kinds,
        vec![
            TokenKind::FnKeyword,
            TokenKind::Identifier,
            TokenKind::LeftParen,
            TokenKind::RightParen,
            TokenKind::LeftBrace,
            TokenKind::Identifier,
            TokenKind::LeftParen,
            TokenKind::Identifier,
            TokenKind::LeftParen,
            TokenKind::Number,
            TokenKind::Comma,
            TokenKind::Number,
            TokenKind::RightParen,
            TokenKind::RightParen,
            TokenKind::Semicolon,
            TokenKind::RightBrace,
            TokenKind::EndOfFile,
        ]
    );
    let texts: Vec<&str> = tokens.iter().map(|t| t.text.as_str()).collect();
    assert_eq!(
        texts,
        vec!["fn", "main", "(", ")", "{", "print", "(", "add", "(", "2", ",", "3", ")", ")", ";", "}", "\0"]
    );
}
