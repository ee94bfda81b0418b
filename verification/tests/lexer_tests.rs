use lib::lexer::{get_by_keyword, LexErrorKind, Lexer};
use lib::token::{Literal, Token, TokenType};

fn scan(source: &str) -> Vec<Token> {
    Lexer::new(source.to_string()).scan_tokens().expect("source should scan")
}

fn kinds(tokens: &[Token]) -> Vec<TokenType> {
    tokens.iter().map(|t| t.kind).collect()
}

fn chars(s: &str) -> Vec<char> {
    s.chars().collect()
}

#[test]
fn keywords_are_recognised() {
    let table = [
        ("and", TokenType::And),
        ("class", TokenType::Class),
        ("else", TokenType::Else),
        ("false", TokenType::False),
        ("for", TokenType::For),
        ("fun", TokenType::Fun),
        ("if", TokenType::If),
        ("nil", TokenType::Nil),
        ("or", TokenType::Or),
        ("print", TokenType::Print),
        ("return", TokenType::Return),
        ("super", TokenType::Super),
        ("this", TokenType::This),
        ("true", TokenType::True),
        ("var", TokenType::Var),
        ("while", TokenType::While),
    ];
    for (word, kind) in table {
        assert_eq!(get_by_keyword(&chars(word)), Some(kind));
    }
}

#[test]
fn other_words_are_not_keywords() {
    assert_eq!(get_by_keyword(&chars("variable")), None);
    assert_eq!(get_by_keyword(&chars("Print")), None);
    assert_eq!(get_by_keyword(&chars("")), None);
    assert_eq!(get_by_keyword(&chars("_if")), None);
}

#[test]
fn empty_source_gives_only_end_of_file() {
    let tokens = scan("");
    assert_eq!(kinds(&tokens), vec![TokenType::EOF]);
    assert_eq!(tokens[0].lexeme, "");
    assert_eq!(tokens[0].line, 1);
}

#[test]
fn variable_declaration_is_scanned() {
    let tokens = scan("var answer = 42;");
    assert_eq!(
        kinds(&tokens),
        vec![
            TokenType::Var,
            TokenType::Identifier,
            TokenType::Equal,
            TokenType::Number,
            TokenType::Semicolon,
            TokenType::EOF
        ]
    );
    assert_eq!(tokens[1].lexeme, "answer");
    assert!(tokens[1].literal.is_none());
    match &tokens[3].literal {
        Some(Literal::Number(text)) => assert_eq!(text, "42"),
        other => panic!("unexpected literal {other:?}"),
    }
}

#[test]
fn one_and_two_character_operators() {
    let tokens = scan("! != = == < <= > >= / * - + . , ; ( ) { } [ ]");
    assert_eq!(
        kinds(&tokens),
        vec![
            TokenType::Bang,
            TokenType::BangEqual,
            TokenType::Equal,
            TokenType::EqualEqual,
            TokenType::Less,
            TokenType::LessEqual,
            TokenType::Greater,
            TokenType::GreaterEqual,
            TokenType::Slash,
            TokenType::Star,
            TokenType::Minus,
            TokenType::Plus,
            TokenType::Dot,
            TokenType::Comma,
            TokenType::Semicolon,
            TokenType::LeftParen,
            TokenType::RightParen,
            TokenType::LeftBrace,
            TokenType::RightBrace,
            TokenType::LeftBracket,
            TokenType::RightBracket,
            TokenType::EOF
        ]
    );
    assert_eq!(tokens[1].lexeme, "!=");
    assert_eq!(tokens[7].lexeme, ">=");
}

#[test]
fn numbers_take_a_fraction_only_with_digits_after_the_dot() {
    let tokens = scan("12.5 7. 3.x");
    assert_eq!(
        kinds(&tokens),
        vec![
            TokenType::Number,
            TokenType::Number,
            TokenType::Dot,
            TokenType::Number,
            TokenType::Dot,
            TokenType::Identifier,
            TokenType::EOF
        ]
    );
    assert_eq!(tokens[0].lexeme, "12.5");
    assert_eq!(tokens[1].lexeme, "7");
    assert_eq!(tokens[3].lexeme, "3");
}

#[test]
fn comments_and_whitespace_are_skipped_and_lines_counted() {
    let tokens = scan("// a comment\n\tprint 1; // another\r\nprint 2;");
    assert_eq!(
        kinds(&tokens),
        vec![
            TokenType::Print,
            TokenType::Number,
            TokenType::Semicolon,
            TokenType::Print,
            TokenType::Number,
            TokenType::Semicolon,
            TokenType::EOF
        ]
    );
    assert_eq!(tokens[0].line, 2);
    assert_eq!(tokens[3].line, 3);
    assert_eq!(tokens[6].line, 3);
}

#[test]
fn strings_keep_their_text_and_count_lines() {
    let tokens = scan("\"Hello\nworld\" x");
    assert_eq!(kinds(&tokens), vec![TokenType::String, TokenType::Identifier, TokenType::EOF]);
    assert_eq!(tokens[0].lexeme, "\"Hello\nworld\"");
    match &tokens[0].literal {
        Some(Literal::String(text)) => assert_eq!(text, "Hello\nworld"),
        other => panic!("unexpected literal {other:?}"),
    }
    assert_eq!(tokens[0].line, 2);
    assert_eq!(tokens[1].line, 2);
}

#[test]
fn identifiers_take_letters_digits_and_underscores() {
    let tokens = scan("_tmp1 orchid or");
    assert_eq!(
        kinds(&tokens),
        vec![TokenType::Identifier, TokenType::Identifier, TokenType::Or, TokenType::EOF]
    );
    assert_eq!(tokens[0].lexeme, "_tmp1");
    assert_eq!(tokens[1].lexeme, "orchid");
}

#[test]
fn unterminated_string_is_an_error() {
    let errors = Lexer::new("print \"abc".to_string()).scan_tokens().unwrap_err();
    assert_eq!(errors.len(), 1);
    assert_eq!(errors[0].kind, LexErrorKind::UnterminatedString);
    assert_eq!(errors[0].kind.message(), "unterminated string");
    assert_eq!(errors[0].line, 1);
    assert_eq!(errors[0].preview, "print \"abc");
}

#[test]
fn unexpected_characters_are_all_reported() {
    let errors = Lexer::new("var a = 1;\nvar b = @ # 2;".to_string())
        .scan_tokens()
        .unwrap_err();
    assert_eq!(errors.len(), 2);
    for e in &errors {
        assert_eq!(e.kind, LexErrorKind::UnexpectedCharacter);
        assert_eq!(e.kind.message(), "unexpected character");
        assert_eq!(e.line, 2);
        assert_eq!(e.preview, "var b = @ # 2;");
    }
}

#[test]
fn long_lines_are_truncated_in_previews() {
    let source = format!("{}$", "x".repeat(50));
    let errors = Lexer::new(source).scan_tokens().unwrap_err();
    assert_eq!(errors.len(), 1);
    assert_eq!(errors[0].preview, format!("{}... (truncated)", "x".repeat(40)));
}

#[test]
fn non_ascii_text_inside_strings_is_kept() {
    let tokens = scan("\"héllo ✓\"");
    match &tokens[0].literal {
        Some(Literal::String(text)) => assert_eq!(text, "héllo ✓"),
        other => panic!("unexpected literal {other:?}"),
    }
}
