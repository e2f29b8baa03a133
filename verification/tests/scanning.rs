use rlox_scanner::diagnostic::Diagnostic;
use rlox_scanner::interpreter::Interpreter;
use rlox_scanner::literal::Literal;
use rlox_scanner::scanner::Scanner;
use rlox_scanner::token::Token;
use rlox_scanner::token_type::TokenType;

fn scan(source: &str) -> Vec<Token> {
    let mut scanner = Scanner::new(source.to_string());
    scanner.scan_tokens().unwrap()
}

fn scan_with_diagnostics(source: &str) -> (Vec<Token>, Vec<Diagnostic>) {
    let mut scanner = Scanner::new(source.to_string());
    let tokens = scanner.scan_tokens().unwrap();
    let diagnostics = scanner.diagnostics().clone();
    (tokens, diagnostics)
}

fn types(tokens: &[Token]) -> Vec<TokenType> {
    tokens.iter().map(|t| t.token_type).collect()
}

#[test]
fn empty_source_scans_to_nothing() {
    let (tokens, diagnostics) = scan_with_diagnostics("");
    assert!(tokens.is_empty());
    assert!(diagnostics.is_empty());
}

#[test]
fn punctuation_separated_by_whitespace() {
    let tokens = scan("( ) { } , . - + ; * /");
    assert_eq!(
        types(&tokens),
        vec![
            TokenType::LeftParen,
            TokenType::RightParen,
            TokenType::LeftBrace,
            TokenType::RightBrace,
            TokenType::Comma,
            TokenType::Dot,
            TokenType::Minus,
            TokenType::Plus,
            TokenType::Semicolon,
            TokenType::Star,
            TokenType::Slash,
        ]
    );
    let lexemes: Vec<&str> = tokens.iter().map(|t| t.lexeme.as_str()).collect();
    assert_eq!(lexemes, vec!["(", ")", "{", "}", ",", ".", "-", "+", ";", "*", "/"]);
    for token in &tokens {
        assert_eq!(token.literal, Some(Literal::Null));
    }
}

#[test]
fn token_count_equals_non_whitespace_count() {
    let source = " + \t- \r\n* ( ) ";
    let tokens = scan(source);
    let non_whitespace = source.chars().filter(|c| !c.is_whitespace()).count();
    assert_eq!(tokens.len(), non_whitespace);
}

#[test]
fn identifier_round_trip() {
    let tokens = scan("foo123");
    assert_eq!(tokens.len(), 1);
    assert_eq!(tokens[0].token_type, TokenType::Identifier);
    assert_eq!(tokens[0].lexeme, "foo123");
    assert_eq!(tokens[0].literal, Some(Literal::Null));
    assert_eq!(tokens[0].line, 1);
}

#[test]
fn keyword_takes_precedence_over_identifier() {
    let tokens = scan("class");
    assert_eq!(types(&tokens), vec![TokenType::Class]);
    assert_eq!(tokens[0].lexeme, "class");
}

#[test]
fn keyword_prefix_is_still_an_identifier() {
    let tokens = scan("classify");
    assert_eq!(types(&tokens), vec![TokenType::Identifier]);
    assert_eq!(tokens[0].lexeme, "classify");
}

#[test]
fn every_reserved_word_scans_to_its_keyword() {
    let cases = vec![
        ("and", TokenType::And),
        ("class", TokenType::Class),
        ("else", TokenType::Else),
        ("false", TokenType::False),
        ("for", TokenType::For),
        ("fun", TokenType::Fun),
        ("if", TokenType::If),
        ("nil", TokenType::Nil),
        ("or", TokenType::Or),
        ("print", TokenType::Print),
        ("return", TokenType::Return),
        ("super", TokenType::Super),
        ("this", TokenType::This),
        ("true", TokenType::True),
        ("var", TokenType::Var),
        ("while", TokenType::While),
    ];
    for (word, expected) in cases {
        let tokens = scan(word);
        assert_eq!(tokens.len(), 1);
        assert_eq!(tokens[0].token_type, expected);
        assert_eq!(tokens[0].lexeme, word);
        assert_eq!(tokens[0].literal, Some(Literal::Null));
    }
}

fn number_value(token: &Token) -> f64 {
    match &token.literal {
        Some(Literal::NumberLiteral(text)) => text.parse::<f64>().unwrap(),
        other => panic!("expected a number literal, got {:?}", other),
    }
}

#[test]
fn fractional_number_scans_to_one_token() {
    let tokens = scan("3.14");
    assert_eq!(types(&tokens), vec![TokenType::Number]);
    assert_eq!(tokens[0].lexeme, "3.14");
    assert_eq!(number_value(&tokens[0]), 3.14);
}

#[test]
fn trailing_dot_is_not_part_of_the_number() {
    let tokens = scan("3.");
    assert_eq!(types(&tokens), vec![TokenType::Number, TokenType::Dot]);
    assert_eq!(tokens[0].lexeme, "3");
    assert_eq!(number_value(&tokens[0]), 3.0);
    assert_eq!(tokens[1].lexeme, ".");
}

#[test]
fn second_dot_ends_the_number() {
    let tokens = scan("3.14.5");
    assert_eq!(types(&tokens), vec![TokenType::Number, TokenType::Dot, TokenType::Number]);
    assert_eq!(tokens[0].lexeme, "3.14");
    assert_eq!(tokens[2].lexeme, "5");
}

#[test]
fn string_literal_keeps_text_and_counts_lines() {
    let tokens = scan("\"hello\nworld\"");
    assert_eq!(types(&tokens), vec![TokenType::String]);
    assert_eq!(tokens[0].lexeme, "hello\nworld");
    assert_eq!(tokens[0].literal, Some(Literal::StringLiteral("hello\nworld".to_string())));
    assert_eq!(tokens[0].line, 2);
}

#[test]
fn unterminated_string_is_a_diagnostic_and_no_token() {
    let (tokens, diagnostics) = scan_with_diagnostics("\"abc");
    assert!(tokens.is_empty());
    assert_eq!(diagnostics, vec![Diagnostic::UnterminatedString { line: 1 }]);
}

#[test]
fn unterminated_string_reports_the_opening_line() {
    let (tokens, diagnostics) = scan_with_diagnostics("+\n\"ab\ncd");
    assert_eq!(types(&tokens), vec![TokenType::Plus]);
    assert_eq!(diagnostics, vec![Diagnostic::UnterminatedString { line: 2 }]);
}

#[test]
fn comment_produces_no_token() {
    let tokens = scan("// comment\n+");
    assert_eq!(types(&tokens), vec![TokenType::Plus]);
    assert_eq!(tokens[0].line, 2);
}

#[test]
fn comment_at_end_of_input_is_discarded() {
    let tokens = scan("+ // trailing words");
    assert_eq!(types(&tokens), vec![TokenType::Plus]);
}

#[test]
fn slash_alone_is_a_token() {
    let tokens = scan("/ /");
    assert_eq!(types(&tokens), vec![TokenType::Slash, TokenType::Slash]);
}

#[test]
fn bang_equal_is_one_token() {
    let tokens = scan("!=");
    assert_eq!(types(&tokens), vec![TokenType::BangEqual]);
    assert_eq!(tokens[0].lexeme, "!=");
}

#[test]
fn bang_alone_is_one_token() {
    let tokens = scan("!");
    assert_eq!(types(&tokens), vec![TokenType::Bang]);
    assert_eq!(tokens[0].lexeme, "!");
}

#[test]
fn bang_followed_by_other_input_stays_bang() {
    let tokens = scan("!a");
    assert_eq!(types(&tokens), vec![TokenType::Bang, TokenType::Identifier]);
}

#[test]
fn all_operators_disambiguate() {
    let tokens = scan("= == < <= > >= !=");
    assert_eq!(
        types(&tokens),
        vec![
            TokenType::Equal,
            TokenType::EqualEqual,
            TokenType::Less,
            TokenType::LessEqual,
            TokenType::Greater,
            TokenType::GreaterEqual,
            TokenType::BangEqual,
        ]
    );
}

#[test]
fn unrecognized_character_emits_sentinel_and_diagnostic() {
    let (tokens, diagnostics) = scan_with_diagnostics("#");
    assert_eq!(types(&tokens), vec![TokenType::Undefined]);
    assert_eq!(tokens[0].lexeme, "#");
    assert_eq!(diagnostics, vec![Diagnostic::UnrecognizedCharacter { ch: '#', line: 1 }]);
}

#[test]
fn scanning_continues_after_a_fault() {
    let (tokens, diagnostics) = scan_with_diagnostics("# + @\n;");
    assert_eq!(
        types(&tokens),
        vec![TokenType::Undefined, TokenType::Plus, TokenType::Undefined, TokenType::Semicolon]
    );
    assert_eq!(
        diagnostics,
        vec![
            Diagnostic::UnrecognizedCharacter { ch: '#', line: 1 },
            Diagnostic::UnrecognizedCharacter { ch: '@', line: 1 },
        ]
    );
    assert_eq!(tokens[3].line, 2);
}

#[test]
fn newlines_advance_the_line_counter() {
    let tokens = scan("+\n-\n\n*");
    assert_eq!(types(&tokens), vec![TokenType::Plus, TokenType::Minus, TokenType::Star]);
    assert_eq!(tokens[0].line, 1);
    assert_eq!(tokens[1].line, 2);
    assert_eq!(tokens[2].line, 4);
}

#[test]
fn tokens_after_a_multiline_string_carry_its_closing_line() {
    let tokens = scan("\"a\nb\" +");
    assert_eq!(types(&tokens), vec![TokenType::String, TokenType::Plus]);
    assert_eq!(tokens[0].line, 2);
    assert_eq!(tokens[1].line, 2);
}

#[test]
fn whitespace_only_scans_to_nothing() {
    let (tokens, diagnostics) = scan_with_diagnostics(" \t\r\n ");
    assert!(tokens.is_empty());
    assert!(diagnostics.is_empty());
}

#[test]
fn integer_number_keeps_its_spelling() {
    let tokens = scan("123");
    assert_eq!(types(&tokens), vec![TokenType::Number]);
    assert_eq!(tokens[0].lexeme, "123");
    assert_eq!(number_value(&tokens[0]), 123.0);
}

#[test]
fn empty_string_literal_is_empty_text() {
    let tokens = scan("\"\"");
    assert_eq!(types(&tokens), vec![TokenType::String]);
    assert_eq!(tokens[0].lexeme, "");
    assert_eq!(tokens[0].literal, Some(Literal::StringLiteral(String::new())));
    assert_eq!(tokens[0].line, 1);
}

#[test]
fn letters_after_digits_start_a_new_token() {
    let tokens = scan("12abc");
    assert_eq!(types(&tokens), vec![TokenType::Number, TokenType::Identifier]);
    assert_eq!(tokens[0].lexeme, "12");
    assert_eq!(tokens[1].lexeme, "abc");
}

#[test]
fn adjacent_grouping_punctuation() {
    let tokens = scan("(( ))");
    assert_eq!(
        types(&tokens),
        vec![
            TokenType::LeftParen,
            TokenType::LeftParen,
            TokenType::RightParen,
            TokenType::RightParen,
        ]
    );
}

#[test]
fn interpreter_scans_a_statement() {
    let mut interpreter = Interpreter::new();
    let tokens = interpreter.scan("var x = 1;").unwrap();
    assert_eq!(
        types(&tokens),
        vec![
            TokenType::Var,
            TokenType::Identifier,
            TokenType::Equal,
            TokenType::Number,
            TokenType::Semicolon,
        ]
    );
    assert_eq!(tokens[1].lexeme, "x");
    assert_eq!(number_value(&tokens[3]), 1.0);
}
