use impactifier::lexer::{LexErrorKind, Lexer, LexerError};
use impactifier::token::Token;

fn lex(input: &str) -> Vec<Token> {
    try_lex(input).unwrap()
}

fn try_lex(input: &str) -> Result<Vec<Token>, LexerError> {
    let mut lexer = Lexer::new(input.chars().collect());
    lexer.scan()
}

fn num(text: &str) -> Token {
    Token::NumberLiteral(text.to_string())
}

#[test]
fn test_keywords() {
    let input = r#"
        rule trigger transform match action let if else fn enum for in import return
    "#;
    let tokens = lex(input);
    let expected = vec![
        Token::Rule,
        Token::Trigger,
        Token::Transform,
        Token::Match,
        Token::Action,
        Token::Let,
        Token::If,
        Token::Else,
        Token::Fn,
        Token::Enum,
        Token::For,
        Token::In,
        Token::Import,
        Token::Return,
        Token::EOF,
    ];

    assert_eq!(tokens, expected);
}

#[test]
fn test_identifiers() {
    let input = r#"
        let myVar = 42;
        let another_var = "hello";
    "#;
    let tokens = lex(input);
    let expected = vec![
        Token::Let,
        Token::Identifier("myVar".to_string()),
        Token::Assign,
        num("42"),
        Token::Semicolon,
        Token::Let,
        Token::Identifier("another_var".to_string()),
        Token::Assign,
        Token::StringLiteral("hello".to_string()),
        Token::Semicolon,
        Token::EOF,
    ];

    assert_eq!(tokens, expected);
}

#[test]
fn test_operators_and_delimiters() {
    let input = r#"
        let result = 5 + 3 * (10 / 2) - 7;
        let isEqual = (5 + 3) == 8;
        let isNotEqual = (10 - 2) != 5;
    "#;
    let tokens = lex(input);
    let expected = vec![
        Token::Let,
        Token::Identifier("result".to_string()),
        Token::Assign,
        num("5"),
        Token::Plus,
        num("3"),
        Token::Asterisk,
        Token::LeftParen,
        num("10"),
        Token::Slash,
        num("2"),
        Token::RightParen,
        Token::Minus,
        num("7"),
        Token::Semicolon,
        Token::Let,
        Token::Identifier("isEqual".to_string()),
        Token::Assign,
        Token::LeftParen,
        num("5"),
        Token::Plus,
        num("3"),
        Token::RightParen,
        Token::Equal,
        num("8"),
        Token::Semicolon,
        Token::Let,
        Token::Identifier("isNotEqual".to_string()),
        Token::Assign,
        Token::LeftParen,
        num("10"),
        Token::Minus,
        num("2"),
        Token::RightParen,
        Token::NotEqual,
        num("5"),
        Token::Semicolon,
        Token::EOF,
    ];

    assert_eq!(tokens, expected);
}

#[test]
fn test_literals() {
    let input = r#"
        let name = "John Doe";
        let age = 30;
        let pi = 3.14159;
    "#;
    let tokens = lex(input);
    let expected = vec![
        Token::Let,
        Token::Identifier("name".to_string()),
        Token::Assign,
        Token::StringLiteral("John Doe".to_string()),
        Token::Semicolon,
        Token::Let,
        Token::Identifier("age".to_string()),
        Token::Assign,
        num("30"),
        Token::Semicolon,
        Token::Let,
        Token::Identifier("pi".to_string()),
        Token::Assign,
        num("3.14159"),
        Token::Semicolon,
        Token::EOF,
    ];

    assert_eq!(tokens, expected);
}

#[test]
fn test_comments() {
    let input = r#"
        // This is a single-line comment
        let x = 10; /* This is a
        multi-line comment */
        let y = x + 5;
    "#;
    let tokens = lex(input);
    let expected = vec![
        Token::Let,
        Token::Identifier("x".to_string()),
        Token::Assign,
        num("10"),
        Token::Semicolon,
        Token::Let,
        Token::Identifier("y".to_string()),
        Token::Assign,
        Token::Identifier("x".to_string()),
        Token::Plus,
        num("5"),
        Token::Semicolon,
        Token::EOF,
    ];

    assert_eq!(tokens, expected);
}

#[test]
fn test_complex_syntax() {
    let input = r#"
    rule "Detect API Changes" {
        trigger {
            path = "backend/**/*.go"
            match = regex("func (\\w+)Handler")
        }
        transform "toApiEndpoint" {
            input = "$1"
            steps = [
                { toLowerCase },
                { replace: { pattern: "Handler$", with: "_endpoint" } },
                { prepend: "/api/" }
            ]
            output = "$result"
        }
        match {
            path = "frontend/**/*.dart"
            match = regex("ApiClient.call('$transform')")
        }
        action {
            alert = Alert.Severe
        }
    }
"#;

    let tokens = lex(input);
    let expected = vec![
        Token::Rule,
        Token::StringLiteral("Detect API Changes".to_string()),
        Token::LeftBrace,
        Token::Trigger,
        Token::LeftBrace,
        Token::Identifier("path".to_string()),
        Token::Assign,
        Token::StringLiteral("backend/**/*.go".to_string()),
        Token::Match,
        Token::Assign,
        Token::Identifier("regex".to_string()),
        Token::LeftParen,
        Token::StringLiteral(r"func (\w+)Handler".to_string()),
        Token::RightParen,
        Token::RightBrace,
        Token::Transform,
        Token::StringLiteral("toApiEndpoint".to_string()),
        Token::LeftBrace,
        Token::Identifier("input".to_string()),
        Token::Assign,
        Token::StringLiteral("$1".to_string()),
        Token::Identifier("steps".to_string()),
        Token::Assign,
        Token::LeftBracket,
        Token::LeftBrace,
        Token::Identifier("toLowerCase".to_string()),
        Token::RightBrace,
        Token::Comma,
        Token::LeftBrace,
        Token::Identifier("replace".to_string()),
        Token::Colon,
        Token::LeftBrace,
        Token::Identifier("pattern".to_string()),
        Token::Colon,
        Token::StringLiteral("Handler$".to_string()),
        Token::Comma,
        Token::Identifier("with".to_string()),
        Token::Colon,
        Token::StringLiteral("_endpoint".to_string()),
        Token::RightBrace,
        Token::RightBrace,
        Token::Comma,
        Token::LeftBrace,
        Token::Identifier("prepend".to_string()),
        Token::Colon,
        Token::StringLiteral("/api/".to_string()),
        Token::RightBrace,
        Token::RightBracket,
        Token::Identifier("output".to_string()),
        Token::Assign,
        Token::StringLiteral("$result".to_string()),
        Token::RightBrace,
        Token::Match,
        Token::LeftBrace,
        Token::Identifier("path".to_string()),
        Token::Assign,
        Token::StringLiteral("frontend/**/*.dart".to_string()),
        Token::Match,
        Token::Assign,
        Token::Identifier("regex".to_string()),
        Token::LeftParen,
        Token::StringLiteral("ApiClient.call('$transform')".to_string()),
        Token::RightParen,
        Token::RightBrace,
        Token::Action,
        Token::LeftBrace,
        Token::Identifier("alert".to_string()),
        Token::Assign,
        Token::Identifier("Alert".to_string()),
        Token::Dot,
        Token::Identifier("Severe".to_string()),
        Token::RightBrace,
        Token::RightBrace,
        Token::EOF,
    ];

    assert_eq!(tokens, expected);
}


fn error_at(input: &str) -> (LexErrorKind, usize, usize) {
    let e = try_lex(input).unwrap_err();
    (e.kind, e.line, e.column)
}

#[test]
fn let_statement_scans_to_its_tokens() {
    assert_eq!(
        lex("let x = 10;"),
        vec![
            Token::Let,
            Token::Identifier("x".to_string()),
            Token::Assign,
            num("10"),
            Token::Semicolon,
            Token::EOF,
        ]
    );
}

#[test]
fn line_comment_is_discarded() {
    assert_eq!(lex("// note\nlet"), vec![Token::Let, Token::EOF]);
}

#[test]
fn unterminated_string_reports_end_of_input() {
    assert_eq!(error_at("\"abc"), (LexErrorKind::UnterminatedString, 1, 4));
}

#[test]
fn second_dot_in_number_is_rejected_where_it_stands() {
    assert_eq!(error_at("1.2.3"), (LexErrorKind::InvalidNumberFormat, 1, 3));
}

#[test]
fn not_and_not_equal() {
    assert_eq!(lex("!="), vec![Token::NotEqual, Token::EOF]);
    assert_eq!(lex("!"), vec![Token::Not, Token::EOF]);
}

#[test]
fn block_comment_across_lines_is_discarded() {
    assert_eq!(
        lex("/* a\nb */x"),
        vec![Token::Identifier("x".to_string()), Token::EOF]
    );
}

#[test]
fn block_comment_newline_moves_to_next_line() {
    assert_eq!(error_at("/* a\nb */x$"), (LexErrorKind::UnexpectedCharacter, 2, 5));
}

#[test]
fn empty_input_is_just_eof() {
    assert_eq!(lex(""), vec![Token::EOF]);
}

#[test]
fn whitespace_only_is_just_eof() {
    assert_eq!(lex(" \t\r\n  \n"), vec![Token::EOF]);
}

#[test]
fn lone_comments_are_just_eof() {
    assert_eq!(lex("// only a comment"), vec![Token::EOF]);
    assert_eq!(lex("/* only\n a comment */"), vec![Token::EOF]);
    assert_eq!(lex("/**/"), vec![Token::EOF]);
}

#[test]
fn scanning_twice_gives_the_same_tokens() {
    let input = "rule \"r\" { x = 1.5 <= y; } // end";
    assert_eq!(try_lex(input).unwrap(), try_lex(input).unwrap());
    let bad = "let s = \"oops";
    let (a, b) = (try_lex(bad).unwrap_err(), try_lex(bad).unwrap_err());
    assert_eq!((a.kind, a.line, a.column), (b.kind, b.line, b.column));
}

#[test]
fn string_escapes_are_unescaped() {
    assert_eq!(
        lex(r#""a\nb\rc\td\\e\"f""#),
        vec![
            Token::StringLiteral("a\nb\rc\td\\e\"f".to_string()),
            Token::EOF
        ]
    );
}

#[test]
fn closing_quote_is_not_in_the_payload() {
    assert_eq!(
        lex(r#""abc"x"#),
        vec![
            Token::StringLiteral("abc".to_string()),
            Token::Identifier("x".to_string()),
            Token::EOF
        ]
    );
}

#[test]
fn unknown_escape_is_rejected_at_the_escaped_character() {
    assert_eq!(error_at("\"a\\qb\""), (LexErrorKind::InvalidEscapeSequence, 1, 3));
}

#[test]
fn backslash_at_end_is_an_unterminated_string() {
    assert_eq!(error_at("\"a\\"), (LexErrorKind::UnterminatedString, 1, 3));
}

#[test]
fn keyword_spellings_are_exact() {
    assert_eq!(
        lex("rule rules Rule import_ in"),
        vec![
            Token::Rule,
            Token::Identifier("rules".to_string()),
            Token::Identifier("Rule".to_string()),
            Token::Identifier("import_".to_string()),
            Token::In,
            Token::EOF,
        ]
    );
}

#[test]
fn identifier_run_includes_digits_underscores_and_letters() {
    assert_eq!(
        lex("a1_b2 x"),
        vec![
            Token::Identifier("a1_b2".to_string()),
            Token::Identifier("x".to_string()),
            Token::EOF
        ]
    );
    assert_eq!(
        lex("caf\u{e9}"),
        vec![Token::Identifier("caf\u{e9}".to_string()), Token::EOF]
    );
}

#[test]
fn two_character_operators() {
    assert_eq!(
        lex("== = <= < >= > != !"),
        vec![
            Token::Equal,
            Token::Assign,
            Token::LessEqual,
            Token::Less,
            Token::GreaterEqual,
            Token::Greater,
            Token::NotEqual,
            Token::Not,
            Token::EOF,
        ]
    );
}

#[test]
fn slash_star_percent_and_friends() {
    assert_eq!(
        lex("a/b*c%d-e+f"),
        vec![
            Token::Identifier("a".to_string()),
            Token::Slash,
            Token::Identifier("b".to_string()),
            Token::Asterisk,
            Token::Identifier("c".to_string()),
            Token::Percent,
            Token::Identifier("d".to_string()),
            Token::Minus,
            Token::Identifier("e".to_string()),
            Token::Plus,
            Token::Identifier("f".to_string()),
            Token::EOF,
        ]
    );
}

#[test]
fn number_forms() {
    assert_eq!(lex("7"), vec![num("7"), Token::EOF]);
    assert_eq!(lex("12.50;"), vec![num("12.50"), Token::Semicolon, Token::EOF]);
    assert_eq!(lex("3."), vec![num("3."), Token::EOF]);
}

#[test]
fn unexpected_characters_are_reported_with_position() {
    assert_eq!(error_at("let a = 1;\n  @"), (LexErrorKind::UnexpectedCharacter, 2, 2));
    assert_eq!(error_at("_x"), (LexErrorKind::UnexpectedCharacter, 1, 0));
    assert_eq!(error_at("a && b"), (LexErrorKind::UnexpectedCharacter, 1, 2));
}

#[test]
fn unterminated_block_comment_reports_end_of_input() {
    assert_eq!(error_at("x /* open\n*"), (LexErrorKind::UnterminatedComment, 2, 1));
}

#[test]
fn nested_block_comment_closes_at_first_end() {
    assert_eq!(
        lex("/* a /* b */ c */"),
        vec![
            Token::Identifier("c".to_string()),
            Token::Asterisk,
            Token::Slash,
            Token::EOF
        ]
    );
}

#[test]
fn error_text_has_position_then_message() {
    let e = try_lex("\n\n   #").unwrap_err();
    assert_eq!(e.to_string(), "line: 3, column: 3\nUnexpected character");
    let e = LexerError::new(LexErrorKind::UnterminatedComment, 120, 0);
    assert_eq!(
        e.to_string(),
        "line: 120, column: 0\nUnterminated multi-line comment"
    );
    assert_eq!(e.message(), "Unterminated multi-line comment");
}
