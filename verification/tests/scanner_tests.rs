use colored::Colorize;
use pyinterp::error::ErrorType;
use pyinterp::scanner::{build_scanner, tokenize, Literal, Token, TokenType};

fn kinds(source: &str) -> Vec<TokenType> {
    let mut scanner = build_scanner(String::from(source));
    scanner.scan().unwrap();
    scanner.token.iter().map(|t| t.token_type).collect()
}

#[test]
fn test_scanner() {
    println!("{}", "[INFO] Test scanner".yellow());
    let source = String::from("1+2+3+4+5+6+7+8+9");
    let mut scanner = build_scanner(source);
    scanner.scan().unwrap();
    println!("{:#?}", scanner.token);
    assert_eq!(scanner.token.len(), 19);
    for (index, token) in scanner.token.iter().take(17).enumerate() {
        if index % 2 == 0 {
            assert_eq!(token.token_type, TokenType::NUMBER);
            assert_eq!(token.literal, Literal::Int(index as i64 / 2 + 1));
        } else {
            assert_eq!(token.token_type, TokenType::Plus);
        }
        assert_eq!(token.lineno, 0);
        assert_eq!(token.col_offset, index);
    }
    assert_eq!(scanner.token[17].token_type, TokenType::LineBreak);
    assert_eq!(scanner.token[18].token_type, TokenType::EOF);
}

#[test]
fn scan_empty_source_gives_only_eof() {
    assert_eq!(kinds(""), vec![TokenType::EOF]);
}

#[test]
fn scan_every_line_ends_with_a_line_break() {
    assert_eq!(
        kinds("a\nb"),
        vec![
            TokenType::IDENTIFIER,
            TokenType::LineBreak,
            TokenType::IDENTIFIER,
            TokenType::LineBreak,
            TokenType::EOF
        ]
    );
    assert_eq!(
        kinds("a\n"),
        vec![TokenType::IDENTIFIER, TokenType::LineBreak, TokenType::EOF]
    );
    assert_eq!(
        kinds("a # note\nb"),
        vec![
            TokenType::IDENTIFIER,
            TokenType::LineBreak,
            TokenType::IDENTIFIER,
            TokenType::LineBreak,
            TokenType::EOF
        ]
    );
}

#[test]
fn scan_indentation_is_kept_as_tokens() {
    assert_eq!(
        kinds("if a:\n \tb"),
        vec![
            TokenType::IF,
            TokenType::IDENTIFIER,
            TokenType::COLON,
            TokenType::LineBreak,
            TokenType::SPACE,
            TokenType::TAB,
            TokenType::IDENTIFIER,
            TokenType::LineBreak,
            TokenType::EOF
        ]
    );
    // blanks inside a line are passed over
    assert_eq!(
        kinds("a  =\t1"),
        vec![
            TokenType::IDENTIFIER,
            TokenType::EQUAL,
            TokenType::NUMBER,
            TokenType::LineBreak,
            TokenType::EOF
        ]
    );
}

#[test]
fn scan_operators_of_two_characters() {
    assert_eq!(
        kinds("<= == != >= // ** < = ! > / *"),
        vec![
            TokenType::LessEqual,
            TokenType::EqualEqual,
            TokenType::BangEqual,
            TokenType::GreaterEqual,
            TokenType::ExactDivision,
            TokenType::Pow,
            TokenType::LESS,
            TokenType::EQUAL,
            TokenType::BANG,
            TokenType::GREATER,
            TokenType::Slash,
            TokenType::Star,
            TokenType::LineBreak,
            TokenType::EOF
        ]
    );
}

#[test]
fn scan_keywords_and_identifiers() {
    let tokens = tokenize(String::from("while buzz_A not in True")).unwrap();
    let kinds: Vec<TokenType> = tokens.iter().map(|t| t.token_type).collect();
    assert_eq!(
        kinds,
        vec![
            TokenType::WHILE,
            TokenType::IDENTIFIER,
            TokenType::NOT,
            TokenType::In,
            TokenType::TRUE,
            TokenType::LineBreak,
            TokenType::EOF
        ]
    );
    assert_eq!(tokens[0].literal, Literal::Nil);
    assert_eq!(tokens[1].literal, Literal::Identifier(String::from("buzz_A")));
    assert_eq!(tokens[1].lexeme, "buzz_A");
    assert_eq!(tokens[1].col_offset, 6);
}

#[test]
fn scan_numbers() {
    let tokens = tokenize(String::from("19 1.5 .5 7. 1.2.3 .")).unwrap();
    let literals: Vec<Literal> = tokens.iter().map(|t| t.literal.clone()).collect();
    assert_eq!(
        literals,
        vec![
            Literal::Int(19),
            Literal::Float(String::from("1.5")),
            Literal::Float(String::from("0.5")),
            Literal::Float(String::from("7.")),
            Literal::Float(String::from("1.2")),
            Literal::Float(String::from("0.3")),
            Literal::Nil,
            Literal::Nil,
            Literal::Nil
        ]
    );
    assert_eq!(tokens[6].token_type, TokenType::Dot);
    assert_eq!(
        tokenize(String::from("9223372036854775807")).unwrap()[0].literal,
        Literal::Int(i64::MAX)
    );
}

#[test]
fn scan_whole_number_too_large_is_an_error() {
    match tokenize(String::from("a = 9223372036854775808")) {
        Err(ErrorType::BasicError(e)) => {
            assert_eq!(e.lineno, 0);
            assert_eq!(e.col_offset, 4);
            assert_eq!(e.lexeme, "9223372036854775808");
            assert_eq!(e.to_string(), "Error at 1:5");
        }
        other => panic!("{:?}", other),
    }
}

#[test]
fn scan_strings() {
    let tokens = tokenize(String::from("\"ab c\" \"\" \"\"\"x\ny\"\"\" z")).unwrap();
    let expected = vec![
        Token {
            token_type: TokenType::STRING,
            lineno: 0,
            col_offset: 0,
            literal: Literal::Str(String::from("ab c")),
            lexeme: String::from("\"ab c\""),
        },
        Token {
            token_type: TokenType::STRING,
            lineno: 0,
            col_offset: 7,
            literal: Literal::Str(String::new()),
            lexeme: String::from("\"\""),
        },
        Token {
            token_type: TokenType::STRING,
            lineno: 0,
            col_offset: 10,
            literal: Literal::Str(String::from("x\ny")),
            lexeme: String::from("\"\"\"x\ny\"\"\""),
        },
        Token {
            token_type: TokenType::IDENTIFIER,
            lineno: 1,
            col_offset: 5,
            literal: Literal::Identifier(String::from("z")),
            lexeme: String::from("z"),
        },
        Token {
            token_type: TokenType::LineBreak,
            lineno: 1,
            col_offset: 6,
            literal: Literal::Nil,
            lexeme: String::from("\n"),
        },
        Token {
            token_type: TokenType::EOF,
            lineno: 1,
            col_offset: 6,
            literal: Literal::Nil,
            lexeme: String::new(),
        },
    ];
    assert_eq!(tokens, expected);
}

#[test]
fn scan_unclosed_string_is_an_error() {
    match tokenize(String::from("a\n b = \"abc\nc")) {
        Err(ErrorType::BasicError(e)) => {
            assert_eq!(e.lineno, 1);
            assert_eq!(e.col_offset, 5);
            assert_eq!(e.lexeme, "\"abc");
        }
        other => panic!("{:?}", other),
    }
    assert!(matches!(
        tokenize(String::from("\"\"\"abc\"\"")),
        Err(ErrorType::BasicError(_))
    ));
}

#[test]
fn scan_unexpected_character_is_an_error() {
    match tokenize(String::from("a = 1 ? 2")) {
        Err(ErrorType::BasicError(e)) => {
            assert_eq!(e.lineno, 0);
            assert_eq!(e.col_offset, 6);
            assert_eq!(e.lexeme, "?");
        }
        other => panic!("{:?}", other),
    }
}

#[test]
fn scan_end_position_of_the_scanner() {
    let mut scanner = build_scanner(String::from("a=1\nbc"));
    assert_eq!(scanner.end_lineno, 1);
    assert_eq!(scanner.end_col_offset, 2);
    assert!(scanner.token.is_empty());
    scanner.scan().unwrap();
    assert_eq!(scanner.lineno, 1);
    assert_eq!(scanner.col_offset, 2);
    let eof = scanner.token.last().unwrap();
    assert_eq!(eof.token_type, TokenType::EOF);
    assert_eq!((eof.lineno, eof.col_offset), (1, 2));
    // scanning again gives the same tokens, not twice as many
    let count = scanner.token.len();
    scanner.scan().unwrap();
    assert_eq!(scanner.token.len(), count);
}

#[test]
fn scan_carriage_returns_are_passed_over() {
    assert_eq!(
        kinds("a\r\nb\r\n"),
        vec![
            TokenType::IDENTIFIER,
            TokenType::LineBreak,
            TokenType::IDENTIFIER,
            TokenType::LineBreak,
            TokenType::EOF
        ]
    );
}

#[test]
fn a_failed_scan_keeps_the_tokens_before_the_failure() {
    let mut scanner = build_scanner(String::from("ab = ?"));
    let (line, col) = (scanner.lineno, scanner.col_offset);
    assert!(scanner.scan().is_err());
    let whole = tokenize(String::from("ab = ")).unwrap();
    // all but the line break and the end of input that close a text
    let before = &whole[..whole.len() - 2];
    assert_eq!(scanner.token.len(), before.len());
    for (held, expected) in scanner.token.iter().zip(before.iter()) {
        assert_eq!(held, expected);
    }
    assert_eq!(scanner.token[0].lexeme, "ab");
    assert_eq!((scanner.lineno, scanner.col_offset), (line, col));
}
