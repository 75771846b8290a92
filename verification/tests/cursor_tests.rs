use pyinterp::error::ErrorType;
use pyinterp::scanner::{tokenize, Token, TokenType};
use pyinterp::token_iter::TokenIter;

fn cursor(source: &str) -> TokenIter {
    TokenIter::new(tokenize(String::from(source)).unwrap())
}

#[test]
fn peek_advance_previous_back() {
    let mut it = cursor("a + 1");
    assert_eq!(it.peek().token_type, TokenType::IDENTIFIER);
    assert_eq!(it.advance().token_type, TokenType::IDENTIFIER);
    assert_eq!(it.advance().token_type, TokenType::Plus);
    assert_eq!(it.previous(1).token_type, TokenType::Plus);
    assert_eq!(it.previous(2).token_type, TokenType::IDENTIFIER);
    assert_eq!(it.current, 2);
    assert_eq!(it.back(2).unwrap().token_type, TokenType::IDENTIFIER);
    assert_eq!(it.current, 0);
    // rewinding before the first token fails and leaves the cursor
    assert_eq!(it.back(1), Err(false));
    assert_eq!(it.current, 0);
}

#[test]
fn the_end_of_input_is_never_consumed() {
    let mut it = cursor("a");
    it.advance();
    it.advance();
    assert!(it.is_at_end());
    let at = it.current;
    assert_eq!(it.advance().token_type, TokenType::EOF);
    assert_eq!(it.current, at);
    assert!(!it.check(TokenType::EOF));
    assert!(!it.catch(&[TokenType::EOF]));
}

#[test]
fn a_list_without_end_of_input_gets_one() {
    let it = TokenIter::new(Vec::<Token>::new());
    assert_eq!(it.vec_token.len(), 1);
    assert!(it.is_at_end());
}

#[test]
fn catch_one_of_several_kinds() {
    let mut it = cursor("- x");
    assert!(!it.catch(&[TokenType::Plus, TokenType::Star]));
    assert_eq!(it.current, 0);
    assert!(it.catch(&[TokenType::Plus, TokenType::Minus]));
    assert_eq!(it.current, 1);
    assert!(it.catch_kind(TokenType::IDENTIFIER));
    assert!(!it.catch_kind(TokenType::IDENTIFIER));
}

#[test]
fn catch_multi_consumes_the_first_full_match() {
    let alternatives = vec![
        vec![TokenType::NOT, TokenType::In],
        vec![TokenType::Is, TokenType::NOT],
    ];
    let mut it = cursor("is not x");
    assert!(it.catch_multi(&alternatives));
    assert_eq!(it.current, 2);
    let mut it = cursor("not in x");
    assert!(it.catch_multi(&alternatives));
    assert_eq!(it.current, 2);
}

#[test]
fn catch_multi_rewinds_after_a_partial_match() {
    let alternatives = vec![
        vec![TokenType::NOT, TokenType::In],
        vec![TokenType::Is, TokenType::NOT],
    ];
    let mut it = cursor("not x");
    assert!(!it.catch_multi(&alternatives));
    assert_eq!(it.current, 0);
    let mut it = cursor("is");
    assert!(!it.catch_multi(&alternatives));
    assert_eq!(it.current, 0);
}

#[test]
fn consume_or_fail() {
    let mut it = cursor("a =");
    assert_eq!(
        it.consume(TokenType::IDENTIFIER, String::new()).unwrap().lexeme,
        "a"
    );
    match it.consume(TokenType::COLON, String::new()) {
        Err(ErrorType::ParserError(e)) => {
            assert_eq!(e.basic_error.lineno, 0);
            assert_eq!(e.basic_error.col_offset, 2);
            assert_eq!(e.basic_error.lexeme, "=");
        }
        other => panic!("{:?}", other),
    }
    assert_eq!(it.current, 1);
}

#[test]
fn return_surplus_gives_what_is_left() {
    let mut it = cursor("a b c");
    it.advance();
    let rest: Vec<TokenType> = it.return_surplus().iter().map(|t| t.token_type).collect();
    assert_eq!(
        rest,
        vec![
            TokenType::IDENTIFIER,
            TokenType::IDENTIFIER,
            TokenType::LineBreak,
            TokenType::EOF
        ]
    );
}
