use rlox::scanner::scan_tokens;
use rlox::token::{TokenLit, TokenType};

fn kinds(src: &[u8]) -> Vec<TokenType> {
    match scan_tokens(&src.to_vec()) {
        Ok(toks) => toks.iter().map(|t| t.token_type).collect(),
        Err(_) => panic!("expected a clean scan"),
    }
}

#[test]
fn scans_expression_tokens() {
    assert_eq!(
        kinds(b"1 + 2 * 3;"),
        vec![
            TokenType::Number,
            TokenType::Plus,
            TokenType::Number,
            TokenType::Star,
            TokenType::Number,
            TokenType::Semicolon,
            TokenType::Eof,
        ]
    );
}

#[test]
fn scans_number_values() {
    let toks = scan_tokens(&b"42".to_vec()).unwrap_or_else(|_| panic!("scan failed"));
    match toks[0].literal {
        Some(TokenLit::Num(n)) => assert_eq!(n, 42),
        _ => panic!("expected a number payload"),
    }
}

#[test]
fn keywords_reclassify() {
    assert_eq!(
        kinds(b"var x = true;"),
        vec![
            TokenType::Var,
            TokenType::Identifier,
            TokenType::Equal,
            TokenType::True,
            TokenType::Semicolon,
            TokenType::Eof,
        ]
    );
}

#[test]
fn two_character_operators_take_lookahead() {
    assert_eq!(
        kinds(b"<= < == = != !"),
        vec![
            TokenType::LessEqual,
            TokenType::Less,
            TokenType::EqualEqual,
            TokenType::Equal,
            TokenType::BangEqual,
            TokenType::Bang,
            TokenType::Eof,
        ]
    );
}

#[test]
fn comments_run_to_end_of_line() {
    assert_eq!(
        kinds(b"1 // the rest is dropped ( } \"\n2"),
        vec![TokenType::Number, TokenType::Number, TokenType::Eof]
    );
}

#[test]
fn string_literal_carries_contents() {
    let toks = scan_tokens(&b"\"ab\"".to_vec()).unwrap_or_else(|_| panic!("scan failed"));
    assert_eq!(toks[0].token_type, TokenType::Str);
    match &toks[0].literal {
        Some(TokenLit::Text(s)) => assert_eq!(s, &b"ab".to_vec()),
        _ => panic!("expected a string payload"),
    }
}

#[test]
fn unterminated_string_is_lexical_error() {
    match scan_tokens(&b"\"abc".to_vec()) {
        Err(e) => assert_eq!(e.message, b"Unterminated string.".to_vec()),
        Ok(_) => panic!("expected a lexical error"),
    }
}

#[test]
fn unexpected_character_is_lexical_error() {
    match scan_tokens(&b"@".to_vec()) {
        Err(e) => {
            assert_eq!(e.message, b"Unexpected character.".to_vec());
            assert_eq!(e.line, 1);
        },
        Ok(_) => panic!("expected a lexical error"),
    }
}

#[test]
fn strings_may_span_lines() {
    let toks = scan_tokens(&b"\"a\nb\" x".to_vec()).unwrap_or_else(|_| panic!("scan failed"));
    assert_eq!(toks[0].line, 2);
    assert_eq!(toks[1].token_type, TokenType::Identifier);
    assert_eq!(toks[1].line, 2);
}

#[test]
fn fraction_needs_a_following_digit() {
    // "1.x": the dot is not consumed as part of the number.
    assert_eq!(
        kinds(b"1.x"),
        vec![TokenType::Number, TokenType::Dot, TokenType::Identifier, TokenType::Eof]
    );
}
