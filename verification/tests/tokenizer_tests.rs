use liquid_core::tokenizer::{Token, TokenReader, TokenizeError, Tokenizer};

#[test]
fn single_characters_tokenize() {
    let mut tokenizer = Tokenizer::new("$ . @ ( ) [ ] , ; -");
    assert!(matches!(tokenizer.next_token(), Ok(Token::Root(_))));
    assert!(matches!(tokenizer.next_token(), Ok(Token::Dot(_))));
    assert!(matches!(tokenizer.next_token(), Ok(Token::At(_))));
    assert!(matches!(tokenizer.next_token(), Ok(Token::LParen(_))));
    assert!(matches!(tokenizer.next_token(), Ok(Token::RParen(_))));
    assert!(matches!(tokenizer.next_token(), Ok(Token::LBracket(_))));
    assert!(matches!(tokenizer.next_token(), Ok(Token::RBracket(_))));
    assert!(matches!(tokenizer.next_token(), Ok(Token::Comma(_))));
    assert!(matches!(tokenizer.next_token(), Ok(Token::Semicolon(_))));
    assert!(matches!(tokenizer.next_token(), Ok(Token::Neg(_))));
    assert!(matches!(tokenizer.next_token(), Ok(Token::End)));
}

#[test]
fn two_character_operators_tokenize() {
    let mut tokenizer = Tokenizer::new("== != <= >= && || .. (? < > ! $");
    assert!(matches!(tokenizer.next_token(), Ok(Token::Equal(_))));
    assert!(matches!(tokenizer.next_token(), Ok(Token::NotEqual(_))));
    assert!(matches!(tokenizer.next_token(), Ok(Token::LessEqual(_))));
    assert!(matches!(tokenizer.next_token(), Ok(Token::GreaterEqual(_))));
    assert!(matches!(tokenizer.next_token(), Ok(Token::And(_))));
    assert!(matches!(tokenizer.next_token(), Ok(Token::Or(_))));
    assert!(matches!(tokenizer.next_token(), Ok(Token::DotDot(_))));
    assert!(matches!(tokenizer.next_token(), Ok(Token::PredicateStart(_))));
    assert!(matches!(tokenizer.next_token(), Ok(Token::Less(_))));
    assert!(matches!(tokenizer.next_token(), Ok(Token::Greater(_))));
    assert!(matches!(tokenizer.next_token(), Ok(Token::Not(_))));
    assert!(matches!(tokenizer.next_token(), Ok(Token::Root(_))));
    assert!(matches!(tokenizer.next_token(), Ok(Token::End)));
    // A pair-starting character at the very end has nothing to peek at.
    let mut dangling = Tokenizer::new("!");
    assert!(matches!(dangling.next_token(), Err(_)));
}

#[test]
fn words_become_identifiers_numbers_and_booleans() {
    let mut tokenizer = Tokenizer::new("owner_1 42 true false truth");
    match tokenizer.next_token() {
        Ok(Token::Identifier(span, name)) => {
            assert_eq!(name, "owner_1");
            assert_eq!(span.len, 7);
        }
        other => panic!("expected an identifier, got {:?}", other),
    }
    match tokenizer.next_token() {
        Ok(Token::Number(_, n)) => assert_eq!(n, 42),
        other => panic!("expected a number, got {:?}", other),
    }
    assert!(matches!(tokenizer.next_token(), Ok(Token::Bool(_, true))));
    assert!(matches!(tokenizer.next_token(), Ok(Token::Bool(_, false))));
    match tokenizer.next_token() {
        Ok(Token::Identifier(_, name)) => assert_eq!(name, "truth"),
        other => panic!("expected an identifier, got {:?}", other),
    }
    assert!(matches!(tokenizer.next_token(), Ok(Token::End)));
}

#[test]
fn spans_record_position_and_width() {
    let mut tokenizer = Tokenizer::new("$abc");
    match tokenizer.next_token() {
        Ok(Token::Root(span)) => {
            assert_eq!(span.begin, 1);
            assert_eq!(span.len, 1);
        }
        other => panic!("expected the root token, got {:?}", other),
    }
    match tokenizer.next_token() {
        Ok(Token::Identifier(span, name)) => {
            assert_eq!(name, "abc");
            assert_eq!(span.begin, 2);
            assert_eq!(span.len, 3);
        }
        other => panic!("expected an identifier, got {:?}", other),
    }
}

#[test]
fn oversized_and_mixed_numbers_are_illegal() {
    let mut tokenizer = Tokenizer::new("99999999999");
    match tokenizer.next_token() {
        Err(TokenizeError::IllegalNumber { provided, .. }) => {
            assert_eq!(provided, "99999999999");
        }
        other => panic!("expected an illegal number, got {:?}", other),
    }
    let mut tokenizer2 = Tokenizer::new("12ab");
    assert!(matches!(
        tokenizer2.next_token(),
        Err(TokenizeError::IllegalNumber { .. })
    ));
    // The largest accepted value still parses.
    let mut tokenizer3 = Tokenizer::new("4294967295");
    match tokenizer3.next_token() {
        Ok(Token::Number(_, n)) => assert_eq!(n, u32::MAX),
        other => panic!("expected a number, got {:?}", other),
    }
}

#[test]
fn lone_operators_and_strays_are_reported() {
    let mut tokenizer = Tokenizer::new("=1");
    match tokenizer.next_token() {
        Err(TokenizeError::UnexpectedCharacter { expected, provided, pos }) => {
            assert_eq!(expected, '=');
            assert_eq!(provided, '1');
            assert_eq!(pos, 2);
        }
        other => panic!("expected a character mismatch, got {:?}", other),
    }
    let mut tokenizer2 = Tokenizer::new("&-");
    assert!(matches!(
        tokenizer2.next_token(),
        Err(TokenizeError::UnexpectedCharacter { expected: '&', .. })
    ));
    let mut tokenizer3 = Tokenizer::new("|.");
    assert!(matches!(
        tokenizer3.next_token(),
        Err(TokenizeError::UnexpectedCharacter { expected: '|', .. })
    ));
    let mut tokenizer4 = Tokenizer::new("#");
    match tokenizer4.next_token() {
        Err(TokenizeError::UnknownCharacter { provided, pos }) => {
            assert_eq!(provided, '#');
            assert_eq!(pos, 1);
        }
        other => panic!("expected an unknown character, got {:?}", other),
    }
    let mut tokenizer5 = Tokenizer::new("=");
    assert!(matches!(
        tokenizer5.next_token(),
        Err(TokenizeError::UnexpectedEnd(_))
    ));
}

#[test]
fn whitespace_only_input_ends() {
    let mut tokenizer = Tokenizer::new(" \t\r\n ");
    assert!(matches!(tokenizer.next_token(), Ok(Token::End)));
    let mut empty = Tokenizer::new("");
    assert!(matches!(empty.next_token(), Ok(Token::End)));
}

#[test]
fn reader_serves_tokens_in_scan_order() {
    let mut reader = TokenReader::new("$.owner == 3");
    assert!(reader.err.is_none());
    assert!(matches!(reader.peek_token(), Ok(Token::Root(_))));
    assert!(matches!(reader.next_token(), Ok(Token::Root(_))));
    assert!(matches!(reader.next_token(), Ok(Token::Dot(_))));
    match reader.next_token() {
        Ok(Token::Identifier(_, name)) => assert_eq!(name, "owner"),
        other => panic!("expected an identifier, got {:?}", other),
    }
    assert!(matches!(reader.next_token(), Ok(Token::Equal(_))));
    assert!(matches!(reader.next_token(), Ok(Token::Number(_, 3))));
    assert!(matches!(reader.next_token(), Ok(Token::End)));
    assert!(matches!(reader.next_token(), Err(TokenizeError::UnexpectedEnd(_))));
    assert!(matches!(reader.peek_token(), Err(TokenizeError::UnexpectedEnd(_))));
}

#[test]
fn reader_records_the_first_error() {
    let reader = TokenReader::new("$ #");
    assert!(matches!(
        reader.err,
        Some(TokenizeError::UnknownCharacter { provided: '#', .. })
    ));
}
