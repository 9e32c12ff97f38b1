use monkey::token::Token;
use std::collections::HashSet;

fn every_token() -> Vec<Token> {
    vec![
        Token::Illegal,
        Token::Eof,
        Token::Ident("foo".to_string()),
        Token::Int("5".to_string()),
        Token::Assign,
        Token::Plus,
        Token::Minus,
        Token::Bang,
        Token::Asterisk,
        Token::Slash,
        Token::LesserThan,
        Token::GreaterThan,
        Token::Equal,
        Token::NotEqual,
        Token::Comma,
        Token::Semicolon,
        Token::LParen,
        Token::RParen,
        Token::LBrace,
        Token::RBrace,
        Token::Function,
        Token::Let,
        Token::True,
        Token::False,
        Token::If,
        Token::Else,
        Token::Return,
    ]
}

#[test]
fn literal_is_the_source_text() {
    let expected = [
        "Illegal", "", "foo", "5", "=", "+", "-", "!", "*", "/", "<", ">", "==", "!=", ",", ";",
        "(", ")", "{", "}", "fn", "let", "true", "false", "if", "else", "return",
    ];
    let tokens = every_token();
    assert_eq!(tokens.len(), expected.len());
    for (token, literal) in tokens.iter().zip(expected) {
        assert_eq!(token.literal(), literal);
    }
}

#[test]
fn literal_of_a_payload_is_the_payload() {
    assert_eq!(Token::Ident("my_var".to_string()).literal(), "my_var");
    assert_eq!(Token::Int("0042".to_string()).literal(), "0042");
    assert_eq!(Token::Ident(String::new()).literal(), "");
}

#[test]
fn display_form_names_the_token() {
    let expected = [
        "Illegal",
        "Eof",
        "Ident(foo)",
        "Int(5)",
        "Assign",
        "Plus",
        "Minus",
        "Bang",
        "Asterisk",
        "Slash",
        "Lesserthan",
        "Greaterthan",
        "Equal",
        "NotEqual",
        "Comma",
        "Semicolon",
        "Lparen",
        "Rparen",
        "LSquirly",
        "RSquirly",
        "Function",
        "Let",
        "True",
        "False",
        "If",
        "Else",
        "Return",
    ];
    let tokens = every_token();
    assert_eq!(tokens.len(), expected.len());
    for (token, name) in tokens.iter().zip(expected) {
        assert_eq!(token.display_form(), name);
    }
}

#[test]
fn display_form_carries_the_payload() {
    assert_eq!(Token::Ident("five".to_string()).display_form(), "Ident(five)");
    assert_eq!(Token::Int("10".to_string()).display_form(), "Int(10)");
    assert_eq!(Token::Ident(String::new()).display_form(), "Ident()");
}

#[test]
fn equality_is_structural() {
    let tokens = every_token();
    for (i, left) in tokens.iter().enumerate() {
        for (j, right) in tokens.iter().enumerate() {
            assert_eq!(left == right, i == j, "{left:?} and {right:?}");
        }
    }
    assert_eq!(Token::Ident("a".to_string()), Token::Ident("a".to_string()));
    assert_ne!(Token::Ident("a".to_string()), Token::Ident("b".to_string()));
    assert_ne!(Token::Ident("5".to_string()), Token::Int("5".to_string()));
    assert_ne!(Token::Int("5".to_string()), Token::Int("05".to_string()));
    assert_ne!(Token::Ident("let".to_string()), Token::Let);
}

#[test]
fn clone_is_equal_to_its_source() {
    for token in every_token() {
        assert_eq!(token.clone(), token);
    }
}

#[test]
fn equal_tokens_hash_alike() {
    let mut seen = HashSet::new();
    for token in every_token() {
        assert!(seen.insert(token));
    }
    for token in every_token() {
        assert!(!seen.insert(token));
    }
    assert_eq!(seen.len(), 27);
    assert!(seen.contains(&Token::Ident("foo".to_string())));
    assert!(!seen.contains(&Token::Ident("bar".to_string())));
}
