use monkey::lexer::Lexer;
use monkey::parser::Parser;
use monkey::token::Token;

#[test]
fn window_holds_the_first_two_tokens() {
    let mut lexer = Lexer::new("let x = 5;");
    let parser = Parser::new(&mut lexer);
    assert_eq!(*parser.cur_token(), Token::Let);
    assert_eq!(*parser.peek_token(), Token::Ident("x".to_string()));
}

#[test]
fn window_advances_in_lock_step() {
    let mut lexer = Lexer::new("let x = 5;");
    let mut parser = Parser::new(&mut lexer);
    let expected = [
        Token::Let,
        Token::Ident("x".to_string()),
        Token::Assign,
        Token::Int("5".to_string()),
        Token::Semicolon,
        Token::Eof,
        Token::Eof,
        Token::Eof,
    ];
    for pair in expected.windows(2) {
        assert_eq!(*parser.cur_token(), pair[0]);
        assert_eq!(*parser.peek_token(), pair[1]);
        assert!(parser.can_advance());
        parser.next_token();
    }
    assert_eq!(*parser.cur_token(), Token::Eof);
    assert_eq!(*parser.peek_token(), Token::Eof);
}

#[test]
fn window_over_short_input_shows_the_end_marker() {
    let mut lexer = Lexer::new("");
    let parser = Parser::new(&mut lexer);
    assert_eq!(*parser.cur_token(), Token::Eof);
    assert_eq!(*parser.peek_token(), Token::Eof);

    let mut lexer = Lexer::new(" x ");
    let parser = Parser::new(&mut lexer);
    assert_eq!(*parser.cur_token(), Token::Ident("x".to_string()));
    assert_eq!(*parser.peek_token(), Token::Eof);
}

#[test]
fn window_starts_where_the_tokenizer_stands() {
    let mut lexer = Lexer::new("a b c d");
    assert_eq!(lexer.next_token(), Token::Ident("a".to_string()));
    let parser = Parser::new(&mut lexer);
    assert_eq!(*parser.cur_token(), Token::Ident("b".to_string()));
    assert_eq!(*parser.peek_token(), Token::Ident("c".to_string()));
}

#[test]
fn tokenizer_goes_on_after_the_window() {
    let mut lexer = Lexer::new("a b c d");
    {
        let mut parser = Parser::new(&mut lexer);
        parser.next_token();
        assert_eq!(*parser.peek_token(), Token::Ident("c".to_string()));
    }
    assert_eq!(lexer.next_token(), Token::Ident("d".to_string()));
    assert_eq!(lexer.next_token(), Token::Eof);
}

#[test]
fn checked_window_is_there_for_recognized_input() {
    let mut lexer = Lexer::new("== !=");
    let parser = Parser::try_new(&mut lexer);
    assert!(parser.is_some());
    let parser = parser.unwrap();
    assert_eq!(*parser.cur_token(), Token::Equal);
    assert_eq!(*parser.peek_token(), Token::NotEqual);
}

#[test]
fn checked_window_is_refused_on_an_unrecognized_byte() {
    let mut lexer = Lexer::new("@");
    assert!(Parser::try_new(&mut lexer).is_none());
    assert!(!lexer.can_scan());

    let mut lexer = Lexer::new("x @ y");
    assert!(Parser::try_new(&mut lexer).is_none());
    assert!(!lexer.can_scan());

    let mut lexer = Lexer::new("x y @");
    let parser = Parser::try_new(&mut lexer);
    assert!(parser.is_some());
    assert!(!parser.unwrap().can_advance());
}
