//! The token model: a closed set of lexical categories, two of which carry
//! the text they were scanned from.

use crate::ascii::{is_number, is_word};
use vstd::prelude::*;
use vstd::std_specs::cmp::PartialEqSpecImpl;

verus! {

/// One lexical unit of source text.
#[derive(Debug, Hash)]
pub enum Token {
    Illegal,
    Eof,
    // Identifiers and literals
    Ident(String),
    Int(String),
    // Operators
    Assign,
    Plus,
    Minus,
    Bang,
    Asterisk,
    Slash,
    LesserThan,
    GreaterThan,
    Equal,
    NotEqual,
    // Delimiters
    Comma,
    Semicolon,
    LParen,
    RParen,
    LBrace,
    RBrace,
    // Keywords
    Function,
    Let,
    True,
    False,
    If,
    Else,
    Return,
}

/// The mathematical value of a [`Token`]: the same categories, with the
/// payloads as character sequences.
pub enum TokenView {
    Illegal,
    Eof,
    Ident(Seq<char>),
    Int(Seq<char>),
    Assign,
    Plus,
    Minus,
    Bang,
    Asterisk,
    Slash,
    LesserThan,
    GreaterThan,
    Equal,
    NotEqual,
    Comma,
    Semicolon,
    LParen,
    RParen,
    LBrace,
    RBrace,
    Function,
    Let,
    True,
    False,
    If,
    Else,
    Return,
}

impl View for Token {
    type V = TokenView;

    open spec fn view(&self) -> TokenView {
        match self {
            Token::Illegal => TokenView::Illegal,
            Token::Eof => TokenView::Eof,
            Token::Ident(name) => TokenView::Ident(name@),
            Token::Int(digits) => TokenView::Int(digits@),
            Token::Assign => TokenView::Assign,
            Token::Plus => TokenView::Plus,
            Token::Minus => TokenView::Minus,
            Token::Bang => TokenView::Bang,
            Token::Asterisk => TokenView::Asterisk,
            Token::Slash => TokenView::Slash,
            Token::LesserThan => TokenView::LesserThan,
            Token::GreaterThan => TokenView::GreaterThan,
            Token::Equal => TokenView::Equal,
            Token::NotEqual => TokenView::NotEqual,
            Token::Comma => TokenView::Comma,
            Token::Semicolon => TokenView::Semicolon,
            Token::LParen => TokenView::LParen,
            Token::RParen => TokenView::RParen,
            Token::LBrace => TokenView::LBrace,
            Token::RBrace => TokenView::RBrace,
            Token::Function => TokenView::Function,
            Token::Let => TokenView::Let,
            Token::True => TokenView::True,
            Token::False => TokenView::False,
            Token::If => TokenView::If,
            Token::Else => TokenView::Else,
            Token::Return => TokenView::Return,
        }
    }
}

impl TokenView {
    /// The token that a scanned word stands for: the keyword with exactly
    /// that spelling, or else an identifier carrying the word.
    pub open spec fn word(text: Seq<char>) -> TokenView {
        if text == "fn"@ {
            TokenView::Function
        } else if text == "let"@ {
            TokenView::Let
        } else if text == "true"@ {
            TokenView::True
        } else if text == "false"@ {
            TokenView::False
        } else if text == "if"@ {
            TokenView::If
        } else if text == "else"@ {
            TokenView::Else
        } else if text == "return"@ {
            TokenView::Return
        } else {
            TokenView::Ident(text)
        }
    }

    /// One of the seven keywords.
    pub open spec fn is_keyword(self) -> bool {
        self is Function || self is Let || self is True || self is False || self is If
            || self is Else || self is Return
    }

    /// The invariant of the tokens that a tokenizer hands out: the payload
    /// of an identifier is a word that spells no keyword, the payload of an
    /// integer is a number, and the illegal marker does not occur.
    pub open spec fn well_formed(self) -> bool {
        match self {
            TokenView::Illegal => false,
            TokenView::Ident(name) => is_word(name) && TokenView::word(name) == self,
            TokenView::Int(digits) => is_number(digits),
            _ => true,
        }
    }

    /// The canonical source text: the payload of an identifier or an
    /// integer, the fixed spelling of a symbol or a keyword, nothing for the
    /// end marker, and a placeholder for the illegal marker.
    pub open spec fn literal(self) -> Seq<char> {
        match self {
            TokenView::Illegal => "Illegal"@,
            TokenView::Eof => Seq::empty(),
            TokenView::Ident(name) => name,
            TokenView::Int(digits) => digits,
            TokenView::Assign => "="@,
            TokenView::Plus => "+"@,
            TokenView::Minus => "-"@,
            TokenView::Bang => "!"@,
            TokenView::Asterisk => "*"@,
            TokenView::Slash => "/"@,
            TokenView::LesserThan => "<"@,
            TokenView::GreaterThan => ">"@,
            TokenView::Equal => "=="@,
            TokenView::NotEqual => "!="@,
            TokenView::Comma => ","@,
            TokenView::Semicolon => ";"@,
            TokenView::LParen => "("@,
            TokenView::RParen => ")"@,
            TokenView::LBrace => "{"@,
            TokenView::RBrace => "}"@,
            TokenView::Function => "fn"@,
            TokenView::Let => "let"@,
            TokenView::True => "true"@,
            TokenView::False => "false"@,
            TokenView::If => "if"@,
            TokenView::Else => "else"@,
            TokenView::Return => "return"@,
        }
    }

    /// The name under which the token is shown to a reader, with the payload
    /// in parentheses where there is one.
    pub open spec fn display_form(self) -> Seq<char> {
        match self {
            TokenView::Illegal => "Illegal"@,
            TokenView::Eof => "Eof"@,
            TokenView::Ident(name) => "Ident("@ + name + ")"@,
            TokenView::Int(digits) => "Int("@ + digits + ")"@,
            TokenView::Assign => "Assign"@,
            TokenView::Plus => "Plus"@,
            TokenView::Minus => "Minus"@,
            TokenView::Bang => "Bang"@,
            TokenView::Asterisk => "Asterisk"@,
            TokenView::Slash => "Slash"@,
            TokenView::LesserThan => "Lesserthan"@,
            TokenView::GreaterThan => "Greaterthan"@,
            TokenView::Equal => "Equal"@,
            TokenView::NotEqual => "NotEqual"@,
            TokenView::Comma => "Comma"@,
            TokenView::Semicolon => "Semicolon"@,
            TokenView::LParen => "Lparen"@,
            TokenView::RParen => "Rparen"@,
            TokenView::LBrace => "LSquirly"@,
            TokenView::RBrace => "RSquirly"@,
            TokenView::Function => "Function"@,
            TokenView::Let => "Let"@,
            TokenView::True => "True"@,
            TokenView::False => "False"@,
            TokenView::If => "If"@,
            TokenView::Else => "Else"@,
            TokenView::Return => "Return"@,
        }
    }
}

/// The spellings of the symbols and of the keywords, character by character.
pub proof fn lemma_spellings()
    ensures
        "="@ == seq!['='],
        "+"@ == seq!['+'],
        "-"@ == seq!['-'],
        "!"@ == seq!['!'],
        "*"@ == seq!['*'],
        "/"@ == seq!['/'],
        "<"@ == seq!['<'],
        ">"@ == seq!['>'],
        "=="@ == seq!['=', '='],
        "!="@ == seq!['!', '='],
        ","@ == seq![','],
        ";"@ == seq![';'],
        "("@ == seq!['('],
        ")"@ == seq![')'],
        "{"@ == seq!['{'],
        "}"@ == seq!['}'],
        "fn"@ == seq!['f', 'n'],
        "let"@ == seq!['l', 'e', 't'],
        "true"@ == seq!['t', 'r', 'u', 'e'],
        "false"@ == seq!['f', 'a', 'l', 's', 'e'],
        "if"@ == seq!['i', 'f'],
        "else"@ == seq!['e', 'l', 's', 'e'],
        "return"@ == seq!['r', 'e', 't', 'u', 'r', 'n'],
{
    reveal_strlit("=");
    reveal_strlit("+");
    reveal_strlit("-");
    reveal_strlit("!");
    reveal_strlit("*");
    reveal_strlit("/");
    reveal_strlit("<");
    reveal_strlit(">");
    reveal_strlit("==");
    reveal_strlit("!=");
    reveal_strlit(",");
    reveal_strlit(";");
    reveal_strlit("(");
    reveal_strlit(")");
    reveal_strlit("{");
    reveal_strlit("}");
    reveal_strlit("fn");
    reveal_strlit("let");
    reveal_strlit("true");
    reveal_strlit("false");
    reveal_strlit("if");
    reveal_strlit("else");
    reveal_strlit("return");
}

/// Keyword recognition is exact: a word is a keyword only where it is that
/// keyword's spelling, character for character, and the keyword then spells
/// back to the word; every other word is an identifier that carries it.
pub proof fn lemma_keywords_are_exact(text: Seq<char>)
    ensures
        TokenView::word(text).is_keyword() <==> (text == "fn"@ || text == "let"@ || text == "true"@
            || text == "false"@ || text == "if"@ || text == "else"@ || text == "return"@),
        TokenView::word(text).is_keyword() ==> TokenView::word(text).literal() == text,
        !TokenView::word(text).is_keyword() ==> TokenView::word(text) == TokenView::Ident(text),
{
}

/// The spelling of each keyword is recognized as that keyword, and as no
/// other.
pub proof fn lemma_keyword_spelling_is_keyword(keyword: TokenView)
    requires
        keyword.is_keyword(),
    ensures
        TokenView::word(keyword.literal()) == keyword,
{
    lemma_spellings();
}

/// A word that merely starts with a keyword is an identifier: a keyword
/// followed by at least one more character is never a keyword.
pub proof fn lemma_keyword_prefix_is_identifier(keyword: TokenView, rest: Seq<char>)
    requires
        keyword.is_keyword(),
        rest.len() > 0,
    ensures
        TokenView::word(keyword.literal() + rest) == TokenView::Ident(keyword.literal() + rest),
{
    lemma_spellings();
    let word = keyword.literal() + rest;
    assert(word[0] == keyword.literal()[0]);
    assert(word[1] == keyword.literal()[1]);
}

impl Token {
    /// The canonical source text of the token.
    pub fn literal(&self) -> (text: String)
        ensures
            text@ == self@.literal(),
    {
        match self {
            Token::Illegal => "Illegal".to_string(),
            Token::Eof => String::new(),
            Token::Ident(name) => name.clone(),
            Token::Int(digits) => digits.clone(),
            Token::Assign => "=".to_string(),
            Token::Plus => "+".to_string(),
            Token::Minus => "-".to_string(),
            Token::Bang => "!".to_string(),
            Token::Asterisk => "*".to_string(),
            Token::Slash => "/".to_string(),
            Token::LesserThan => "<".to_string(),
            Token::GreaterThan => ">".to_string(),
            Token::Equal => "==".to_string(),
            Token::NotEqual => "!=".to_string(),
            Token::Comma => ",".to_string(),
            Token::Semicolon => ";".to_string(),
            Token::LParen => "(".to_string(),
            Token::RParen => ")".to_string(),
            Token::LBrace => "{".to_string(),
            Token::RBrace => "}".to_string(),
            Token::Function => "fn".to_string(),
            Token::Let => "let".to_string(),
            Token::True => "true".to_string(),
            Token::False => "false".to_string(),
            Token::If => "if".to_string(),
            Token::Else => "else".to_string(),
            Token::Return => "return".to_string(),
        }
    }

    /// The token as it is shown to a reader: its name, and the payload in
    /// parentheses where there is one.
    pub fn display_form(&self) -> (text: String)
        ensures
            text@ == self@.display_form(),
    {
        match self {
            Token::Illegal => "Illegal".to_string(),
            Token::Eof => "Eof".to_string(),
            Token::Ident(name) => {
                let mut text = "Ident(".to_string();
                text.append(name.as_str());
                text.append(")");
                text
            },
            Token::Int(digits) => {
                let mut text = "Int(".to_string();
                text.append(digits.as_str());
                text.append(")");
                text
            },
            Token::Assign => "Assign".to_string(),
            Token::Plus => "Plus".to_string(),
            Token::Minus => "Minus".to_string(),
            Token::Bang => "Bang".to_string(),
            Token::Asterisk => "Asterisk".to_string(),
            Token::Slash => "Slash".to_string(),
            Token::LesserThan => "Lesserthan".to_string(),
            Token::GreaterThan => "Greaterthan".to_string(),
            Token::Equal => "Equal".to_string(),
            Token::NotEqual => "NotEqual".to_string(),
            Token::Comma => "Comma".to_string(),
            Token::Semicolon => "Semicolon".to_string(),
            Token::LParen => "Lparen".to_string(),
            Token::RParen => "Rparen".to_string(),
            Token::LBrace => "LSquirly".to_string(),
            Token::RBrace => "RSquirly".to_string(),
            Token::Function => "Function".to_string(),
            Token::Let => "Let".to_string(),
            Token::True => "True".to_string(),
            Token::False => "False".to_string(),
            Token::If => "If".to_string(),
            Token::Else => "Else".to_string(),
            Token::Return => "Return".to_string(),
        }
    }
}

impl Clone for Token {
    fn clone(&self) -> (copy: Self)
        ensures
            copy@ == self@,
    {
        match self {
            Token::Illegal => Token::Illegal,
            Token::Eof => Token::Eof,
            Token::Ident(name) => Token::Ident(name.clone()),
            Token::Int(digits) => Token::Int(digits.clone()),
            Token::Assign => Token::Assign,
            Token::Plus => Token::Plus,
            Token::Minus => Token::Minus,
            Token::Bang => Token::Bang,
            Token::Asterisk => Token::Asterisk,
            Token::Slash => Token::Slash,
            Token::LesserThan => Token::LesserThan,
            Token::GreaterThan => Token::GreaterThan,
            Token::Equal => Token::Equal,
            Token::NotEqual => Token::NotEqual,
            Token::Comma => Token::Comma,
            Token::Semicolon => Token::Semicolon,
            Token::LParen => Token::LParen,
            Token::RParen => Token::RParen,
            Token::LBrace => Token::LBrace,
            Token::RBrace => Token::RBrace,
            Token::Function => Token::Function,
            Token::Let => Token::Let,
            Token::True => Token::True,
            Token::False => Token::False,
            Token::If => Token::If,
            Token::Else => Token::Else,
            Token::Return => Token::Return,
        }
    }
}

impl PartialEq for Token {
    /// Structural equality: the same category and, where there is a
    /// payload, the same text.
    fn eq(&self, other: &Self) -> (equal: bool) {
        match self {
            Token::Illegal => matches!(other, Token::Illegal),
            Token::Eof => matches!(other, Token::Eof),
            Token::Ident(name) => match other {
                Token::Ident(other_name) => *name == *other_name,
                _ => false,
            },
            Token::Int(digits) => match other {
                Token::Int(other_digits) => *digits == *other_digits,
                _ => false,
            },
            Token::Assign => matches!(other, Token::Assign),
            Token::Plus => matches!(other, Token::Plus),
            Token::Minus => matches!(other, Token::Minus),
            Token::Bang => matches!(other, Token::Bang),
            Token::Asterisk => matches!(other, Token::Asterisk),
            Token::Slash => matches!(other, Token::Slash),
            Token::LesserThan => matches!(other, Token::LesserThan),
            Token::GreaterThan => matches!(other, Token::GreaterThan),
            Token::Equal => matches!(other, Token::Equal),
            Token::NotEqual => matches!(other, Token::NotEqual),
            Token::Comma => matches!(other, Token::Comma),
            Token::Semicolon => matches!(other, Token::Semicolon),
            Token::LParen => matches!(other, Token::LParen),
            Token::RParen => matches!(other, Token::RParen),
            Token::LBrace => matches!(other, Token::LBrace),
            Token::RBrace => matches!(other, Token::RBrace),
            Token::Function => matches!(other, Token::Function),
            Token::Let => matches!(other, Token::Let),
            Token::True => matches!(other, Token::True),
            Token::False => matches!(other, Token::False),
            Token::If => matches!(other, Token::If),
            Token::Else => matches!(other, Token::Else),
            Token::Return => matches!(other, Token::Return),
        }
    }
}

impl PartialEqSpecImpl for Token {
    open spec fn obeys_eq_spec() -> bool {
        true
    }

    open spec fn eq_spec(&self, other: &Self) -> bool {
        self@ == other@
    }
}

impl Eq for Token {}

} // verus!
