//! The tokenizer: a cursor over the bytes of a source text that hands out
//! one token for each call.

use crate::ascii::{
    ascii_bytes, ascii_string, ascii_text, is_digit, is_letter, is_whitespace, spec_is_digit,
    spec_is_letter, str_eq,
};
use crate::grammar::{
    byte_at, lemma_end_marker_repeats, lemma_scan_is_faithful, recognizes, run_end, scan,
    token_start, ByteClass,
};
use crate::token::Token;
use vstd::pervasive::unreached;
use vstd::prelude::*;
use vstd::slice::slice_subrange;
use vstd::string::{StrSliceExecFns, StringSliceAdditionalSpecFns};

verus! {

/// A tokenizer over one source text.
///
/// `position` is the index of the current byte, `read_position` the index of
/// the byte to read next, and `ch` the current byte, with 0 standing for the
/// end of input.
pub struct Lexer {
    input: Vec<u8>,
    position: usize,
    read_position: usize,
    ch: u8,
}

impl Lexer {
    /// The bytes of the source text.
    pub closed spec fn source(&self) -> Seq<u8> {
        self.input@
    }

    /// The index of the current byte: where the next scan starts.
    pub closed spec fn cursor(&self) -> int {
        self.position as int
    }

    /// The index of the byte to read next.
    pub closed spec fn read_cursor(&self) -> int {
        self.read_position as int
    }

    /// The current byte: the one under the cursor, or 0 at the end of input.
    pub closed spec fn current_byte(&self) -> u8 {
        self.ch
    }

    /// The invariant of the cursor: the current byte is the one under the
    /// cursor (the sentinel at the end of input), and the next byte to read
    /// is the one after it.
    pub closed spec fn well_formed(&self) -> bool {
        &&& self.input@.len() < usize::MAX
        &&& self.position <= self.input@.len()
        &&& self.read_position == self.position + 1
        &&& self.ch == byte_at(self.input@, self.position as int)
    }

    /// Whether the next scan meets a byte of the grammar, so that
    /// [`Lexer::next_token`] may be called.
    pub open spec fn recognizes_next(&self) -> bool {
        recognizes(self.source(), self.cursor())
    }

    /// What holds of the cursor between calls: it lies within the input or
    /// just at its end, the byte to read next is the one after it, and the
    /// current byte is the byte under it. In a source text without a NUL
    /// byte, the current byte is therefore 0 exactly where the byte to read
    /// next lies beyond the input.
    pub proof fn lemma_cursor_invariant(&self)
        requires
            self.well_formed(),
        ensures
            0 <= self.cursor() <= self.source().len(),
            self.read_cursor() == self.cursor() + 1,
            self.current_byte() == byte_at(self.source(), self.cursor()),
            (forall|i: int| 0 <= i < self.source().len() ==> self.source()[i] != 0) ==> (
            self.current_byte() == 0 <==> self.read_cursor() > self.source().len()),
    {
    }

    /// Creates a lexer instance from an input string
    ///
    /// The tokenizer takes the UTF-8 bytes of the string and stands on the
    /// first of them. The string must be shorter than `usize::MAX` bytes, so
    /// that the index after its end is still a `usize`.
    pub fn new(input_string: &str) -> (lexer: Self)
        requires
            input_string.spec_bytes().len() < usize::MAX,
        ensures
            lexer.well_formed(),
            lexer.source() == input_string.spec_bytes(),
            lexer.cursor() == 0,
    {
        let mut lexer = Lexer {
            input: input_string.as_bytes_vec(),
            position: 0,
            read_position: 0,
            ch: 0,
        };

        lexer.read_char();

        lexer
    }

    /// Whether the next token can be scanned: tells, without moving the
    /// cursor, whether the first byte after the whitespace at the cursor
    /// belongs to the grammar.
    pub fn can_scan(&self) -> (yes: bool)
        requires
            self.well_formed(),
        ensures
            yes == self.recognizes_next(),
    {
        let mut at = self.position;
        while at < self.input.len() && is_whitespace(self.input[at])
            invariant
                at <= self.input@.len(),
                token_start(self.input@, self.position as int) == token_start(
                    self.input@,
                    at as int,
                ),
            decreases self.input@.len() - at,
        {
            at += 1;
        }
        if at >= self.input.len() {
            true
        } else {
            let byte = self.input[at];
            byte == 0 || is_letter(byte) || is_digit(byte) || match byte as char {
                '=' | '+' | '-' | '!' | '*' | '/' | '<' | '>' => true,
                ',' | ';' | '(' | ')' | '{' | '}' => true,
                _ => false,
            }
        }
    }

    /// Returns the next token in the string
    ///
    /// The token is the one that a scan of the grammar yields at the cursor,
    /// and the cursor moves just past it. At the end of input the token is
    /// the end marker and the cursor stays, so that every later call yields
    /// the end marker again.
    ///
    /// There is no error value: a byte outside the grammar halts the
    /// tokenizer. The precondition leaves such input out, and
    /// [`Lexer::can_scan`] tests for it.
    pub fn next_token(&mut self) -> (token: Token)
        requires
            old(self).well_formed(),
            old(self).recognizes_next(),
        ensures
            final(self).well_formed(),
            final(self).source() == old(self).source(),
            token@ == scan(old(self).source(), old(self).cursor()).token,
            final(self).cursor() == scan(old(self).source(), old(self).cursor()).end,
            token@.well_formed(),
            ascii_bytes(token@.literal()) == old(self).source().subrange(
                token_start(old(self).source(), old(self).cursor()),
                final(self).cursor(),
            ),
            token@ is Eof ==> final(self).recognizes_next() && scan(
                final(self).source(),
                final(self).cursor(),
            ).token is Eof,
    {
        proof {
            lemma_scan_is_faithful(self.input@, self.position as int);
            if scan(self.input@, self.position as int).token is Eof {
                lemma_end_marker_repeats(self.input@, self.position as int);
            }
        }
        self.skip_whitespace();

        let token = match self.ch as char {
            '\0' => {
                // the end of input: the cursor stays where it is
                return Token::Eof;
            },
            'a'..='z' | 'A'..='Z' | '_' => {
                let identifier = self.read_identifier();

                // early return to not re-read_char
                return if str_eq(identifier.as_str(), "fn") {
                    Token::Function
                } else if str_eq(identifier.as_str(), "let") {
                    Token::Let
                } else if str_eq(identifier.as_str(), "true") {
                    Token::True
                } else if str_eq(identifier.as_str(), "false") {
                    Token::False
                } else if str_eq(identifier.as_str(), "if") {
                    Token::If
                } else if str_eq(identifier.as_str(), "else") {
                    Token::Else
                } else if str_eq(identifier.as_str(), "return") {
                    Token::Return
                } else {
                    Token::Ident(identifier)
                };
            },
            '0'..='9' => {
                // early return to not re-read_char
                return Token::Int(self.read_number());
            },
            '=' => {
                if self.peek_char() == '=' as u8 {
                    self.read_char();
                    Token::Equal
                } else {
                    Token::Assign
                }
            },
            '+' => Token::Plus,
            '-' => Token::Minus,
            ',' => Token::Comma,
            '!' => {
                if self.peek_char() == '=' as u8 {
                    self.read_char();
                    Token::NotEqual
                } else {
                    Token::Bang
                }
            },
            '*' => Token::Asterisk,
            '/' => Token::Slash,
            '<' => Token::LesserThan,
            '>' => Token::GreaterThan,
            ';' => Token::Semicolon,
            '(' => Token::LParen,
            ')' => Token::RParen,
            '{' => Token::LBrace,
            '}' => Token::RBrace,
            _ => unreached(),
        };

        self.read_char();
        token
    }

    /// Reads the next character in the input and updates the lexer
    fn read_char(&mut self)
        requires
            old(self).input@.len() < usize::MAX,
            old(self).read_position <= old(self).input@.len(),
        ensures
            final(self).input@ == old(self).input@,
            final(self).position == old(self).read_position,
            final(self).read_position == old(self).read_position + 1,
            final(self).ch == byte_at(old(self).input@, old(self).read_position as int),
    {
        if self.read_position >= self.input.len() {
            self.ch = 0;
        } else {
            self.ch = self.input[self.read_position];
        }

        self.position = self.read_position;
        self.read_position += 1;
    }

    /// Peeks at the next character without advancing the lexer
    fn peek_char(&self) -> (byte: u8)
        ensures
            byte == byte_at(self.input@, self.read_position as int),
    {
        if self.read_position >= self.input.len() {
            0
        } else {
            self.input[self.read_position]
        }
    }

    /// Reads the whole identifier: the maximal run of letters and
    /// underscores at the cursor, which is left on the byte after the run.
    fn read_identifier(&mut self) -> (identifier: String)
        requires
            old(self).well_formed(),
        ensures
            final(self).well_formed(),
            final(self).input@ == old(self).input@,
            final(self).position == run_end(
                old(self).input@,
                old(self).position as int,
                ByteClass::Letter,
            ),
            identifier@ == ascii_text(
                old(self).input@.subrange(old(self).position as int, final(self).position as int),
            ),
    {
        let start_pos = self.position;

        while is_letter(self.ch)
            invariant
                self.well_formed(),
                self.input@ == old(self).input@,
                start_pos <= self.position,
                forall|i: int| start_pos <= i < self.position ==> spec_is_letter(self.input@[i]),
                run_end(self.input@, start_pos as int, ByteClass::Letter) == run_end(
                    self.input@,
                    self.position as int,
                    ByteClass::Letter,
                ),
            decreases self.input@.len() - self.position,
        {
            self.read_char()
        }

        ascii_string(slice_subrange(self.input.as_slice(), start_pos, self.position))
    }

    /// Reads the whole number: the maximal run of digits at the cursor,
    /// which is left on the byte after the run.
    fn read_number(&mut self) -> (number: String)
        requires
            old(self).well_formed(),
        ensures
            final(self).well_formed(),
            final(self).input@ == old(self).input@,
            final(self).position == run_end(
                old(self).input@,
                old(self).position as int,
                ByteClass::Digit,
            ),
            number@ == ascii_text(
                old(self).input@.subrange(old(self).position as int, final(self).position as int),
            ),
    {
        let start_pos = self.position;

        while is_digit(self.ch)
            invariant
                self.well_formed(),
                self.input@ == old(self).input@,
                start_pos <= self.position,
                forall|i: int| start_pos <= i < self.position ==> spec_is_digit(self.input@[i]),
                run_end(self.input@, start_pos as int, ByteClass::Digit) == run_end(
                    self.input@,
                    self.position as int,
                    ByteClass::Digit,
                ),
            decreases self.input@.len() - self.position,
        {
            self.read_char();
        }

        ascii_string(slice_subrange(self.input.as_slice(), start_pos, self.position))
    }

    /// Skips whitespace: moves the cursor to the first byte at or after it
    /// that is no whitespace.
    fn skip_whitespace(&mut self)
        requires
            old(self).well_formed(),
        ensures
            final(self).well_formed(),
            final(self).input@ == old(self).input@,
            final(self).position == token_start(old(self).input@, old(self).position as int),
    {
        while is_whitespace(self.ch)
            invariant
                self.well_formed(),
                self.input@ == old(self).input@,
                token_start(self.input@, old(self).position as int) == token_start(
                    self.input@,
                    self.position as int,
                ),
            decreases self.input@.len() - self.position,
        {
            self.read_char();
        }
    }
}

} // verus!
