//! The parser's lookahead window: the current token and the one after it,
//! drawn from a tokenizer in lock-step.

use crate::grammar::{recognizes, scan};
use crate::lexer::Lexer;
use crate::token::{Token, TokenView};
use vstd::prelude::*;

verus! {

/// A two-token window over the stream of one tokenizer.
pub struct Parser<'a> {
    lexer: &'a mut Lexer,
    cur_token: Token,
    peek_token: Token,
}

impl<'a> Parser<'a> {
    /// The tokenizer as it stands now.
    pub closed spec fn lexer(&self) -> Lexer {
        *self.lexer
    }

    /// The current token.
    pub closed spec fn current(&self) -> TokenView {
        self.cur_token@
    }

    /// The token after the current one.
    pub closed spec fn peek(&self) -> TokenView {
        self.peek_token@
    }

    /// The window shows the two tokens that scans from `from` yield, and the
    /// tokenizer stands just after the second.
    pub open spec fn window_at(&self, from: int) -> bool {
        let source = self.lexer().source();
        let first = scan(source, from);
        let second = scan(source, first.end);
        &&& self.current() == first.token
        &&& self.peek() == second.token
        &&& self.lexer().cursor() == second.end
    }

    /// Takes the first two tokens of the stream into the window, by
    /// advancing twice.
    ///
    /// The tokenizer must recognize both tokens, since it halts on a byte
    /// outside the grammar; [`Parser::try_new`] asks for nothing of the kind.
    pub fn new(lexer: &'a mut Lexer) -> (parser: Self)
        requires
            old(lexer).well_formed(),
            old(lexer).recognizes_next(),
            recognizes(old(lexer).source(), scan(old(lexer).source(), old(lexer).cursor()).end),
        ensures
            parser.lexer().well_formed(),
            parser.lexer().source() == old(lexer).source(),
            parser.window_at(old(lexer).cursor()),
    {
        let mut parser = Parser { lexer, cur_token: Token::Illegal, peek_token: Token::Illegal };

        parser.next_token();
        parser.next_token();

        parser
    }

    /// Takes the first two tokens of the stream into the window, where the
    /// tokenizer recognizes both. Where it does not, there is no parser, and
    /// the tokenizer stands where the scan that failed would have started.
    pub fn try_new(lexer: &'a mut Lexer) -> (parser: Option<Self>)
        requires
            old(lexer).well_formed(),
        ensures
            parser is Some <==> old(lexer).recognizes_next() && recognizes(
                old(lexer).source(),
                scan(old(lexer).source(), old(lexer).cursor()).end,
            ),
            parser matches Some(window) ==> {
                &&& window.lexer().well_formed()
                &&& window.lexer().source() == old(lexer).source()
                &&& window.window_at(old(lexer).cursor())
            },
            parser is None ==> {
                &&& final(lexer).well_formed()
                &&& final(lexer).source() == old(lexer).source()
                &&& final(lexer).cursor() == if old(lexer).recognizes_next() {
                    scan(old(lexer).source(), old(lexer).cursor()).end
                } else {
                    old(lexer).cursor()
                }
            },
    {
        if !lexer.can_scan() {
            return None;
        }
        let cur_token = lexer.next_token();
        if !lexer.can_scan() {
            return None;
        }
        let peek_token = lexer.next_token();
        Some(Parser { lexer, cur_token, peek_token })
    }

    /// Whether the window can advance: whether the tokenizer recognizes
    /// what comes next.
    pub fn can_advance(&self) -> (yes: bool)
        requires
            self.lexer().well_formed(),
        ensures
            yes == self.lexer().recognizes_next(),
    {
        self.lexer.can_scan()
    }

    /// Advances the window: the token after the current one becomes the
    /// current one, and the next token of the stream takes its place. A
    /// window that showed the tokens from some index on then shows the
    /// tokens from the end of the first of them on; past the end of input
    /// both are the end marker.
    ///
    /// The tokenizer must recognize the token that comes in, which
    /// [`Parser::can_advance`] tests.
    pub fn next_token(&mut self)
        requires
            old(self).lexer().well_formed(),
            old(self).lexer().recognizes_next(),
        ensures
            final(self).lexer().well_formed(),
            final(self).lexer().source() == old(self).lexer().source(),
            final(self).current() == old(self).peek(),
            final(self).peek() == scan(
                old(self).lexer().source(),
                old(self).lexer().cursor(),
            ).token,
            final(self).lexer().cursor() == scan(
                old(self).lexer().source(),
                old(self).lexer().cursor(),
            ).end,
            forall|from: int| #[trigger]
                old(self).window_at(from) ==> final(self).window_at(
                    scan(old(self).lexer().source(), from).end,
                ),
    {
        // peek_token goes into cur_token and peek_token gets a new value
        std::mem::swap(&mut self.cur_token, &mut self.peek_token);
        self.peek_token = self.lexer.next_token();
    }

    /// The current token.
    pub fn cur_token(&self) -> (token: &Token)
        ensures
            token@ == self.current(),
    {
        &self.cur_token
    }

    /// The token after the current one.
    pub fn peek_token(&self) -> (token: &Token)
        ensures
            token@ == self.peek(),
    {
        &self.peek_token
    }
}

} // verus!
