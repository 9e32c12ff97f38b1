//! The lexical grammar, stated over byte sequences: what one scan yields at a
//! position, and the token stream that repeated scans produce.

use crate::ascii::{
    ascii_bytes, ascii_text, lemma_ascii_bytes_are_utf8, spec_is_digit, spec_is_letter,
    spec_is_whitespace,
};
use crate::token::{lemma_keywords_are_exact, lemma_spellings, TokenView};
use vstd::prelude::*;
use vstd::utf8::is_ascii_chars;

verus! {

/// The three classes of bytes that the grammar takes in maximal runs.
pub enum ByteClass {
    Whitespace,
    Letter,
    Digit,
}

impl ByteClass {
    pub open spec fn contains(self, byte: u8) -> bool {
        match self {
            ByteClass::Whitespace => spec_is_whitespace(byte),
            ByteClass::Letter => spec_is_letter(byte),
            ByteClass::Digit => spec_is_digit(byte),
        }
    }
}

/// The byte at an index, and 0 at every index outside the input: the
/// sentinel that stands for the end of input.
pub open spec fn byte_at(input: Seq<u8>, at: int) -> u8 {
    if 0 <= at < input.len() {
        input[at]
    } else {
        0
    }
}

/// Where the maximal run of bytes of one class that starts at `from` ends:
/// the first index at or after `from` whose byte is outside the class.
pub open spec fn run_end(input: Seq<u8>, from: int, class: ByteClass) -> int
    decreases input.len() - from,
{
    if 0 <= from < input.len() && class.contains(input[from]) {
        run_end(input, from + 1, class)
    } else {
        from
    }
}

/// The token of a byte that is a token by itself, and the illegal marker for
/// every other byte.
pub open spec fn symbol(byte: u8) -> TokenView {
    if byte == '=' as u8 {
        TokenView::Assign
    } else if byte == '+' as u8 {
        TokenView::Plus
    } else if byte == '-' as u8 {
        TokenView::Minus
    } else if byte == '!' as u8 {
        TokenView::Bang
    } else if byte == '*' as u8 {
        TokenView::Asterisk
    } else if byte == '/' as u8 {
        TokenView::Slash
    } else if byte == '<' as u8 {
        TokenView::LesserThan
    } else if byte == '>' as u8 {
        TokenView::GreaterThan
    } else if byte == ',' as u8 {
        TokenView::Comma
    } else if byte == ';' as u8 {
        TokenView::Semicolon
    } else if byte == '(' as u8 {
        TokenView::LParen
    } else if byte == ')' as u8 {
        TokenView::RParen
    } else if byte == '{' as u8 {
        TokenView::LBrace
    } else if byte == '}' as u8 {
        TokenView::RBrace
    } else {
        TokenView::Illegal
    }
}

/// The bytes with which a token may start, and the end sentinel.
pub open spec fn is_recognized(byte: u8) -> bool {
    byte == 0 || spec_is_letter(byte) || spec_is_digit(byte) || !(symbol(byte) is Illegal)
}

/// The outcome of one scan: the token, and the index just after it.
pub struct Scan {
    pub token: TokenView,
    pub end: int,
}

/// Where the token sought from `from` starts: after the whitespace there.
pub open spec fn token_start(input: Seq<u8>, from: int) -> int {
    run_end(input, from, ByteClass::Whitespace)
}

/// Whether a scan from `from` meets a byte of the grammar. The tokenizer
/// works only where this holds.
pub open spec fn recognizes(input: Seq<u8>, from: int) -> bool {
    is_recognized(byte_at(input, token_start(input, from)))
}

/// One scan from `from`: whitespace is passed over, then the longest token
/// that starts there is taken. A word is the maximal run of letters and
/// underscores, a number the maximal run of digits; `=` and `!` join with a
/// directly following `=`; every other symbol is one byte. At the end
/// sentinel the scan yields the end marker and stays where it is.
pub open spec fn scan(input: Seq<u8>, from: int) -> Scan {
    let start = token_start(input, from);
    let byte = byte_at(input, start);
    if byte == 0 {
        Scan { token: TokenView::Eof, end: start }
    } else if spec_is_letter(byte) {
        let end = run_end(input, start, ByteClass::Letter);
        Scan { token: TokenView::word(ascii_text(input.subrange(start, end))), end }
    } else if spec_is_digit(byte) {
        let end = run_end(input, start, ByteClass::Digit);
        Scan { token: TokenView::Int(ascii_text(input.subrange(start, end))), end }
    } else if byte == '=' as u8 && byte_at(input, start + 1) == '=' as u8 {
        Scan { token: TokenView::Equal, end: start + 2 }
    } else if byte == '!' as u8 && byte_at(input, start + 1) == '=' as u8 {
        Scan { token: TokenView::NotEqual, end: start + 2 }
    } else {
        Scan { token: symbol(byte), end: start + 1 }
    }
}

/// A run ends within the input, holds only bytes of its class, and cannot be
/// extended: the byte after it is outside the class.
pub proof fn lemma_run_end(input: Seq<u8>, from: int, class: ByteClass)
    requires
        0 <= from <= input.len(),
    ensures
        from <= run_end(input, from, class) <= input.len(),
        forall|i: int| from <= i < run_end(input, from, class) ==> class.contains(input[i]),
        !class.contains(byte_at(input, run_end(input, from, class))),
    decreases input.len() - from,
{
    if from < input.len() && class.contains(input[from]) {
        lemma_run_end(input, from + 1, class);
    }
}

/// The end of a run is the only index with the three properties of
/// [`lemma_run_end`].
pub proof fn lemma_run_end_is_unique(input: Seq<u8>, from: int, class: ByteClass, end: int)
    requires
        0 <= from <= end <= input.len(),
        forall|i: int| from <= i < end ==> class.contains(input[i]),
        !class.contains(byte_at(input, end)),
    ensures
        run_end(input, from, class) == end,
    decreases end - from,
{
    if from < end {
        lemma_run_end_is_unique(input, from + 1, class, end);
    }
}

/// A scan never moves backwards, ends within the input, and consumes at
/// least one byte unless it yields the end marker.
pub proof fn lemma_scan_advances(input: Seq<u8>, from: int)
    requires
        0 <= from <= input.len(),
    ensures
        from <= token_start(input, from) <= scan(input, from).end <= input.len(),
        !(scan(input, from).token is Eof) ==> token_start(input, from) < scan(input, from).end,
        scan(input, from).token is Eof <==> byte_at(input, token_start(input, from)) == 0,
{
    lemma_run_end(input, from, ByteClass::Whitespace);
    let start = token_start(input, from);
    lemma_run_end(input, start, ByteClass::Letter);
    lemma_run_end(input, start, ByteClass::Digit);
}

/// The longest match wins: a word takes every letter and underscore up to
/// the first byte that is neither, and a number every digit up to the first
/// byte that is none.
pub proof fn lemma_longest_match(input: Seq<u8>, from: int)
    requires
        0 <= from <= input.len(),
    ensures
        ({
            let start = token_start(input, from);
            let end = scan(input, from).end;
            &&& spec_is_letter(byte_at(input, start)) ==> !spec_is_letter(byte_at(input, end))
                && forall|i: int| start <= i < end ==> spec_is_letter(input[i])
            &&& spec_is_digit(byte_at(input, start)) ==> !spec_is_digit(byte_at(input, end))
                && forall|i: int| start <= i < end ==> spec_is_digit(input[i])
        }),
{
    lemma_run_end(input, from, ByteClass::Whitespace);
    let start = token_start(input, from);
    lemma_run_end(input, start, ByteClass::Letter);
    lemma_run_end(input, start, ByteClass::Digit);
}

/// A scan is faithful to the source: the token it yields is well formed, and
/// the literal of the token is, byte for byte, what the scan consumed after
/// the whitespace. Payloads are thus never empty, always ASCII, and drawn
/// contiguously from the input.
pub proof fn lemma_scan_is_faithful(input: Seq<u8>, from: int)
    requires
        0 <= from <= input.len(),
        recognizes(input, from),
    ensures
        scan(input, from).token.well_formed(),
        is_ascii_chars(scan(input, from).token.literal()),
        ascii_bytes(scan(input, from).token.literal()) == input.subrange(
            token_start(input, from),
            scan(input, from).end,
        ),
{
    let start = token_start(input, from);
    let byte = byte_at(input, start);
    lemma_scan_advances(input, from);
    lemma_spellings();
    if spec_is_letter(byte) || spec_is_digit(byte) {
        // a word or a number: the run is ASCII, and spells the payload
        let consumed = input.subrange(start, scan(input, from).end);
        lemma_run_end(input, start, ByteClass::Letter);
        lemma_run_end(input, start, ByteClass::Digit);
        lemma_ascii_bytes_are_utf8(consumed);
        lemma_keywords_are_exact(ascii_text(consumed));
    }
}

/// Once a scan has yielded the end marker, every later scan yields it again
/// and stays at the same place: the end of the token stream is final.
pub proof fn lemma_end_marker_repeats(input: Seq<u8>, from: int)
    requires
        scan(input, from).token is Eof,
    ensures
        recognizes(input, from),
        recognizes(input, scan(input, from).end),
        scan(input, scan(input, from).end) == scan(input, from),
{
}

/// Two bytes make one token only as `==` and as `!=`. An `=` or a `!` that
/// no `=` follows directly is a token by itself, as every other symbol is,
/// and no scan of a recognized byte yields the illegal marker.
pub proof fn lemma_two_byte_tokens(input: Seq<u8>, from: int)
    requires
        recognizes(input, from),
    ensures
        ({
            let start = token_start(input, from);
            let first = byte_at(input, start);
            let second = byte_at(input, start + 1);
            let next = scan(input, from);
            &&& !(next.token is Illegal)
            &&& next.token is Equal <==> first == '=' as u8 && second == '=' as u8
            &&& next.token is NotEqual <==> first == '!' as u8 && second == '=' as u8
            &&& next.token is Assign <==> first == '=' as u8 && second != '=' as u8
            &&& next.token is Bang <==> first == '!' as u8 && second != '=' as u8
            &&& next.token is Equal || next.token is NotEqual ==> next.end == start + 2
            &&& !(symbol(first) is Illegal) && !(next.token is Equal) && !(next.token is NotEqual)
                ==> next.token == symbol(first) && next.end == start + 1
        }),
{
}

/// The tokens that repeated scans yield from `from` on, up to the end marker
/// or to the first byte outside the grammar, whichever comes first.
pub open spec fn tokens(input: Seq<u8>, from: int) -> Seq<TokenView>
    decreases input.len() - from,
    when 0 <= from <= input.len()
    via tokens_decreases
{
    let next = scan(input, from);
    if !recognizes(input, from) || next.token is Eof {
        Seq::empty()
    } else {
        seq![next.token] + tokens(input, next.end)
    }
}

#[via_fn]
proof fn tokens_decreases(input: Seq<u8>, from: int) {
    lemma_scan_advances(input, from);
}

/// Whether every scan from `from` on, up to the end marker, meets a byte of
/// the grammar: the inputs that the tokenizer takes to their end.
pub open spec fn lexable(input: Seq<u8>, from: int) -> bool
    decreases input.len() - from,
    when 0 <= from <= input.len()
    via lexable_decreases
{
    let next = scan(input, from);
    recognizes(input, from) && (next.token is Eof || lexable(input, next.end))
}

#[via_fn]
proof fn lexable_decreases(input: Seq<u8>, from: int) {
    lemma_scan_advances(input, from);
}

} // verus!
