//! The round trip of the lexical layer: the literals of a token stream,
//! written out with single spaces between them, scan back to the same stream.

use crate::ascii::{ascii_bytes, ascii_text, lemma_ascii_text_encoding};
use crate::grammar::{
    lemma_run_end, lemma_run_end_is_unique, lemma_scan_advances, lemma_scan_is_faithful, lexable,
    recognizes, run_end, scan, token_start, tokens, ByteClass, Scan,
};
use crate::token::{lemma_spellings, TokenView};
use vstd::prelude::*;
use vstd::utf8::{encode_utf8, is_ascii_chars};

verus! {

/// The literals of the tokens, in order, with one space between neighbours.
pub open spec fn render(stream: Seq<TokenView>) -> Seq<char>
    decreases stream.len(),
{
    if stream.len() == 0 {
        Seq::empty()
    } else if stream.len() == 1 {
        stream[0].literal()
    } else {
        stream[0].literal() + seq![' '] + render(stream.drop_first())
    }
}

/// Every token of the stream is well formed and none is the end marker: the
/// streams that a tokenizer yields before the end of its input.
pub open spec fn is_token_stream(stream: Seq<TokenView>) -> bool {
    forall|i: int|
        0 <= i < stream.len() ==> (#[trigger] stream[i]).well_formed() && !(stream[i] is Eof)
}

/// Runs do not look behind them: the end of a run in a suffix of the input
/// is the end of the same run in the whole input.
proof fn lemma_run_end_in_suffix(prefix: Seq<u8>, rest: Seq<u8>, from: int, class: ByteClass)
    requires
        0 <= from <= rest.len(),
    ensures
        run_end(prefix + rest, prefix.len() + from, class) == prefix.len() + run_end(
            rest,
            from,
            class,
        ),
    decreases rest.len() - from,
{
    if from < rest.len() && class.contains(rest[from]) {
        lemma_run_end_in_suffix(prefix, rest, from + 1, class);
    }
}

/// Scans do not look behind them: a scan in a suffix of the input yields
/// the token of the same scan in the whole input, at the same place.
proof fn lemma_scan_in_suffix(prefix: Seq<u8>, rest: Seq<u8>, from: int)
    requires
        0 <= from <= rest.len(),
    ensures
        recognizes(prefix + rest, prefix.len() + from) == recognizes(rest, from),
        scan(prefix + rest, prefix.len() + from) == (Scan {
            token: scan(rest, from).token,
            end: prefix.len() + scan(rest, from).end,
        }),
{
    let whole = prefix + rest;
    let shift = prefix.len() as int;
    let start = token_start(rest, from);
    lemma_run_end_in_suffix(prefix, rest, from, ByteClass::Whitespace);
    lemma_scan_advances(rest, from);
    lemma_run_end_in_suffix(prefix, rest, start, ByteClass::Letter);
    lemma_run_end_in_suffix(prefix, rest, start, ByteClass::Digit);
    let word_end = run_end(rest, start, ByteClass::Letter);
    let number_end = run_end(rest, start, ByteClass::Digit);
    assert(start <= word_end <= rest.len() && start <= number_end <= rest.len()) by {
        lemma_run_end(rest, start, ByteClass::Letter);
        lemma_run_end(rest, start, ByteClass::Digit);
    }
    assert(whole.subrange(shift + start, shift + word_end) =~= rest.subrange(start, word_end));
    assert(whole.subrange(shift + start, shift + number_end) =~= rest.subrange(
        start,
        number_end,
    ));
}

/// The token stream of a suffix of the input is the stream of the whole
/// input from where the suffix starts.
proof fn lemma_tokens_in_suffix(prefix: Seq<u8>, rest: Seq<u8>, from: int)
    requires
        0 <= from <= rest.len(),
    ensures
        tokens(prefix + rest, prefix.len() + from) == tokens(rest, from),
        lexable(prefix + rest, prefix.len() + from) == lexable(rest, from),
    decreases rest.len() - from,
{
    lemma_scan_in_suffix(prefix, rest, from);
    lemma_scan_advances(rest, from);
    let next = scan(rest, from);
    if recognizes(rest, from) && !(next.token is Eof) {
        lemma_tokens_in_suffix(prefix, rest, next.end);
    }
}

/// Whitespace before a token is passed over: from a whitespace byte, every
/// scan is the scan from the byte after it.
proof fn lemma_tokens_after_whitespace(input: Seq<u8>, from: int)
    requires
        0 <= from < input.len(),
        ByteClass::Whitespace.contains(input[from]),
    ensures
        scan(input, from) == scan(input, from + 1),
        tokens(input, from) == tokens(input, from + 1),
        lexable(input, from) == lexable(input, from + 1),
{
}

/// The literal of a well-formed token scans back to that token, whatever
/// follows it, as long as what follows starts with a space or is empty.
proof fn lemma_scan_of_literal(token: TokenView, rest: Seq<u8>)
    requires
        token.well_formed(),
        !(token is Eof),
        rest.len() == 0 || rest[0] == ' ' as u8,
    ensures
        is_ascii_chars(token.literal()),
        token.literal().len() > 0,
        recognizes(ascii_bytes(token.literal()) + rest, 0),
        scan(ascii_bytes(token.literal()) + rest, 0) == (Scan {
            token,
            end: token.literal().len() as int,
        }),
{
    lemma_spellings();
    let spelling = ascii_bytes(token.literal());
    let input = spelling + rest;
    let end = spelling.len() as int;
    assert(input.subrange(0, end) =~= spelling);
    assert(ascii_text(spelling) =~= token.literal());
    if token is Ident || token.is_keyword() {
        lemma_run_end_is_unique(input, 0, ByteClass::Letter, end);
    } else if token is Int {
        lemma_run_end_is_unique(input, 0, ByteClass::Digit, end);
    }
}

/// The rendering of a token stream is ASCII text, and its bytes scan back
/// to the stream, up to the end of the input.
pub proof fn lemma_rendering_scans_back(stream: Seq<TokenView>)
    requires
        is_token_stream(stream),
    ensures
        is_ascii_chars(render(stream)),
        lexable(ascii_bytes(render(stream)), 0),
        tokens(ascii_bytes(render(stream)), 0) == stream,
    decreases stream.len(),
{
    let input = ascii_bytes(render(stream));
    if stream.len() > 0 {
        let first = stream[0];
        let others = stream.drop_first();
        let spelling = ascii_bytes(first.literal());
        let end = spelling.len() as int;
        lemma_rendering_scans_back(others);
        if stream.len() == 1 {
            // the input is the spelling of the one token, and ends after it
            lemma_scan_of_literal(first, Seq::empty());
            assert(tokens(input, end) =~= others);
            assert(lexable(input, end));
        } else {
            // the input is the spelling of the first token, a space, and
            // the rendering of the others
            let space = seq![' ' as u8];
            let tail = ascii_bytes(render(others));
            lemma_scan_of_literal(first, space + tail);
            assert(input =~= spelling + (space + tail));
            assert(input =~= (spelling + space) + tail);
            lemma_tokens_after_whitespace(input, end);
            lemma_tokens_in_suffix(spelling + space, tail, 0);
        }
    }
}

/// The tokens that scans yield, from wherever they start, form a token
/// stream.
pub proof fn lemma_tokens_form_a_stream(input: Seq<u8>, from: int)
    requires
        0 <= from <= input.len(),
    ensures
        is_token_stream(tokens(input, from)),
    decreases input.len() - from,
{
    let next = scan(input, from);
    if recognizes(input, from) && !(next.token is Eof) {
        lemma_scan_advances(input, from);
        lemma_scan_is_faithful(input, from);
        lemma_tokens_form_a_stream(input, next.end);
    }
}

/// The round trip of the lexical layer. Take an input that the tokenizer
/// accepts to its end: a sequence of token spellings, with or without
/// whitespace between them. Write the literals of its tokens out with single
/// spaces between them. The text so made is again accepted to its end, and
/// its tokens are those of the input.
pub proof fn lemma_render_round_trip(input: Seq<u8>)
    requires
        lexable(input, 0),
    ensures
        lexable(encode_utf8(render(tokens(input, 0))), 0),
        tokens(encode_utf8(render(tokens(input, 0))), 0) == tokens(input, 0),
{
    let stream = tokens(input, 0);
    lemma_tokens_form_a_stream(input, 0);
    lemma_rendering_scans_back(stream);
    lemma_ascii_text_encoding(render(stream));
}

} // verus!
