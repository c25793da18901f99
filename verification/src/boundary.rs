//! What a caller asks of the library: the spans of a text, and the answer to a
//! request that arrives as a raw buffer with a slot for the count.

use vstd::prelude::*;
use vstd::string::*;
use vstd::utf8::*;
use lindera::error::LinderaError;
use crate::engine::{admit_length, korean_offsets, korean_tokens, Segmenter, MAX_TEXT_BYTES};
use crate::failure::Failure;
use crate::span::{
    chained,
    disjoint,
    lemma_chained_spans_are_ordered_and_disjoint,
    lemma_tiling_offsets_give_chained_spans,
    ordered,
    spans_from_offsets,
    spans_of,
    within,
    BreakResult,
    TokenOffsets,
};
use crate::text::{decode_input, decoding};

verus! {

/// Spans as the library hands them out for a text of `len` bytes: proper
/// intervals inside the text, each beginning where the one before it ends and
/// the first at byte 0, hence in the order of their starts and without overlap.
pub open spec fn well_formed(spans: Seq<BreakResult>, len: nat) -> bool {
    &&& within(spans, len)
    &&& chained(spans)
    &&& ordered(spans)
    &&& disjoint(spans)
}

/// An outcome holds exactly what is owed: the same spans in the same order, or
/// the same failure.
pub open spec fn gives(
    outcome: Result<Vec<BreakResult>, Failure>,
    owed: Result<Seq<BreakResult>, Failure>,
) -> bool {
    match owed {
        Ok(spans) => outcome matches Ok(found) && found@ == spans,
        Err(failure) => outcome == Err::<Vec<BreakResult>, Failure>(failure),
    }
}

/// What is owed for an answer of the engine: one span for each token, in the
/// engine's order, or `Failure::Tokenization` where the engine reported an error.
pub open spec fn spans_for(tokens: Option<Seq<TokenOffsets>>) -> Result<Seq<BreakResult>, Failure> {
    match tokens {
        Some(tokens) => Ok(spans_of(tokens)),
        None => Err(Failure::Tokenization),
    }
}

/// What is owed for a text. An empty text has no spans, and the engine is not
/// asked. A text of more than `MAX_TEXT_BYTES` bytes, which are 32,000, is
/// turned away as `Failure::Oversized`: on a longer one the engine's 32-bit
/// sums of costs could overflow. For any other text the engine's answer
/// decides.
pub open spec fn breaking(text: Seq<char>) -> Result<Seq<BreakResult>, Failure> {
    let len = encode_utf8(text).len();
    if len == 0 {
        Ok(Seq::empty())
    } else if len > MAX_TEXT_BYTES {
        Err(Failure::Oversized)
    } else {
        spans_for(korean_tokens(text))
    }
}

/// What is owed for a raw input buffer: the failure of decoding it, or what is
/// owed for the text that it holds.
pub open spec fn segmenting(input: Option<&[u8]>) -> Result<Seq<BreakResult>, Failure> {
    match decoding(input) {
        Ok(bytes) => breaking(decode_utf8(bytes)),
        Err(failure) => Err(failure),
    }
}

/// A buffer that holds the bytes of a text is owed what the text is owed.
pub proof fn lemma_buffer_is_owed_what_its_text_is(bytes: &[u8], text: Seq<char>)
    requires
        bytes@ == encode_utf8(text),
    ensures
        segmenting(Some(bytes)) == breaking(text),
{
    encode_utf8_valid_utf8(text);
    encode_utf8_decode_utf8(text);
}

/// The spans for what the engine produced: one span for each token, in the
/// engine's order, or `Failure::Tokenization` where the engine reported an error.
pub fn spans_or_failure(produced: Result<Vec<TokenOffsets>, LinderaError>) -> (outcome: Result<
    Vec<BreakResult>,
    Failure,
>)
    ensures
        match produced {
            Ok(tokens) => gives(outcome, spans_for(Some(tokens@))),
            Err(_) => gives(outcome, spans_for(None)),
        },
{
    match produced {
        Ok(tokens) => Ok(spans_from_offsets(&tokens)),
        Err(_) => Err(Failure::Tokenization),
    }
}

/// The spans of the tokens that the segmenter finds in `input`, in the order
/// in which it finds them, or the reason why there are none.
///
/// The outcome is what [`breaking`] says of the text. A text of more than
/// `MAX_TEXT_BYTES` bytes, which are 32,000, is not segmented: it fails with
/// `Failure::Oversized`, as the engine could not be trusted to come back from
/// it. Spans that come back are well formed for the text: they lie inside it,
/// do not overlap and come in the order of their starts.
#[allow(non_snake_case)]
pub fn breakStrings(segmenter: &Segmenter, input: &str) -> (outcome: Result<
    Vec<BreakResult>,
    Failure,
>)
    ensures
        gives(outcome, breaking(input@)),
        outcome matches Ok(spans) ==> well_formed(spans@, input.spec_bytes().len()),
{
    let len: usize = input.as_bytes().len();
    if len == 0 {
        proof {
            lemma_chained_spans_are_ordered_and_disjoint(Seq::<BreakResult>::empty(), 0);
        }
        return Ok(Vec::new());
    }
    if let Err(failure) = admit_length(len) {
        return Err(failure);
    }
    let produced = korean_offsets(segmenter, input);
    proof {
        if let Ok(tokens) = &produced {
            lemma_tiling_offsets_give_chained_spans(tokens@, input.spec_bytes().len());
            lemma_chained_spans_are_ordered_and_disjoint(
                spans_of(tokens@),
                input.spec_bytes().len(),
            );
        }
    }
    spans_or_failure(produced)
}

/// The spans of the text in a raw input buffer, or the reason why there are
/// none.
///
/// The buffer is decoded first: an absent buffer fails with
/// `Failure::NullInput`, bytes that are not UTF-8 with
/// `Failure::InvalidEncoding`. The decoded text is then segmented as
/// [`breakStrings`] does it. The outcome is what [`segmenting`] says of the
/// buffer, and spans that come back are well formed for its bytes.
pub fn segment_input(segmenter: &Segmenter, input: Option<&[u8]>) -> (outcome: Result<
    Vec<BreakResult>,
    Failure,
>)
    ensures
        gives(outcome, segmenting(input)),
        input is None ==> outcome == Err::<Vec<BreakResult>, Failure>(Failure::NullInput),
        input matches Some(bytes) ==> !valid_utf8(bytes@) ==> outcome == Err::<
            Vec<BreakResult>,
            Failure,
        >(Failure::InvalidEncoding),
        outcome matches Ok(spans) ==> input matches Some(bytes) && well_formed(
            spans@,
            bytes@.len(),
        ),
{
    match decode_input(input) {
        Ok(text) => breakStrings(segmenter, text),
        Err(failure) => Err(failure),
    }
}

/// What a caller is handed for an outcome: the spans where there is at least
/// one, and nothing otherwise.
pub open spec fn delivered(outcome: Result<Vec<BreakResult>, Failure>) -> Option<Vec<BreakResult>> {
    match outcome {
        Ok(spans) => if spans@.len() > 0 {
            Some(spans)
        } else {
            None
        },
        Err(_) => None,
    }
}

/// What a caller is owed for a raw input buffer: the spans that are owed for
/// it where there is at least one, and nothing otherwise.
pub open spec fn handing(input: Option<&[u8]>) -> Option<Seq<BreakResult>> {
    match segmenting(input) {
        Ok(spans) => if spans.len() > 0 {
            Some(spans)
        } else {
            None
        },
        Err(_) => None,
    }
}

/// The number of spans that a caller is handed.
pub open spec fn count_of(handed: Option<Vec<BreakResult>>) -> nat {
    match handed {
        Some(spans) => spans@.len(),
        None => 0,
    }
}

/// Hands an outcome over to the caller: the spans, where there is at least
/// one, with their number written to `len`; nothing, with 0 written to `len`,
/// for a failure and for an outcome without spans.
pub fn deliver(outcome: Result<Vec<BreakResult>, Failure>, len: &mut usize) -> (handed: Option<
    Vec<BreakResult>,
>)
    ensures
        handed == delivered(outcome),
        *final(len) == count_of(handed),
{
    match outcome {
        Ok(spans) => {
            if spans.len() > 0 {
                *len = spans.len();
                Some(spans)
            } else {
                *len = 0;
                None
            }
        },
        Err(_) => {
            *len = 0;
            None
        },
    }
}

/// Answers a request for the spans of the text in a raw input buffer.
///
/// The caller is handed the spans and finds their number in `len`; or it is
/// handed nothing and finds 0 there. What it is handed is what [`handing`]
/// says of the buffer. So nothing is handed over for an absent buffer, for
/// bytes that are not UTF-8, for an empty text, for a text of more than
/// `MAX_TEXT_BYTES` bytes, which are 32,000, and where the engine fails or
/// finds no token. Spans that are handed over are well formed for the bytes of
/// the buffer.
pub fn tokenize(segmenter: &Segmenter, input: Option<&[u8]>, len: &mut usize) -> (handed: Option<
    Vec<BreakResult>,
>)
    ensures
        match handing(input) {
            Some(spans) => handed matches Some(found) && found@ == spans,
            None => handed is None,
        },
        *final(len) == count_of(handed),
        handed is None ==> *final(len) == 0,
        input is None ==> handed is None,
        input matches Some(bytes) ==> !valid_utf8(bytes@) ==> handed is None,
        input matches Some(bytes) ==> bytes@.len() == 0 ==> handed is None,
        input matches Some(bytes) ==> bytes@.len() > MAX_TEXT_BYTES ==> handed is None,
        handed matches Some(spans) ==> spans@.len() > 0,
        handed matches Some(spans) ==> input matches Some(bytes) && well_formed(
            spans@,
            bytes@.len(),
        ),
{
    proof {
        if let Some(bytes) = input {
            if valid_utf8(bytes@) {
                decode_utf8_encode_utf8(bytes@);
            }
        }
    }
    deliver(segment_input(segmenter, input), len)
}

} // verus!
