//! The segmentation engine and the handle that keeps it.

use vstd::prelude::*;
use vstd::string::*;
use lindera::dictionary::DictionaryConfig;
use lindera::error::LinderaError;
use lindera::mode::{Mode, Penalty};
use lindera::tokenizer::{Tokenizer, TokenizerConfig};
use lindera::DictionaryKind;
use crate::failure::Failure;
use crate::span::{offsets_tile, TokenOffsets};

verus! {

/// lindera's tokenizer: a dictionary and a mode, opaque here.
#[verifier::external_type_specification]
#[verifier::external_body]
pub struct ExTokenizer(Tokenizer);

/// lindera's error, opaque here.
#[verifier::external_type_specification]
#[verifier::external_body]
pub struct ExLinderaError(LinderaError);

/// The longest text, in bytes, that the engine is given. Up to this length the
/// costs that it adds up stay within 32 bits: see [`costs_fit`].
pub const MAX_TEXT_BYTES: usize = 32_000;

/// Whether the engine's sums of costs stay within 32 bits on a text of `len`
/// bytes.
///
/// lindera adds up the cost of a path through a text in 32-bit arithmetic. A
/// path has at most one token for each byte, and the end of the text after
/// them. Each of these adds a word cost and a connection cost, both 16-bit
/// numbers of the dictionary, so at most 65,536 in size together. Each token
/// adds a length penalty besides, of at most 3,000 for each of its characters,
/// which lindera counts as three bytes each: at most 1,000 for each byte.
pub open spec fn costs_fit(len: nat) -> bool {
    (len + 1) * 65_536 + len * 1_000 <= i32::MAX
}

/// The handle to the engine: lindera's tokenizer with the Korean dictionary,
/// set to decompose compound words. It is set up by [`Segmenter::korean`] and
/// only read afterwards; there is no other way to make one, so every handle
/// segments alike.
pub struct Segmenter {
    tokenizer: Tokenizer,
}

/// What the engine answers for a text: the byte offsets of the tokens it finds,
/// in reading order, or `None` where it reports an error. This is lindera's
/// `Tokenizer::tokenize` under the dictionary and the mode of a [`Segmenter`].
pub uninterp spec fn korean_tokens(text: Seq<char>) -> Option<Seq<TokenOffsets>>;

/// `Tokenizer::from_config` of lindera, asked for the Korean dictionary that is
/// built into it and for decomposition of compound words under lindera's
/// default penalties; the tokenizer it gives is put into a handle. Nothing is
/// claimed of the outcome.
#[verifier::external_body]
fn load_korean_segmenter() -> (loaded: Result<Segmenter, LinderaError>) {
    let dictionary = DictionaryConfig { kind: Some(DictionaryKind::KoDic), path: None };
    let mode = Mode::Decompose(Penalty::default());
    let config = TokenizerConfig { dictionary, user_dictionary: None, mode };
    let tokenizer = Tokenizer::from_config(config)?;
    Ok(Segmenter { tokenizer })
}

/// `Tokenizer::tokenize` of lindera on the tokenizer of a handle, with each
/// token reduced to its two byte offsets.
///
/// The answer is a matter of the text alone, since all handles hold the same
/// dictionary and mode: it is [`korean_tokens`] of the text. lindera counts a
/// token's start and end up from zero by the byte lengths of the pieces that it
/// cuts out of the text one after the other: so the offsets tile the text from
/// its first byte on and never pass its end. Which pieces it cuts is left open.
///
/// lindera chooses the pieces by costs that it adds up without a check for
/// overflow, which stops a program built with such checks. Only texts on which
/// the sums cannot overflow are handed to it: those for which [`costs_fit`]
/// holds. Their positions fit the 32 bits in which it keeps them, too.
#[verifier::external_body]
pub(crate) fn korean_offsets(segmenter: &Segmenter, text: &str) -> (produced: Result<
    Vec<TokenOffsets>,
    LinderaError,
>)
    requires
        costs_fit(text.spec_bytes().len()),
    ensures
        match produced {
            Ok(tokens) => korean_tokens(text@) == Some(tokens@),
            Err(_) => korean_tokens(text@) is None,
        },
        produced matches Ok(tokens) ==> offsets_tile(tokens@, text.spec_bytes().len()),
{
    let tokens = segmenter.tokenizer.tokenize(text)?;
    Ok(
        tokens.iter().map(
            |token| TokenOffsets { byte_start: token.byte_start, byte_end: token.byte_end },
        ).collect(),
    )
}

/// Whether the engine is given a text of `len` bytes: `Failure::Oversized` for
/// more than `MAX_TEXT_BYTES`, and no objection otherwise. On a length that
/// meets no objection the engine's costs fit.
pub fn admit_length(len: usize) -> (admitted: Result<(), Failure>)
    ensures
        admitted == if len <= MAX_TEXT_BYTES {
            Ok::<(), Failure>(())
        } else {
            Err::<(), Failure>(Failure::Oversized)
        },
        admitted is Ok ==> costs_fit(len as nat),
{
    if len <= MAX_TEXT_BYTES {
        Ok(())
    } else {
        Err(Failure::Oversized)
    }
}

impl Segmenter {
    /// What setting up the engine comes to: the handle where it was loaded,
    /// and `Failure::Initialization` where loading failed.
    pub fn from_loaded(loaded: Result<Segmenter, LinderaError>) -> (made: Result<
        Segmenter,
        Failure,
    >)
        ensures
            match loaded {
                Ok(segmenter) => made == Ok::<Segmenter, Failure>(segmenter),
                Err(_) => made == Err::<Segmenter, Failure>(Failure::Initialization),
            },
    {
        match loaded {
            Ok(segmenter) => Ok(segmenter),
            Err(_) => Err(Failure::Initialization),
        }
    }

    /// Sets up the engine for Korean text. It fails only with
    /// `Failure::Initialization`, when the dictionary cannot be loaded.
    pub fn korean() -> (made: Result<Segmenter, Failure>)
        ensures
            made matches Err(failure) ==> failure == Failure::Initialization,
    {
        Segmenter::from_loaded(load_korean_segmenter())
    }
}

} // verus!
