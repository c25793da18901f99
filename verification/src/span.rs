//! Byte spans, the offsets they are made from, and what it means for a
//! sequence of them to tile a text.

use vstd::prelude::*;

verus! {

/// A half-open byte interval `[start, end)` into the text that was segmented.
#[derive(Clone, Copy, Debug, PartialEq, Eq, Structural)]
pub struct BreakResult {
    pub start: u64,
    pub end: u64,
}

/// Where one token of the engine begins and ends, in bytes of the text.
#[derive(Clone, Copy, Debug, PartialEq, Eq, Structural)]
pub struct TokenOffsets {
    pub byte_start: usize,
    pub byte_end: usize,
}

/// The span that stands for one token.
pub open spec fn span_of(token: TokenOffsets) -> BreakResult {
    BreakResult { start: token.byte_start as u64, end: token.byte_end as u64 }
}

/// The spans that stand for a run of tokens, one for one and in the same order.
pub open spec fn spans_of(tokens: Seq<TokenOffsets>) -> Seq<BreakResult> {
    tokens.map_values(|token: TokenOffsets| span_of(token))
}

/// Every span is a proper interval inside a text of `len` bytes.
pub open spec fn within(spans: Seq<BreakResult>, len: nat) -> bool {
    forall|i: int| 0 <= i < spans.len() ==> (#[trigger] spans[i]).start <= spans[i].end <= len
}

/// Each span begins where the one before it ends, and the first begins the text.
pub open spec fn chained(spans: Seq<BreakResult>) -> bool {
    &&& spans.len() > 0 ==> spans[0].start == 0
    &&& forall|i: int| 0 < i < spans.len() ==> (#[trigger] spans[i]).start == spans[i - 1].end
}

/// Starts never decrease from one span to a later one.
pub open spec fn ordered(spans: Seq<BreakResult>) -> bool {
    forall|i: int, j: int|
        0 <= i < j < spans.len() ==> (#[trigger] spans[i]).start <= (#[trigger] spans[j]).start
}

/// No span reaches into a later one.
pub open spec fn disjoint(spans: Seq<BreakResult>) -> bool {
    forall|i: int, j: int|
        0 <= i < j < spans.len() ==> (#[trigger] spans[i]).end <= (#[trigger] spans[j]).start
}

/// The offsets of the tokens of a text of `len` bytes, as the engine lays them
/// out: the first token begins at byte 0, each token begins where the one before
/// it ends, none ends before it begins, and none ends past the text.
pub open spec fn offsets_tile(tokens: Seq<TokenOffsets>, len: nat) -> bool {
    &&& tokens.len() > 0 ==> tokens[0].byte_start == 0
    &&& forall|i: int|
        0 <= i < tokens.len() ==> (#[trigger] tokens[i]).byte_start <= tokens[i].byte_end <= len
    &&& forall|i: int|
        0 < i < tokens.len() ==> (#[trigger] tokens[i]).byte_start == tokens[i - 1].byte_end
}

/// Tokens that tile a text give spans that are chained and lie within it.
pub proof fn lemma_tiling_offsets_give_chained_spans(tokens: Seq<TokenOffsets>, len: nat)
    requires
        offsets_tile(tokens, len),
    ensures
        chained(spans_of(tokens)),
        within(spans_of(tokens), len),
{
    let spans = spans_of(tokens);
    assert forall|i: int| 0 <= i < spans.len() implies (#[trigger] spans[i]).start <= spans[i].end
        <= len by {
        assert(spans[i] == span_of(tokens[i]));
    }
    assert forall|i: int| 0 < i < spans.len() implies (#[trigger] spans[i]).start == spans[i
        - 1].end by {
        assert(spans[i] == span_of(tokens[i]));
        assert(spans[i - 1] == span_of(tokens[i - 1]));
    }
}

/// In a chain of proper intervals a span ends no later than any later span begins.
proof fn lemma_chain_reaches(spans: Seq<BreakResult>, len: nat, i: int, j: int)
    requires
        chained(spans),
        within(spans, len),
        0 <= i < j < spans.len(),
    ensures
        spans[i].end <= spans[j].start,
    decreases j - i,
{
    if i + 1 < j {
        lemma_chain_reaches(spans, len, i, j - 1);
        assert(spans[j - 1].start <= spans[j - 1].end);
    }
    assert(spans[j].start == spans[j - 1].end);
}

/// Spans that are chained and lie within a text do not overlap and come in the
/// order of their starts.
pub proof fn lemma_chained_spans_are_ordered_and_disjoint(spans: Seq<BreakResult>, len: nat)
    requires
        chained(spans),
        within(spans, len),
    ensures
        ordered(spans),
        disjoint(spans),
{
    assert forall|i: int, j: int| 0 <= i < j < spans.len() implies (#[trigger] spans[i]).end <= (
    #[trigger] spans[j]).start by {
        lemma_chain_reaches(spans, len, i, j);
    }
    assert forall|i: int, j: int| 0 <= i < j < spans.len() implies (#[trigger] spans[i]).start <= (
    #[trigger] spans[j]).start by {
        lemma_chain_reaches(spans, len, i, j);
        assert(spans[i].start <= spans[i].end);
    }
}

/// One span for each token, with the token's byte offsets widened to 64 bits.
pub fn spans_from_offsets(tokens: &Vec<TokenOffsets>) -> (spans: Vec<BreakResult>)
    ensures
        spans@ == spans_of(tokens@),
{
    let mut spans: Vec<BreakResult> = Vec::new();
    let mut i: usize = 0;
    while i < tokens.len()
        invariant
            i <= tokens.len(),
            spans@.len() == i,
            forall|k: int| 0 <= k < i ==> spans@[k] == span_of(#[trigger] tokens@[k]),
        decreases tokens.len() - i,
    {
        let token = tokens[i];
        spans.push(BreakResult { start: token.byte_start as u64, end: token.byte_end as u64 });
        i += 1;
    }
    assert(spans@ =~= spans_of(tokens@));
    spans
}

} // verus!
