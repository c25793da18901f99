use korean_break::{
    admit_length, decode_input, deliver, segment_input, spans_from_offsets, spans_or_failure,
    tokenize, BreakResult, Failure, Segmenter, TokenOffsets, MAX_TEXT_BYTES,
};
use lindera::error::LinderaError;
use lindera::mode::Mode;

fn korean() -> Segmenter {
    Segmenter::korean().expect("the Korean dictionary loads")
}

fn engine_error() -> LinderaError {
    match "no such mode".parse::<Mode>() {
        Ok(_) => panic!("an unknown mode was accepted"),
        Err(error) => error,
    }
}

#[test]
fn null_input_hands_over_nothing() {
    let segmenter = korean();
    let mut count: usize = 7;
    let handed = tokenize(&segmenter, None, &mut count);
    assert_eq!(handed, None);
    assert_eq!(count, 0);
    assert_eq!(segment_input(&segmenter, None), Err(Failure::NullInput));
}

#[test]
fn lone_continuation_byte_hands_over_nothing() {
    let segmenter = korean();
    let mut count: usize = 7;
    let handed = tokenize(&segmenter, Some(&[0x80]), &mut count);
    assert_eq!(handed, None);
    assert_eq!(count, 0);
    assert_eq!(
        segment_input(&segmenter, Some(&[0x80])),
        Err(Failure::InvalidEncoding)
    );
}

#[test]
fn malformed_sequences_are_invalid_encoding() {
    let segmenter = korean();
    let truncated: &[u8] = &[0xea, 0xb2];
    let overlong: &[u8] = &[0xc0, 0x80];
    let surrogate: &[u8] = &[0xed, 0xa0, 0x80];
    let beyond_unicode: &[u8] = &[0xf4, 0x90, 0x80, 0x80];
    let valid_then_broken: &[u8] = &[b'a', 0xff];
    for bytes in [truncated, overlong, surrogate, beyond_unicode, valid_then_broken] {
        let mut count: usize = 7;
        assert_eq!(tokenize(&segmenter, Some(bytes), &mut count), None);
        assert_eq!(count, 0);
        assert_eq!(
            segment_input(&segmenter, Some(bytes)),
            Err(Failure::InvalidEncoding)
        );
    }
}

#[test]
fn empty_buffer_hands_over_nothing() {
    let segmenter = korean();
    let mut count: usize = 7;
    let handed = tokenize(&segmenter, Some(b""), &mut count);
    assert_eq!(handed, None);
    assert_eq!(count, 0);
    assert_eq!(segment_input(&segmenter, Some(b"")), Ok(Vec::new()));
}

#[test]
fn count_is_the_number_of_spans() {
    let segmenter = korean();
    let text = "결정하겠다";
    let mut count: usize = 0;
    let handed = tokenize(&segmenter, Some(text.as_bytes()), &mut count);
    assert_eq!(
        handed,
        Some(vec![
            BreakResult { start: 0, end: 6 },
            BreakResult { start: 6, end: 9 },
            BreakResult { start: 9, end: 15 },
        ])
    );
    assert_eq!(count, 3);
}

#[test]
fn buffer_and_text_give_the_same_spans() {
    let segmenter = korean();
    let text = "서울특별시에 갑니다.";
    assert_eq!(
        segment_input(&segmenter, Some(text.as_bytes())),
        korean_break::breakStrings(&segmenter, text)
    );
}

#[test]
fn length_beyond_the_engine_limit_is_oversized() {
    assert_eq!(admit_length(MAX_TEXT_BYTES + 1), Err(Failure::Oversized));
    assert_eq!(admit_length(usize::MAX), Err(Failure::Oversized));
}

#[test]
fn length_up_to_the_engine_limit_is_admitted() {
    assert_eq!(admit_length(0), Ok(()));
    assert_eq!(admit_length(15), Ok(()));
    assert_eq!(admit_length(MAX_TEXT_BYTES), Ok(()));
}

#[test]
fn engine_limit_is_32000_bytes() {
    assert_eq!(MAX_TEXT_BYTES, 32_000);
}

#[test]
fn buffer_beyond_the_engine_limit_hands_over_nothing() {
    let segmenter = korean();
    let bytes = vec![b'a'; MAX_TEXT_BYTES + 1];
    assert_eq!(
        segment_input(&segmenter, Some(&bytes)),
        Err(Failure::Oversized)
    );
    let mut count: usize = 7;
    assert_eq!(tokenize(&segmenter, Some(&bytes), &mut count), None);
    assert_eq!(count, 0);
}

#[test]
fn buffer_at_the_engine_limit_is_segmented() {
    let segmenter = korean();
    let bytes = vec![b'a'; MAX_TEXT_BYTES];
    let mut count: usize = 0;
    let handed = tokenize(&segmenter, Some(&bytes), &mut count);
    assert_eq!(handed, Some(vec![BreakResult { start: 0, end: 32_000 }]));
    assert_eq!(count, 1);
}

#[test]
fn deliver_hands_over_spans_with_their_number() {
    let spans = vec![
        BreakResult { start: 0, end: 6 },
        BreakResult { start: 6, end: 9 },
    ];
    let mut count: usize = 0;
    let handed = deliver(Ok(spans.clone()), &mut count);
    assert_eq!(handed, Some(spans));
    assert_eq!(count, 2);
}

#[test]
fn deliver_hands_over_nothing_without_spans() {
    let mut count: usize = 7;
    assert_eq!(deliver(Ok(Vec::new()), &mut count), None);
    assert_eq!(count, 0);
}

#[test]
fn deliver_hands_over_nothing_for_each_failure() {
    for failure in [
        Failure::Initialization,
        Failure::NullInput,
        Failure::InvalidEncoding,
        Failure::Oversized,
        Failure::Tokenization,
    ] {
        let mut count: usize = 7;
        assert_eq!(deliver(Err(failure), &mut count), None);
        assert_eq!(count, 0);
    }
}

#[test]
fn one_span_for_each_token_in_order() {
    let tokens = vec![
        TokenOffsets { byte_start: 0, byte_end: 6 },
        TokenOffsets { byte_start: 6, byte_end: 9 },
        TokenOffsets { byte_start: 9, byte_end: 15 },
    ];
    assert_eq!(
        spans_from_offsets(&tokens),
        vec![
            BreakResult { start: 0, end: 6 },
            BreakResult { start: 6, end: 9 },
            BreakResult { start: 9, end: 15 },
        ]
    );
    assert_eq!(spans_from_offsets(&Vec::new()), Vec::new());
}

#[test]
fn offsets_are_widened_without_loss() {
    let tokens = vec![TokenOffsets { byte_start: usize::MAX - 1, byte_end: usize::MAX }];
    assert_eq!(
        spans_from_offsets(&tokens),
        vec![BreakResult { start: usize::MAX as u64 - 1, end: usize::MAX as u64 }]
    );
}

#[test]
fn engine_tokens_become_spans() {
    let tokens = vec![TokenOffsets { byte_start: 0, byte_end: 5 }];
    assert_eq!(
        spans_or_failure(Ok(tokens)),
        Ok(vec![BreakResult { start: 0, end: 5 }])
    );
}

#[test]
fn engine_error_is_a_tokenization_failure() {
    assert_eq!(
        spans_or_failure(Err(engine_error())),
        Err(Failure::Tokenization)
    );
}

#[test]
fn failed_loading_is_an_initialization_failure() {
    match Segmenter::from_loaded(Err(engine_error())) {
        Ok(_) => panic!("a handle was made without a tokenizer"),
        Err(failure) => assert_eq!(failure, Failure::Initialization),
    }
}

#[test]
fn decoding_keeps_the_text() {
    let text = "결정하겠다";
    assert_eq!(decode_input(Some(text.as_bytes())), Ok(text));
    assert_eq!(decode_input(Some(b"")), Ok(""));
    assert_eq!(decode_input(Some(b"a\0b")), Ok("a\0b"));
}

#[test]
fn decoding_turns_away_what_is_not_text() {
    assert_eq!(decode_input(None), Err(Failure::NullInput));
    assert_eq!(decode_input(Some(&[0x80])), Err(Failure::InvalidEncoding));
}
