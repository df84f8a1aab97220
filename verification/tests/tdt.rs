use melops::tdt::{
    decode_length, duration_for_index, frames_to_samples, merge_chunks, samples_to_frames, shift_frames,
    DurationIndexOutOfBounds, GreedyDecoder, TokenDuration, MAX_TOKENS_PER_FRAME,
};

#[test]
fn duration_lookup() {
    assert_eq!(duration_for_index(0), Ok(0));
    assert_eq!(duration_for_index(4), Ok(4));
    assert_eq!(duration_for_index(5), Err(DurationIndexOutOfBounds { index: 5, max: 4 }));
}

#[test]
fn frame_conversions() {
    assert_eq!(samples_to_frames(1280), 1);
    assert_eq!(samples_to_frames(1279), 0);
    assert_eq!(samples_to_frames(16000), 12);
    assert_eq!(frames_to_samples(12), 15360);
}

#[test]
fn chunk_tokens_move_to_absolute_frames() {
    let mut tokens = vec![TokenDuration::new(5, 0, 1), TokenDuration::new(6, 3, 2)];
    shift_frames(&mut tokens, 16000);
    assert_eq!(tokens, vec![TokenDuration::new(5, 12, 1), TokenDuration::new(6, 15, 2)]);
}

#[test]
fn decode_length_is_bounded_by_frames() {
    assert_eq!(decode_length(5, 10), 5);
    assert_eq!(decode_length(50, 10), 10);
}

#[test]
fn greedy_decoder_emits_non_blank_tokens() {
    let blank = 100;
    let mut d = GreedyDecoder::new(blank, 3);
    assert!(!d.is_done());
    assert_eq!(d.step(7, 0), Some(TokenDuration::new(7, 0, 0)));
    assert_eq!(d.frame_index(), 0);
    assert_eq!(d.step(blank, 2), None);
    assert_eq!(d.frame_index(), 2);
    assert_eq!(d.step(8, 4), Some(TokenDuration::new(8, 2, 4)));
    assert_eq!(d.frame_index(), 3);
    assert!(d.is_done());
}

#[test]
fn greedy_decoder_moves_on_after_max_tokens() {
    let mut d = GreedyDecoder::new(0, 5);
    for _ in 0..MAX_TOKENS_PER_FRAME - 1 {
        d.step(1, 0);
        assert_eq!(d.frame_index(), 0);
    }
    d.step(1, 0);
    assert_eq!(d.frame_index(), 1);
}

const WORD_LEVEL: &str = r#"{"version":"1.0","truncation":null,"padding":null,"added_tokens":[],"normalizer":null,"pre_tokenizer":null,"post_processor":null,"decoder":null,"model":{"type":"WordLevel","vocab":{"a":0,"b":1,"[UNK]":2},"unk_token":"[UNK]"}}"#;

#[test]
fn blank_token_is_vocabulary_size() {
    let tokenizer: tokenizers::Tokenizer = WORD_LEVEL.parse().unwrap();
    let tdt = melops::tokenizer::TdtTokenizer::new(tokenizer.clone());
    assert_eq!(tdt.blank_id, 3);
    assert_eq!(tdt.vocab_size(), 3);
    let detok = melops::tokenizer::TdtDetokenizer::new(tokenizer);
    assert_eq!(detok.vocab_size(), 3);
}

#[test]
fn merge_chunks_joins_in_chunk_order() {
    let a = vec![TokenDuration::new(1, 0, 1), TokenDuration::new(2, 1, 1)];
    let b: Vec<TokenDuration> = Vec::new();
    let c = vec![TokenDuration::new(3, 12, 2)];
    assert_eq!(
        merge_chunks(vec![a, b, c]),
        vec![TokenDuration::new(1, 0, 1), TokenDuration::new(2, 1, 1), TokenDuration::new(3, 12, 2)]
    );
    assert_eq!(merge_chunks(Vec::new()), Vec::<TokenDuration>::new());
}
