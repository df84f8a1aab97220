use melops::chunk::{ChunkRangeIter, ChunkSizeError};

const SAMPLE_RATE: usize = 16000;

/// Chunk sizes in samples from durations in seconds, as `ChunkConfig::chunk_audio` computes them.
fn chunk_audio(duration: f32, overlap: f32, len: usize, sample_rate: usize) -> Result<ChunkRangeIter, ChunkSizeError> {
    let chunk_size = (duration * sample_rate as f32) as usize;
    let overlap_size = (overlap * sample_rate as f32) as usize;
    ChunkRangeIter::from_sizes(len, chunk_size, overlap_size)
}

fn collect(mut iter: ChunkRangeIter) -> Vec<std::ops::Range<usize>> {
    let mut out = Vec::new();
    while let Some(r) = iter.next() {
        out.push(r);
    }
    out
}

#[test]
fn rejects_float_truncation_to_zero_step() {
    assert!(chunk_audio(0.0001, 0.00009, 10 * SAMPLE_RATE, SAMPLE_RATE).is_err());
}

#[test]
fn empty_audio() {
    let iter = chunk_audio(60.0, 1.0, 0, SAMPLE_RATE).unwrap();

    assert!(iter.is_empty());
    assert_eq!(iter.len(), 0);
    assert_eq!(collect(iter).len(), 0);
}

#[test]
fn audio_shorter_than_chunk() {
    let chunks = collect(chunk_audio(60.0, 1.0, 30 * SAMPLE_RATE, SAMPLE_RATE).unwrap());

    assert_eq!(chunks.len(), 1);
    assert_eq!(chunks[0], 0..30 * SAMPLE_RATE);
}

#[test]
fn multiple_chunks() {
    let chunks = collect(chunk_audio(60.0, 1.0, 150 * SAMPLE_RATE, SAMPLE_RATE).unwrap());

    assert_eq!(chunks.len(), 3);
    assert_eq!(chunks[0], 0..60 * SAMPLE_RATE);
    assert_eq!(chunks[1], 59 * SAMPLE_RATE..119 * SAMPLE_RATE);
    assert_eq!(chunks[2], 118 * SAMPLE_RATE..150 * SAMPLE_RATE);
}

#[test]
fn zero_overlap() {
    let chunks = collect(chunk_audio(60.0, 0.0, 120 * SAMPLE_RATE, SAMPLE_RATE).unwrap());

    assert_eq!(chunks.len(), 2);
    assert_eq!(chunks[0], 0..60 * SAMPLE_RATE);
    assert_eq!(chunks[1], 60 * SAMPLE_RATE..120 * SAMPLE_RATE);
}

#[test]
fn maximum_overlap() {
    let iter = chunk_audio(1.0, 0.999, 10 * SAMPLE_RATE, SAMPLE_RATE).unwrap();

    assert!(iter.step_size() > 0);
    assert!(iter.step_size() < SAMPLE_RATE / 100);
}

#[test]
fn size_hint_and_len_accurate() {
    let iter = chunk_audio(60.0, 1.0, 150 * SAMPLE_RATE, SAMPLE_RATE).unwrap();

    let total_len = iter.len();
    let (lower, upper) = iter.size_hint();
    let actual_count = collect(iter).len();

    assert_eq!(total_len, actual_count);
    assert_eq!(lower, actual_count);
    assert_eq!(upper, Some(actual_count));
}

#[test]
fn size_hint_updates_correctly() {
    let mut iter = chunk_audio(60.0, 1.0, 150 * SAMPLE_RATE, SAMPLE_RATE).unwrap();

    assert_eq!(iter.size_hint(), (3, Some(3)));
    iter.next();
    assert_eq!(iter.size_hint(), (2, Some(2)));
    iter.next();
    assert_eq!(iter.size_hint(), (1, Some(1)));
    iter.next();
    assert_eq!(iter.size_hint(), (0, Some(0)));
}

#[test]
fn chunk_sizes_error_names_sizes() {
    let err = ChunkRangeIter::from_sizes(100, 10, 10).err().unwrap();
    assert_eq!(err, ChunkSizeError { chunk_size: 10, overlap_size: 10 });
    assert!(ChunkRangeIter::from_sizes(100, 10, 11).is_err());
    assert!(ChunkRangeIter::from_sizes(100, 10, 9).is_ok());
}

#[test]
fn chunk_count_is_ceiling_of_len_over_step() {
    // 10 samples, chunks of 4 every 3: starts 0, 3, 6, 9.
    let iter = ChunkRangeIter::from_sizes(10, 4, 1).unwrap();
    assert_eq!(iter.len(), 4);
    let chunks = collect(iter);
    assert_eq!(chunks, vec![0..4, 3..7, 6..10, 9..10]);
}
