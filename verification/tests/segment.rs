use melops::segment::{SegmentBuffer, SegmentConfig, SegmentConfigError, SAMPLE_RATE};
use melops::slice::Segmentor;

#[test]
fn segment_config_validation() {
    assert!(SegmentConfig::new(10, 10).is_ok());
    assert!(SegmentConfig::new(10, 1).is_ok());
    assert_eq!(
        SegmentConfig::new(10, 11).unwrap_err(),
        SegmentConfigError { window_size: 10, step_size: 11 }
    );
    assert_eq!(
        SegmentConfig::new(10, 0).unwrap_err(),
        SegmentConfigError { window_size: 10, step_size: 0 }
    );
    let c = SegmentConfig::new(30 * SAMPLE_RATE, 29 * SAMPLE_RATE).unwrap();
    assert_eq!(c.window_size(), 480000);
    assert_eq!(c.step_size(), 464000);
    assert_eq!(c.overlap_size(), 16000);
}

#[test]
fn segment_config_from_sizes() {
    let c = SegmentConfig::from_sizes(480000, 16000).unwrap();
    assert_eq!(c.step_size(), 464000);
    assert_eq!(
        SegmentConfig::from_sizes(10, 20).unwrap_err(),
        SegmentConfigError { window_size: 10, step_size: 0 }
    );
}

#[test]
fn segmentor_windows() {
    let data: Vec<u32> = (0..10).collect();
    let config = SegmentConfig::new(4, 3).unwrap();
    let mut seg = Segmentor::new(&data, config);
    assert_eq!(seg.len(), 4);
    assert_eq!(seg.size_hint(), (4, Some(4)));
    assert_eq!(seg.next(), Some(&data[0..4]));
    assert_eq!(seg.len(), 3);
    assert_eq!(seg.next(), Some(&data[3..7]));
    assert_eq!(seg.next(), Some(&data[6..10]));
    assert_eq!(seg.len(), 1);
    assert_eq!(seg.next(), Some(&data[9..10]));
    assert_eq!(seg.next(), None);
    assert_eq!(seg.next(), None);
}

#[test]
fn segmentor_empty_slice() {
    let data: Vec<u8> = Vec::new();
    let mut seg = Segmentor::new(&data, SegmentConfig::new(2, 1).unwrap());
    assert_eq!(seg.len(), 0);
    assert_eq!(seg.next(), None);
}

#[test]
fn segment_buffer_streams_windows() {
    let config = SegmentConfig::new(4, 3).unwrap();
    let mut buf = SegmentBuffer::new(config);
    let mut out = Vec::new();
    for x in 0u32..10 {
        if let Some(w) = buf.push(x) {
            out.push(w);
        }
    }
    if let Some(w) = buf.finish() {
        out.push(w);
    }
    assert_eq!(out, vec![vec![0, 1, 2, 3], vec![3, 4, 5, 6], vec![6, 7, 8, 9], vec![9]]);
}

#[test]
fn segment_buffer_tail_after_full_window() {
    let config = SegmentConfig::new(8, 2).unwrap();
    let mut buf = SegmentBuffer::new(config);
    let mut out = Vec::new();
    for x in 0u32..10 {
        if let Some(w) = buf.push(x) {
            out.push(w);
        }
    }
    if let Some(w) = buf.finish() {
        out.push(w);
    }
    assert_eq!(
        out,
        vec![vec![0, 1, 2, 3, 4, 5, 6, 7], vec![2, 3, 4, 5, 6, 7, 8, 9], vec![4, 5, 6, 7, 8, 9]]
    );
    let empty: SegmentBuffer<u32> = SegmentBuffer::new(config);
    assert_eq!(empty.finish(), None);
}

#[test]
fn segmentor_len_is_zero_after_last_window() {
    let data = [1, 2, 3, 4, 5];
    let mut seg = Segmentor::new(&data[..], SegmentConfig::new(3, 3).unwrap());
    assert_eq!(seg.next(), Some(&[1, 2, 3][..]));
    assert_eq!(seg.next(), Some(&[4, 5][..]));
    assert_eq!(seg.len(), 0);
    assert_eq!(seg.size_hint(), (0, Some(0)));
    assert_eq!(seg.next(), None);
}

#[test]
fn segmentor_yields_ceil_n_over_step_windows() {
    let data: Vec<u32> = (0..7).collect();
    let mut seg = Segmentor::new(&data[..], SegmentConfig::new(3, 2).unwrap());
    let mut windows: Vec<Vec<u32>> = Vec::new();
    while let Some(w) = seg.next() {
        windows.push(w.to_vec());
    }
    assert_eq!(windows, vec![vec![0, 1, 2], vec![2, 3, 4], vec![4, 5, 6], vec![6]]);
}

#[test]
fn segment_buffer_whole_stream() {
    let config = SegmentConfig::new(3, 3).unwrap();
    let mut buf = SegmentBuffer::new(config);
    let mut out = Vec::new();
    for x in 1u32..=5 {
        if let Some(w) = buf.push(x) {
            out.push(w);
        }
    }
    if let Some(w) = buf.finish() {
        out.push(w);
    }
    assert_eq!(out, vec![vec![1, 2, 3], vec![4, 5]]);

    let mut buf = SegmentBuffer::new(config);
    let mut out = Vec::new();
    for x in 1u32..=6 {
        if let Some(w) = buf.push(x) {
            out.push(w);
        }
    }
    assert_eq!(buf.finish(), None);
    assert_eq!(out, vec![vec![1, 2, 3], vec![4, 5, 6]]);
}
