use phoneme_align::audio::AudioCursor;

fn drain(samples: Vec<i16>, max_len: usize) -> (Vec<Vec<i16>>, AudioCursor) {
    let mut cursor = AudioCursor::new(samples);
    let mut chunks = Vec::new();
    while let Some(chunk) = cursor.next_chunk(max_len) {
        chunks.push(chunk);
        assert!(chunks.len() < 10_000);
    }
    (chunks, cursor)
}

#[test]
fn chunks_come_in_order_and_end_once() {
    let mut cursor = AudioCursor::new(vec![1, 2, 3, 4, 5]);
    assert_eq!(cursor.remaining(), 5);
    assert_eq!(cursor.next_chunk(2), Some(vec![1, 2]));
    assert_eq!(cursor.remaining(), 3);
    assert_eq!(cursor.next_chunk(2), Some(vec![3, 4]));
    assert_eq!(cursor.next_chunk(2), Some(vec![5]));
    assert_eq!(cursor.remaining(), 0);
    assert_eq!(cursor.next_chunk(2), None);
    assert_eq!(cursor.next_chunk(2), None);
}

#[test]
fn a_chunk_never_holds_more_than_asked_for() {
    let mut cursor = AudioCursor::new(vec![7, 8, 9]);
    assert_eq!(cursor.next_chunk(1), Some(vec![7]));
    assert_eq!(cursor.next_chunk(1), Some(vec![8]));
    assert_eq!(cursor.next_chunk(1), Some(vec![9]));
    assert_eq!(cursor.next_chunk(1), None);
}

#[test]
fn an_empty_recording_ends_at_once() {
    let mut cursor = AudioCursor::new(Vec::new());
    assert_eq!(cursor.next_chunk(4), None);
    assert_eq!(cursor.next_chunk(0), None);
}

#[test]
fn a_large_request_takes_what_is_left() {
    let mut cursor = AudioCursor::new(vec![-1, 0, 1]);
    assert_eq!(cursor.next_chunk(usize::MAX), Some(vec![-1, 0, 1]));
    assert_eq!(cursor.next_chunk(usize::MAX), None);
}

#[test]
fn a_request_for_nothing_is_not_the_end() {
    let mut cursor = AudioCursor::new(vec![5, 6]);
    assert_eq!(cursor.next_chunk(0), Some(Vec::new()));
    assert_eq!(cursor.remaining(), 2);
    assert_eq!(cursor.next_chunk(2), Some(vec![5, 6]));
    assert_eq!(cursor.next_chunk(0), None);
}

#[test]
fn draining_takes_the_rounded_up_quotient_of_requests() {
    for len in 0..40usize {
        for max_len in 1..9usize {
            let samples: Vec<i16> = (0..len).map(|i| i as i16 * 3 - 50).collect();
            let (chunks, mut cursor) = drain(samples.clone(), max_len);
            assert_eq!(chunks.len(), (len + max_len - 1) / max_len);
            for (k, chunk) in chunks.iter().enumerate() {
                assert!(!chunk.is_empty());
                assert!(chunk.len() <= max_len);
                let from = k * max_len;
                let to = (from + max_len).min(len);
                assert_eq!(chunk.as_slice(), &samples[from..to]);
            }
            let all: Vec<i16> = chunks.concat();
            assert_eq!(all, samples);
            assert_eq!(cursor.next_chunk(max_len), None);
        }
    }
}

#[test]
fn requests_of_changing_size_lose_nothing() {
    let samples: Vec<i16> = (0..100).collect();
    let mut cursor = AudioCursor::new(samples.clone());
    let mut all = Vec::new();
    let mut size = 1;
    while let Some(chunk) = cursor.next_chunk(size) {
        assert_eq!(chunk.len(), size.min(100 - all.len()));
        all.extend(chunk);
        size = size % 7 + 1;
    }
    assert_eq!(all, samples);
}
