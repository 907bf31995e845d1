use light_field_test::buffer::{
    buffer_increasing_check, buffer_to_sparse_triplet, buffer_to_triplet, decode_words,
    recorded_pairs, BufferFinding,
};

fn bytes_of(words: &[u32]) -> Vec<u8> {
    words.iter().flat_map(|w| w.to_ne_bytes()).collect()
}

#[test]
fn decode_reads_native_words() {
    let words = vec![0u32, 1, 0xdead_beef, u32::MAX];
    assert_eq!(decode_words(&bytes_of(&words)), words);
    assert!(decode_words(&[]).is_empty());
}

#[test]
fn sparse_triplet_takes_prefix() {
    let words = vec![5u32, 6, 7, 8];
    let bytes = bytes_of(&words);
    assert_eq!(buffer_to_sparse_triplet(&bytes, 2), vec![5, 6]);
    assert_eq!(buffer_to_sparse_triplet(&bytes, 4), words);
    assert!(buffer_to_sparse_triplet(&bytes, 0).is_empty());
}

#[test]
fn recorded_pairs_skip_zero_counts_and_repeats() {
    let entries = vec![1u32, 2, 3, 4, 5, 0, 1, 2, 9, 7, 8, 1];
    assert_eq!(recorded_pairs(&entries), vec![(1, 2), (7, 8)]);
    assert!(recorded_pairs(&vec![]).is_empty());
}

#[test]
fn buffer_to_triplet_decodes_then_dedups() {
    let words = vec![3u32, 4, 1, 3, 4, 2, 0, 0, 0, 9, 9, 5];
    let pairs = buffer_to_triplet(&bytes_of(&words));
    assert_eq!(pairs, vec![(3, 4), (9, 9)]);
}

#[test]
fn zero_word_is_zero_in_either_order() {
    // a zero count decodes to zero whatever the byte order
    let bytes = vec![0u8; 12];
    assert!(buffer_to_triplet(&bytes).is_empty());
    let w = decode_words(&[0, 0, 0, 0]);
    assert_eq!(w, vec![0]);
}

#[test]
fn increasing_check_accepts_counting_buffer() {
    assert!(buffer_increasing_check(&vec![0, 1, 2, 3]).is_empty());
    assert!(buffer_increasing_check(&vec![]).is_empty());
}

#[test]
fn increasing_check_reports_first_not_zero() {
    assert_eq!(
        buffer_increasing_check(&vec![4, 5]),
        vec![
            BufferFinding::IndexMismatch { index: 0, value: 4 },
            BufferFinding::FirstNotZero { value: 4 },
            BufferFinding::IndexMismatch { index: 1, value: 5 },
        ]
    );
}

#[test]
fn increasing_check_stops_at_decrease() {
    assert_eq!(
        buffer_increasing_check(&vec![0, 1, 5, 2, 7]),
        vec![
            BufferFinding::IndexMismatch { index: 2, value: 5 },
            BufferFinding::IndexMismatch { index: 3, value: 2 },
            BufferFinding::Decreasing { index: 3 },
        ]
    );
}

#[test]
fn increasing_check_stops_at_zero() {
    assert_eq!(
        buffer_increasing_check(&vec![0, 0, 9]),
        vec![
            BufferFinding::IndexMismatch { index: 1, value: 0 },
            BufferFinding::ZeroEntry { index: 1 },
        ]
    );
}

#[test]
fn decode_uses_one_byte_order_for_all_words() {
    let words: Vec<u32> = (0..8u32).map(|i| 0x0102_0304u32.wrapping_mul(i + 1)).collect();
    assert_eq!(decode_words(&bytes_of(&words)), words);
}
