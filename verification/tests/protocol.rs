use ppm_steganography::error::SteganoError;
use ppm_steganography::protocol::{
    embed, ends_with_terminator, extract_pair, fold, frame, merge, pair_for_sample, unframe,
    TERMINATOR_0, TERMINATOR_1, TERMINATOR_2,
};

#[test]
fn terminator_is_sto() {
    assert_eq!([TERMINATOR_0, TERMINATOR_1, TERMINATOR_2], *b"STO");
}

#[test]
fn frame_appends_the_terminator() {
    assert_eq!(frame(b"Hi"), vec![0x48, 0x69, 0x53, 0x54, 0x4F]);
}

#[test]
fn frame_of_nothing_is_the_terminator() {
    assert_eq!(frame(b""), vec![0x53, 0x54, 0x4F]);
}

#[test]
fn frame_does_not_escape_a_terminator_in_the_payload() {
    assert_eq!(frame(b"STO"), b"STOSTO".to_vec());
}

#[test]
fn unframe_drops_three_bytes() {
    assert_eq!(unframe(b"HiSTO".to_vec()), b"Hi".to_vec());
    assert_eq!(unframe(b"STO".to_vec()), Vec::<u8>::new());
    assert_eq!(unframe(b"abcd".to_vec()), b"a".to_vec());
}

#[test]
fn unframe_of_less_than_three_bytes_is_empty() {
    assert_eq!(unframe(b"ab".to_vec()), Vec::<u8>::new());
    assert_eq!(unframe(Vec::new()), Vec::<u8>::new());
}

#[test]
fn unframe_undoes_frame() {
    let payload = vec![0u8, 255, 7, 0x53, 0x54];
    assert_eq!(unframe(frame(&payload)), payload);
}

#[test]
fn extract_pair_is_most_significant_first() {
    // 0b11_10_01_00
    assert_eq!(extract_pair(0xE4, 0), 3);
    assert_eq!(extract_pair(0xE4, 1), 2);
    assert_eq!(extract_pair(0xE4, 2), 1);
    assert_eq!(extract_pair(0xE4, 3), 0);
}

#[test]
fn extract_pair_of_s() {
    // 'S' = 0x53 = 0b01_01_00_11
    assert_eq!(extract_pair(0x53, 0), 1);
    assert_eq!(extract_pair(0x53, 1), 1);
    assert_eq!(extract_pair(0x53, 2), 0);
    assert_eq!(extract_pair(0x53, 3), 3);
}

#[test]
fn pair_for_sample_picks_byte_and_position() {
    let message = [0xE4u8, 0x1B];
    let pairs: Vec<u8> = (0..8).map(|i| pair_for_sample(&message, i)).collect();
    assert_eq!(pairs, vec![3, 2, 1, 0, 0, 1, 2, 3]);
}

#[test]
fn merge_replaces_the_low_two_bits() {
    assert_eq!(merge(0xFF, 0), 0xFC);
    assert_eq!(merge(0x00, 3), 0x03);
    assert_eq!(merge(0xAB, 1), 0xA9);
    assert_eq!(merge(0xAB, 2), 0xAA);
}

#[test]
fn fold_shifts_two_bits_in() {
    assert_eq!(fold(0, 0xFF), 3);
    assert_eq!(fold(3, 0xFE), 0x0E);
    assert_eq!(fold(0x0E, 0x01), 0x39);
    assert_eq!(fold(0x39, 0x00), 0xE4);
    // bits shifted out at the top are lost
    assert_eq!(fold(0xFF, 0), 0xFC);
}

#[test]
fn four_folds_rebuild_a_byte() {
    for byte in 0..=255u8 {
        let mut accumulator = 0u8;
        for position in 0..4 {
            accumulator = fold(accumulator, 0xA8 | extract_pair(byte, position));
        }
        assert_eq!(accumulator, byte);
    }
}

#[test]
fn ends_with_terminator_looks_at_the_last_three_bytes() {
    assert!(ends_with_terminator(&b"STO".to_vec()));
    assert!(ends_with_terminator(&b"xxSTO".to_vec()));
    assert!(!ends_with_terminator(&b"STOx".to_vec()));
    assert!(!ends_with_terminator(&b"TO".to_vec()));
    assert!(!ends_with_terminator(&Vec::new()));
    assert!(!ends_with_terminator(&b"OTS".to_vec()));
}

#[test]
fn embed_writes_pairs_into_the_low_bits() {
    let mut samples = vec![0xFFu8; 10];
    embed(&mut samples, &[0xE4, 0x1B]).unwrap();
    assert_eq!(
        samples,
        vec![0xFF, 0xFE, 0xFD, 0xFC, 0xFC, 0xFD, 0xFE, 0xFF, 0xFF, 0xFF]
    );
}

#[test]
fn embed_keeps_the_upper_six_bits() {
    let before: Vec<u8> = (0..40u8).map(|i| i.wrapping_mul(37).wrapping_add(11)).collect();
    let mut samples = before.clone();
    embed(&mut samples, &frame(b"secret")).unwrap();
    assert_eq!(samples.len(), before.len());
    for i in 0..before.len() {
        assert_eq!(samples[i] & 0xFC, before[i] & 0xFC);
    }
}

#[test]
fn embed_leaves_the_tail_untouched() {
    let before: Vec<u8> = (0..40u8).map(|i| i.wrapping_mul(37).wrapping_add(11)).collect();
    let mut samples = before.clone();
    let message = frame(b"ab");
    embed(&mut samples, &message).unwrap();
    assert_eq!(samples[message.len() * 4..], before[message.len() * 4..]);
}

#[test]
fn embed_of_nothing_changes_nothing() {
    let mut samples = vec![1u8, 2, 3];
    embed(&mut samples, &[]).unwrap();
    assert_eq!(samples, vec![1, 2, 3]);
}

#[test]
fn embed_may_fill_every_sample() {
    let mut samples = vec![0u8; 8];
    embed(&mut samples, &[0xFF, 0xFF]).unwrap();
    assert_eq!(samples, vec![3u8; 8]);
}

#[test]
fn embed_refuses_what_does_not_fit() {
    let mut samples = vec![9u8; 7];
    assert!(matches!(
        embed(&mut samples, &[0xFF, 0xFF]),
        Err(SteganoError::MessageTooLong)
    ));
    assert_eq!(samples, vec![9u8; 7]);
}
