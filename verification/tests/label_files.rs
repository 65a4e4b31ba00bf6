use rust_mnist::error::ErrorKind;
use rust_mnist::idx::{parse_labels, LabelBlock};

fn label_file(magic: u32, count: u32, labels: &[u8]) -> Vec<u8> {
    let mut bytes = Vec::new();
    bytes.extend_from_slice(&magic.to_be_bytes());
    bytes.extend_from_slice(&count.to_be_bytes());
    bytes.extend_from_slice(labels);
    bytes
}

#[test]
fn decodes_labels_in_file_order() {
    let bytes: Vec<u8> = vec![0x00, 0x00, 0x08, 0x01, 0x00, 0x00, 0x00, 0x03, 5, 0, 4];
    let block = parse_labels(&bytes).unwrap();
    assert_eq!(
        block,
        LabelBlock { magic_number: 2049, label_count: 3, labels: vec![5, 0, 4] }
    );
}

#[test]
fn label_file_round_trip() {
    let labels: Vec<u8> = (0..=255).collect();
    let bytes = label_file(0x0a0b_0c0d, 256, &labels);
    let block = parse_labels(&bytes).unwrap();
    assert_eq!(block.magic_number, 0x0a0b_0c0d);
    assert_eq!(block.label_count, 256);
    assert_eq!(block.labels, labels);
}

#[test]
fn label_count_and_file_length_agree() {
    let bytes = label_file(2049, 10, &[1, 2, 3, 4, 5, 6, 7, 8, 9, 0]);
    let block = parse_labels(&bytes).unwrap();
    assert_eq!(block.labels.len(), block.label_count as usize);
    assert_eq!(bytes.len(), 8 + block.label_count as usize);
}

#[test]
fn labels_are_not_range_checked() {
    let bytes = label_file(2049, 4, &[9, 10, 200, 255]);
    let block = parse_labels(&bytes).unwrap();
    assert_eq!(block.labels, vec![9, 10, 200, 255]);
}

#[test]
fn no_labels_decode_to_an_empty_block() {
    let bytes = label_file(2049, 0, &[]);
    let block = parse_labels(&bytes).unwrap();
    assert_eq!(block.label_count, 0);
    assert_eq!(block.labels, Vec::<u8>::new());
}

#[test]
fn short_label_header_is_truncated_header() {
    let bytes = label_file(2049, 0, &[]);
    for len in 0..8 {
        assert_eq!(parse_labels(&bytes[..len]), Err(ErrorKind::TruncatedHeader));
    }
    assert!(parse_labels(&bytes[..8]).is_ok());
}

#[test]
fn missing_labels_are_truncated_data() {
    let bytes = label_file(2049, 5, &[1, 2, 3, 4, 5]);
    for len in 8..bytes.len() {
        assert_eq!(parse_labels(&bytes[..len]), Err(ErrorKind::TruncatedData));
    }
    assert!(parse_labels(&bytes).is_ok());
    let bytes = label_file(2049, u32::MAX, &[1, 2, 3]);
    assert_eq!(parse_labels(&bytes), Err(ErrorKind::TruncatedData));
}

#[test]
fn bytes_after_the_last_label_are_ignored() {
    let bytes = label_file(2049, 2, &[1, 2, 3]);
    let block = parse_labels(&bytes).unwrap();
    assert_eq!(block.labels, vec![1, 2]);
}
