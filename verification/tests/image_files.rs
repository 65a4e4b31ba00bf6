use rust_mnist::error::ErrorKind;
use rust_mnist::idx::{parse_images, ImageBlock};

fn image_file(magic: u32, count: u32, rows: u32, cols: u32, pixels: &[u8]) -> Vec<u8> {
    let mut bytes = Vec::new();
    bytes.extend_from_slice(&magic.to_be_bytes());
    bytes.extend_from_slice(&count.to_be_bytes());
    bytes.extend_from_slice(&rows.to_be_bytes());
    bytes.extend_from_slice(&cols.to_be_bytes());
    bytes.extend_from_slice(pixels);
    bytes
}

#[test]
fn decodes_two_images_of_two_by_two() {
    let bytes: Vec<u8> = vec![
        0x00, 0x00, 0x08, 0x03, 0x00, 0x00, 0x00, 0x02, 0x00, 0x00, 0x00, 0x02, 0x00, 0x00, 0x00,
        0x02, 1, 2, 3, 4, 5, 6, 7, 8,
    ];
    let block = parse_images(&bytes).unwrap();
    assert_eq!(block.magic_number, 2051);
    assert_eq!(block.image_count, 2);
    assert_eq!(block.rows, 2);
    assert_eq!(block.cols, 2);
    assert_eq!(block.images, vec![vec![1u8, 2, 3, 4], vec![5u8, 6, 7, 8]]);
}

#[test]
fn header_is_read_most_significant_byte_first() {
    let bytes: Vec<u8> = vec![
        0x01, 0x02, 0x03, 0x04, 0x00, 0x00, 0x00, 0x00, 0xff, 0xfe, 0xfd, 0xfc, 0x80, 0x00, 0x00,
        0x01,
    ];
    let block = parse_images(&bytes).unwrap();
    assert_eq!(block.magic_number, 0x0102_0304);
    assert_eq!(block.image_count, 0);
    assert_eq!(block.rows, 0xfffe_fdfc);
    assert_eq!(block.cols, 0x8000_0001);
    assert!(block.images.is_empty());
}

#[test]
fn image_file_round_trip() {
    let pixels: Vec<u8> = (0..3 * 5 * 7).map(|i| (i * 37 % 256) as u8).collect();
    let bytes = image_file(0xdead_beef, 3, 5, 7, &pixels);
    let block = parse_images(&bytes).unwrap();
    assert_eq!(
        block,
        ImageBlock {
            magic_number: 0xdead_beef,
            image_count: 3,
            rows: 5,
            cols: 7,
            images: vec![pixels[0..35].to_vec(), pixels[35..70].to_vec(), pixels[70..105].to_vec()],
        }
    );
    assert_eq!(block.images.concat(), pixels);
}

#[test]
fn image_count_and_file_length_agree() {
    let pixels = vec![9u8; 4 * 3 * 2];
    let bytes = image_file(2051, 4, 3, 2, &pixels);
    let block = parse_images(&bytes).unwrap();
    assert_eq!(block.images.len(), block.image_count as usize);
    assert_eq!(
        bytes.len(),
        16 + block.image_count as usize * block.rows as usize * block.cols as usize
    );
    for image in &block.images {
        assert_eq!(image.len(), 6);
    }
}

#[test]
fn no_images_decode_to_an_empty_block() {
    for (rows, cols) in [(0u32, 0u32), (28, 28), (1, 0), (u32::MAX, u32::MAX)] {
        let bytes = image_file(2051, 0, rows, cols, &[]);
        let block = parse_images(&bytes).unwrap();
        assert_eq!(block.image_count, 0);
        assert_eq!(block.rows, rows);
        assert_eq!(block.cols, cols);
        assert_eq!(block.images, Vec::<Vec<u8>>::new());
    }
}

#[test]
fn images_without_pixels() {
    let bytes = image_file(2051, 3, 0, 28, &[]);
    let block = parse_images(&bytes).unwrap();
    assert_eq!(block.images, vec![Vec::<u8>::new(), Vec::new(), Vec::new()]);
}

#[test]
fn short_image_header_is_truncated_header() {
    assert_eq!(parse_images(&[]), Err(ErrorKind::TruncatedHeader));
    let bytes = image_file(2051, 0, 28, 28, &[]);
    for len in 0..16 {
        assert_eq!(parse_images(&bytes[..len]), Err(ErrorKind::TruncatedHeader));
    }
    assert!(parse_images(&bytes[..16]).is_ok());
}

#[test]
fn missing_pixels_are_truncated_data() {
    let bytes = image_file(2051, 2, 2, 2, &[1, 2, 3, 4, 5, 6, 7, 8]);
    for len in 16..bytes.len() {
        assert_eq!(parse_images(&bytes[..len]), Err(ErrorKind::TruncatedData));
    }
    assert!(parse_images(&bytes).is_ok());
}

#[test]
fn a_header_that_promises_more_than_memory_is_truncated_data() {
    let bytes = image_file(2051, u32::MAX, u32::MAX, u32::MAX, &[0; 64]);
    assert_eq!(parse_images(&bytes), Err(ErrorKind::TruncatedData));
    let bytes = image_file(2051, 1, 0x1_0000, 0x1_0000, &[0; 64]);
    assert_eq!(parse_images(&bytes), Err(ErrorKind::TruncatedData));
}

#[test]
fn bytes_after_the_last_image_are_ignored() {
    let bytes = image_file(7, 1, 1, 2, &[10, 20, 30, 40]);
    let block = parse_images(&bytes).unwrap();
    assert_eq!(block.images, vec![vec![10u8, 20]]);
}

#[test]
fn image_header_fields_are_not_validated() {
    let bytes = image_file(0, 1, 3, 1, &[1, 2, 3]);
    let block = parse_images(&bytes).unwrap();
    assert_eq!(block.magic_number, 0);
    assert_eq!(block.images, vec![vec![1u8, 2, 3]]);
}
