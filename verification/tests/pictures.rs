use rust_mnist::render::{render_image, IMAGE_COLUMNS, IMAGE_ROWS, IMAGE_SIZE};

fn expected(image: &[u8], label: &str) -> String {
    let mut text = format!("Sample image label: {} \nSample image:\n", label);
    for row in image.chunks(28) {
        for pixel in row {
            text.push_str(if *pixel == 0 { "__" } else { "##" });
        }
        text.push('\n');
    }
    text
}

#[test]
fn picture_dimensions() {
    assert_eq!(IMAGE_ROWS, 28);
    assert_eq!(IMAGE_COLUMNS, 28);
    assert_eq!(IMAGE_SIZE, 784);
}

#[test]
fn draws_an_empty_image() {
    let text = render_image(&[0u8; 784], 5);
    let line = "_".repeat(56) + "\n";
    assert_eq!(text, format!("Sample image label: 5 \nSample image:\n{}", line.repeat(28)));
}

#[test]
fn draws_a_full_image() {
    let text = render_image(&[255u8; 784], 0);
    let line = "#".repeat(56) + "\n";
    assert_eq!(text, format!("Sample image label: 0 \nSample image:\n{}", line.repeat(28)));
}

#[test]
fn draws_each_pixel_at_its_place() {
    let mut image = [0u8; 784];
    image[0] = 1;
    image[27] = 128;
    image[28] = 255;
    image[783] = 9;
    image[28 * 10 + 13] = 2;
    let text = render_image(&image, 3);
    assert_eq!(text, expected(&image, "3"));
    let lines: Vec<&str> = text.lines().collect();
    assert_eq!(lines.len(), 30);
    assert_eq!(lines[2], "##".to_string() + &"__".repeat(26) + "##");
    assert_eq!(lines[3], "##".to_string() + &"__".repeat(27));
    assert_eq!(lines[12], "__".repeat(13) + "##" + &"__".repeat(14));
    assert_eq!(lines[29], "__".repeat(27) + "##");
}

#[test]
fn draws_a_pattern() {
    let image: Vec<u8> = (0..784u32).map(|i| if i % 3 == 0 { 0 } else { (i % 256) as u8 }).collect();
    assert_eq!(render_image(&image, 42), expected(&image, "42"));
}

#[test]
fn writes_the_label_in_decimal() {
    let image = [0u8; 784];
    for label in [0u8, 1, 7, 9, 10, 11, 19, 42, 99, 100, 101, 110, 199, 200, 255] {
        let text = render_image(&image, label);
        assert_eq!(text, expected(&image, &label.to_string()));
        assert!(text.starts_with(&format!("Sample image label: {} \n", label)));
    }
}
