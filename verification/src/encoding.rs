//! The file format read the other way round: the bytes of the file that
//! holds a given block, and the proof that decoding them gives the block
//! back.

use vstd::prelude::*;
use crate::error::ErrorKind;
use crate::idx::{
    be_u32, decode_images, decode_labels, image_data_len, is_image_file, is_label_file, record,
    ImageBlockView, LabelBlockView,
};

verus! {

/// The four bytes that encode `value`, most significant byte first.
pub open spec fn be_bytes(value: u32) -> Seq<u8> {
    seq![
        (value / 0x100_0000) as u8,
        (value / 0x1_0000 % 0x100) as u8,
        (value / 0x100 % 0x100) as u8,
        (value % 0x100) as u8,
    ]
}

/// The image file that holds `block`: the four header fields, then the
/// images one after the other.
pub open spec fn encode_images(block: ImageBlockView) -> Seq<u8> {
    be_bytes(block.magic_number) + be_bytes(block.image_count) + be_bytes(block.rows) + be_bytes(
        block.cols,
    ) + block.images.flatten()
}

/// The label file that holds `block`: the two header fields, then the
/// labels.
pub open spec fn encode_labels(block: LabelBlockView) -> Seq<u8> {
    be_bytes(block.magic_number) + be_bytes(block.label_count) + block.labels
}

/// The four bytes of `value` encode `value`.
proof fn lemma_base_256_value(value: u32)
    ensures
        (value / 0x100_0000) * 0x100_0000 + (value / 0x1_0000 % 0x100) * 0x1_0000 + (value / 0x100
            % 0x100) * 0x100 + value % 0x100 == value,
        value / 0x100_0000 < 0x100,
{
    let top = value as int / 0x1_0000;
    let mid = value as int / 0x100;
    assert(mid == (mid / 0x100) * 0x100 + mid % 0x100);
    assert(mid / 0x100 == top);
    assert(top == (top / 0x100) * 0x100 + top % 0x100);
    assert(top / 0x100 == value as int / 0x100_0000);
}

/// Reading the four bytes of `value` back gives `value`, wherever in a file
/// they stand.
proof fn lemma_be_u32_of_be_bytes(bytes: Seq<u8>, at: int, value: u32)
    requires
        0 <= at,
        at + 4 <= bytes.len(),
        bytes.subrange(at, at + 4) == be_bytes(value),
    ensures
        be_u32(bytes, at) == value,
{
    lemma_base_256_value(value);
    let field = bytes.subrange(at, at + 4);
    assert(bytes[at] == field[0]);
    assert(bytes[at + 1] == field[1]);
    assert(bytes[at + 2] == field[2]);
    assert(bytes[at + 3] == field[3]);
}

/// The integer that four bytes encode fits in 32 bits, and its digits to the
/// base 256 are those bytes.
proof fn lemma_base_256_digits(b0: int, b1: int, b2: int, b3: int)
    requires
        0 <= b0 < 0x100,
        0 <= b1 < 0x100,
        0 <= b2 < 0x100,
        0 <= b3 < 0x100,
    ensures
        ({
            let value = b0 * 0x100_0000 + b1 * 0x1_0000 + b2 * 0x100 + b3;
            &&& 0 <= value <= 0xffff_ffff
            &&& value / 0x100_0000 == b0
            &&& value / 0x1_0000 % 0x100 == b1
            &&& value / 0x100 % 0x100 == b2
            &&& value % 0x100 == b3
        }),
{
    let value = b0 * 0x100_0000 + b1 * 0x1_0000 + b2 * 0x100 + b3;
    assert(value == (b0 * 0x1_0000 + b1 * 0x100 + b2) * 0x100 + b3);
    assert(value / 0x100 == b0 * 0x1_0000 + b1 * 0x100 + b2);
    assert(value / 0x1_0000 == b0 * 0x100 + b1);
}

/// Writing out the integer that four bytes of a file encode gives those four
/// bytes.
proof fn lemma_be_bytes_of_be_u32(bytes: Seq<u8>, at: int)
    requires
        0 <= at,
        at + 4 <= bytes.len(),
    ensures
        0 <= be_u32(bytes, at) <= u32::MAX,
        be_bytes(be_u32(bytes, at) as u32) == bytes.subrange(at, at + 4),
{
    lemma_base_256_digits(
        bytes[at] as int,
        bytes[at + 1] as int,
        bytes[at + 2] as int,
        bytes[at + 3] as int,
    );
    let written = be_bytes(be_u32(bytes, at) as u32);
    let field = bytes.subrange(at, at + 4);
    assert(written.len() == 4 && field.len() == 4);
    assert(written[0] == field[0]);
    assert(written[1] == field[1]);
    assert(written[2] == field[2]);
    assert(written[3] == field[3]);
    assert(written =~= field);
}

/// Rows of `len` items each flatten to `rows.len() * len` items.
proof fn lemma_flatten_len(rows: Seq<Seq<u8>>, len: int)
    requires
        forall|k: int| 0 <= k < rows.len() ==> (#[trigger] rows[k]).len() == len,
    ensures
        rows.flatten().len() == rows.len() * len,
    decreases rows.len(),
{
    if rows.len() == 0 {
        assert(0 * len == 0) by (nonlinear_arith);
    } else {
        let rest = rows.drop_first();
        assert forall|k: int| 0 <= k < rest.len() implies (#[trigger] rest[k]).len() == len by {
            assert(rest[k] == rows[k + 1]);
        }
        lemma_flatten_len(rest, len);
        assert(rows.first().len() == len);
        assert((rest.len() + 1) * len == rest.len() * len + len) by (nonlinear_arith);
    }
}

/// Rows of `len` items each flatten to a sequence whose `i`-th stretch of
/// `len` items is row `i`.
proof fn lemma_flatten_row(rows: Seq<Seq<u8>>, len: int, i: int)
    requires
        forall|k: int| 0 <= k < rows.len() ==> (#[trigger] rows[k]).len() == len,
        0 <= i < rows.len(),
    ensures
        0 <= i * len,
        (i + 1) * len <= rows.flatten().len(),
        rows.flatten().subrange(i * len, (i + 1) * len) == rows[i],
    decreases i,
{
    let rest = rows.drop_first();
    assert(rows.first().len() == len);
    assert forall|k: int| 0 <= k < rest.len() implies (#[trigger] rest[k]).len() == len by {
        assert(rest[k] == rows[k + 1]);
    }
    lemma_flatten_len(rest, len);
    assert(0 <= rest.len() * len) by (nonlinear_arith)
        requires
            0 <= rest.len(),
            0 <= len,
    ;
    if i == 0 {
        assert(0 * len == 0 && (0 + 1) * len == len) by (nonlinear_arith);
        assert(rows.flatten().subrange(0, len) =~= rows[0]);
    } else {
        lemma_flatten_row(rest, len, i - 1);
        assert((i - 1) * len + len == i * len && i * len + len == (i + 1) * len)
            by (nonlinear_arith);
        assert(rows.flatten().subrange(i * len, (i + 1) * len) =~= rest.flatten().subrange(
            (i - 1) * len,
            i * len,
        ));
        assert(rest[i - 1] == rows[i]);
    }
}

/// The first `n` records of a file, one after the other, are the bytes that
/// follow its header up to the end of record `n - 1`.
proof fn lemma_records_flatten(bytes: Seq<u8>, len: int, n: nat)
    requires
        0 <= len,
        16 + n * len <= bytes.len(),
    ensures
        Seq::new(n, |i: int| record(bytes, 16, len, i)).flatten() == bytes.subrange(
            16,
            16 + n * len,
        ),
    decreases n,
{
    let all = Seq::new(n, |i: int| record(bytes, 16, len, i));
    if n == 0 {
        assert(0 * len == 0) by (nonlinear_arith);
        assert(all.flatten() =~= bytes.subrange(16, 16));
    } else {
        let before = Seq::new((n - 1) as nat, |i: int| record(bytes, 16, len, i));
        let last = record(bytes, 16, len, n - 1);
        assert((n - 1) * len + len == n * len && 0 <= (n - 1) * len) by (nonlinear_arith)
            requires
                0 <= len,
                1 <= n,
        ;
        assert(all =~= before.push(last));
        before.lemma_flatten_push(last);
        lemma_records_flatten(bytes, len, (n - 1) as nat);
        assert(bytes.subrange(16, 16 + (n - 1) * len) + last =~= bytes.subrange(16, 16 + n * len));
    }
}

/// The file that holds a well-formed block is 16 bytes longer than
/// `image_count * rows * cols`.
pub proof fn lemma_encoded_images_len(block: ImageBlockView)
    requires
        block.wf(),
    ensures
        encode_images(block).len() == 16 + block.image_count * block.rows * block.cols,
{
    lemma_flatten_len(block.images, block.rows * block.cols);
    assert(block.image_count * (block.rows * block.cols) == block.image_count * block.rows
        * block.cols) by (nonlinear_arith);
}

/// The file that holds `block` starts with the four header fields, and the
/// rest of it is the images one after the other.
proof fn lemma_encoded_image_header(block: ImageBlockView)
    ensures
        encode_images(block).len() == 16 + block.images.flatten().len(),
        be_u32(encode_images(block), 0) == block.magic_number,
        be_u32(encode_images(block), 4) == block.image_count,
        be_u32(encode_images(block), 8) == block.rows,
        be_u32(encode_images(block), 12) == block.cols,
        encode_images(block).skip(16) == block.images.flatten(),
{
    let bytes = encode_images(block);
    assert(bytes.subrange(0, 4) =~= be_bytes(block.magic_number));
    assert(bytes.subrange(4, 8) =~= be_bytes(block.image_count));
    assert(bytes.subrange(8, 12) =~= be_bytes(block.rows));
    assert(bytes.subrange(12, 16) =~= be_bytes(block.cols));
    lemma_be_u32_of_be_bytes(bytes, 0, block.magic_number);
    lemma_be_u32_of_be_bytes(bytes, 4, block.image_count);
    lemma_be_u32_of_be_bytes(bytes, 8, block.rows);
    lemma_be_u32_of_be_bytes(bytes, 12, block.cols);
    assert(bytes.skip(16) =~= block.images.flatten());
}

/// Record `i` of a file is the `i`-th stretch of what follows its header.
proof fn lemma_record_of_rest(bytes: Seq<u8>, len: int, i: int)
    requires
        0 <= i * len,
        i * len <= (i + 1) * len,
        16 + (i + 1) * len <= bytes.len(),
    ensures
        record(bytes, 16, len, i) == bytes.skip(16).subrange(i * len, (i + 1) * len),
{
    assert(record(bytes, 16, len, i) =~= bytes.skip(16).subrange(i * len, (i + 1) * len));
}

/// Encoding an image block and decoding the file gives the block back:
/// header fields and pixels, unchanged.
pub proof fn lemma_image_round_trip(block: ImageBlockView)
    requires
        block.wf(),
    ensures
        decode_images(encode_images(block)) == Ok::<ImageBlockView, ErrorKind>(block),
        is_image_file(encode_images(block)),
{
    let bytes = encode_images(block);
    let len = block.rows * block.cols;
    lemma_encoded_image_header(block);
    lemma_flatten_len(block.images, len);
    assert(image_data_len(bytes) == block.image_count * len);
    assert(bytes.len() == 16 + image_data_len(bytes));
    let decoded = decode_images(bytes)->Ok_0;
    assert(decoded.images.len() == block.images.len());
    assert forall|i: int| 0 <= i < block.image_count implies #[trigger] decoded.images[i]
        == block.images[i] by {
        lemma_flatten_row(block.images, len, i);
        assert(i * len <= (i + 1) * len) by (nonlinear_arith)
            requires
                0 <= len,
        ;
        lemma_record_of_rest(bytes, len, i);
    }
    assert(decoded.images =~= block.images);
}

/// Encoding a label block and decoding the file gives the block back: header
/// fields and labels, unchanged.
pub proof fn lemma_label_round_trip(block: LabelBlockView)
    requires
        block.wf(),
    ensures
        decode_labels(encode_labels(block)) == Ok::<LabelBlockView, ErrorKind>(block),
        is_label_file(encode_labels(block)),
        encode_labels(block).len() == 8 + block.label_count,
{
    let bytes = encode_labels(block);
    assert(bytes.subrange(0, 4) =~= be_bytes(block.magic_number));
    assert(bytes.subrange(4, 8) =~= be_bytes(block.label_count));
    lemma_be_u32_of_be_bytes(bytes, 0, block.magic_number);
    lemma_be_u32_of_be_bytes(bytes, 4, block.label_count);
    assert(decode_labels(bytes)->Ok_0.labels =~= block.labels);
}

/// An image file is the encoding of the block that it decodes to: nothing of
/// it is lost in decoding.
pub proof fn lemma_image_file_is_encoding(bytes: Seq<u8>)
    requires
        is_image_file(bytes),
    ensures
        decode_images(bytes) matches Ok(block) && encode_images(block) == bytes,
{
    let block = decode_images(bytes)->Ok_0;
    let len = be_u32(bytes, 8) * be_u32(bytes, 12);
    lemma_be_bytes_of_be_u32(bytes, 0);
    lemma_be_bytes_of_be_u32(bytes, 4);
    lemma_be_bytes_of_be_u32(bytes, 8);
    lemma_be_bytes_of_be_u32(bytes, 12);
    assert(0 <= len) by (nonlinear_arith)
        requires
            0 <= be_u32(bytes, 8),
            0 <= be_u32(bytes, 12),
            len == be_u32(bytes, 8) * be_u32(bytes, 12),
    ;
    lemma_records_flatten(bytes, len, be_u32(bytes, 4) as nat);
    assert(block.images =~= Seq::new(be_u32(bytes, 4) as nat, |i: int| record(bytes, 16, len, i)));
    assert(encode_images(block) =~= bytes.subrange(0, 4) + bytes.subrange(4, 8) + bytes.subrange(
        8,
        12,
    ) + bytes.subrange(12, 16) + bytes.subrange(16, bytes.len() as int));
    assert(encode_images(block) =~= bytes);
}

/// A label file is the encoding of the block that it decodes to: nothing of
/// it is lost in decoding.
pub proof fn lemma_label_file_is_encoding(bytes: Seq<u8>)
    requires
        is_label_file(bytes),
    ensures
        decode_labels(bytes) matches Ok(block) && encode_labels(block) == bytes,
{
    let block = decode_labels(bytes)->Ok_0;
    lemma_be_bytes_of_be_u32(bytes, 0);
    lemma_be_bytes_of_be_u32(bytes, 4);
    assert(encode_labels(block) =~= bytes.subrange(0, 4) + bytes.subrange(4, 8) + bytes.subrange(
        8,
        bytes.len() as int,
    ));
    assert(encode_labels(block) =~= bytes);
}

} // verus!
