//! The IDX file format, as far as the dataset uses it: a header of big-endian
//! 32-bit integers followed by the records, with nothing in between.
//!
//! An image file has four header fields (magic number, image count, rows,
//! columns) and then one block of `rows * cols` bytes for each image. A label
//! file has two (magic number, label count) and then one byte for each label.
//! The decoders ask only that the bytes are there: what the fields ought to
//! be is the business of whoever assembles a dataset.

use vstd::prelude::*;
use crate::error::ErrorKind;

verus! {

/// The number of bytes in the header of an image file.
pub const IMAGE_HEADER_LEN: usize = 16;

/// The number of bytes in the header of a label file.
pub const LABEL_HEADER_LEN: usize = 8;

/// The unsigned integer that the four bytes from `at` on encode, most
/// significant byte first.
pub open spec fn be_u32(bytes: Seq<u8>, at: int) -> int {
    bytes[at] * 0x100_0000 + bytes[at + 1] * 0x1_0000 + bytes[at + 2] * 0x100 + bytes[at + 3]
}

/// Reads the big-endian integer at `at`.
fn read_be_u32(bytes: &[u8], at: usize) -> (value: u32)
    requires
        at + 4 <= bytes@.len(),
    ensures
        value == be_u32(bytes@, at as int),
{
    let b0: u32 = bytes[at] as u32;
    let b1: u32 = bytes[at + 1] as u32;
    let b2: u32 = bytes[at + 2] as u32;
    let b3: u32 = bytes[at + 3] as u32;
    b0 * 0x100_0000 + b1 * 0x1_0000 + b2 * 0x100 + b3
}

/// A decoded image file: the header fields as they stand in the file, and
/// the images in file order, each `rows * cols` bytes long.
#[derive(Clone, Debug, PartialEq, Eq)]
pub struct ImageBlock {
    /// The format tag that the file starts with.
    pub magic_number: u32,
    /// The number of images that the header declares.
    pub image_count: u32,
    /// The number of pixel rows of each image.
    pub rows: u32,
    /// The number of pixel columns of each image.
    pub cols: u32,
    /// The images, one buffer of `rows * cols` pixels each.
    pub images: Vec<Vec<u8>>,
}

/// What an [`ImageBlock`] holds, as mathematical values.
pub struct ImageBlockView {
    /// The format tag that the file starts with.
    pub magic_number: u32,
    /// The number of images that the header declares.
    pub image_count: u32,
    /// The number of pixel rows of each image.
    pub rows: u32,
    /// The number of pixel columns of each image.
    pub cols: u32,
    /// The images, in file order.
    pub images: Seq<Seq<u8>>,
}

impl ImageBlockView {
    /// There are as many images as the header says, each of them
    /// `rows * cols` bytes long.
    pub open spec fn wf(self) -> bool {
        &&& self.images.len() == self.image_count
        &&& forall|i: int|
            0 <= i < self.images.len() ==> (#[trigger] self.images[i]).len() == self.rows
                * self.cols
    }
}

/// The sequence of byte sequences that a vector of byte vectors holds.
pub open spec fn pixel_rows(images: Vec<Vec<u8>>) -> Seq<Seq<u8>> {
    Seq::new(images@.len(), |i: int| images@[i]@)
}

impl View for ImageBlock {
    type V = ImageBlockView;

    open spec fn view(&self) -> ImageBlockView {
        ImageBlockView {
            magic_number: self.magic_number,
            image_count: self.image_count,
            rows: self.rows,
            cols: self.cols,
            images: pixel_rows(self.images),
        }
    }
}

/// The number of record bytes that the header of the image file `bytes`
/// declares: image count times rows times columns.
pub open spec fn image_data_len(bytes: Seq<u8>) -> int {
    be_u32(bytes, 4) * (be_u32(bytes, 8) * be_u32(bytes, 12))
}

/// The `i`-th record of `len` bytes after a header of `header` bytes.
pub open spec fn record(bytes: Seq<u8>, header: int, len: int, i: int) -> Seq<u8> {
    bytes.subrange(header + i * len, header + (i + 1) * len)
}

/// What the image file `bytes` decodes to.
///
/// Fewer than 16 bytes cannot hold the header. Fewer bytes after the header
/// than it declares cannot hold the images. Otherwise the fields are the four
/// big-endian integers of the header and image `i` is the `i`-th block of
/// `rows * cols` bytes after it. Bytes beyond the last image are not looked
/// at.
pub open spec fn decode_images(bytes: Seq<u8>) -> Result<ImageBlockView, ErrorKind> {
    if bytes.len() < 16 {
        Err(ErrorKind::TruncatedHeader)
    } else if bytes.len() < 16 + image_data_len(bytes) {
        Err(ErrorKind::TruncatedData)
    } else {
        let len = be_u32(bytes, 8) * be_u32(bytes, 12);
        Ok(
            ImageBlockView {
                magic_number: be_u32(bytes, 0) as u32,
                image_count: be_u32(bytes, 4) as u32,
                rows: be_u32(bytes, 8) as u32,
                cols: be_u32(bytes, 12) as u32,
                images: Seq::new(be_u32(bytes, 4) as nat, |i: int| record(bytes, 16, len, i)),
            },
        )
    }
}

/// Record `i` of `count` records of `len` bytes each ends where record
/// `i + 1` begins, and no later than the last one ends.
proof fn lemma_record_bounds(i: int, count: int, len: int)
    by (nonlinear_arith)
    requires
        0 <= i < count,
        0 <= len,
    ensures
        0 <= i * len,
        (i + 1) * len == i * len + len,
        (i + 1) * len <= count * len,
        len <= count * len,
{
}

/// Whatever an image file decodes to is well formed: it has as many images
/// as its header declares, and each is `rows * cols` bytes long.
pub proof fn lemma_decoded_images_wf(bytes: Seq<u8>)
    ensures
        decode_images(bytes) matches Ok(block) ==> block.wf(),
{
    if let Ok(block) = decode_images(bytes) {
        let count = be_u32(bytes, 4);
        let len = be_u32(bytes, 8) * be_u32(bytes, 12);
        assert(0 <= len) by (nonlinear_arith)
            requires
                0 <= be_u32(bytes, 8),
                0 <= be_u32(bytes, 12),
                len == be_u32(bytes, 8) * be_u32(bytes, 12),
        ;
        assert forall|i: int| 0 <= i < block.images.len() implies (#[trigger] block.images[i]).len()
            == block.rows * block.cols by {
            lemma_record_bounds(i, count, len);
        }
    }
}

/// Decodes an image file.
///
/// Returns `TruncatedHeader` for fewer than 16 bytes, `TruncatedData` where
/// fewer bytes follow the header than `image_count * rows * cols`, and the
/// decoded block otherwise. The header fields are not compared with
/// anything.
pub fn parse_images(bytes: &[u8]) -> (res: Result<ImageBlock, ErrorKind>)
    ensures
        match res {
            Ok(block) => decode_images(bytes@) == Ok::<ImageBlockView, ErrorKind>(block@),
            Err(kind) => decode_images(bytes@) == Err::<ImageBlockView, ErrorKind>(kind),
        },
        res is Ok <==> bytes@.len() >= 16 + image_data_len(bytes@) && bytes@.len() >= 16,
        res == Err::<ImageBlock, ErrorKind>(ErrorKind::TruncatedHeader) <==> bytes@.len() < 16,
        res == Err::<ImageBlock, ErrorKind>(ErrorKind::TruncatedData) <==> 16 <= bytes@.len() < 16
            + image_data_len(bytes@),
        res matches Ok(block) ==> block@.wf(),
{
    if bytes.len() < IMAGE_HEADER_LEN {
        return Err(ErrorKind::TruncatedHeader);
    }
    let magic_number = read_be_u32(bytes, 0);
    let image_count = read_be_u32(bytes, 4);
    let rows = read_be_u32(bytes, 8);
    let cols = read_be_u32(bytes, 12);
    assert(rows * cols <= 0xffff_ffff * 0xffff_ffff) by (nonlinear_arith)
        requires
            0 <= rows <= 0xffff_ffff,
            0 <= cols <= 0xffff_ffff,
    ;
    let len: u64 = rows as u64 * cols as u64;
    assert(image_count * len <= 0xffff_ffff * 0xffff_ffff_ffff_ffff) by (nonlinear_arith)
        requires
            0 <= image_count <= 0xffff_ffff,
            0 <= len <= 0xffff_ffff_ffff_ffff,
    ;
    let total: u128 = image_count as u128 * len as u128;
    assert(total == image_data_len(bytes@));
    if total > (bytes.len() - IMAGE_HEADER_LEN) as u128 {
        return Err(ErrorKind::TruncatedData);
    }
    let mut images: Vec<Vec<u8>> = Vec::new();
    let mut done: u32 = 0;
    let mut at: usize = IMAGE_HEADER_LEN;
    while done < image_count
        invariant
            done <= image_count,
            at == 16 + done * len,
            16 + image_count * len <= bytes@.len() <= usize::MAX,
            images@.len() == done,
            forall|i: int|
                0 <= i < done ==> (#[trigger] images@[i])@ == record(bytes@, 16, len as int, i),
        decreases image_count - done,
    {
        proof {
            lemma_record_bounds(done as int, image_count as int, len as int);
        }
        let step: usize = len as usize;
        let image = vstd::slice::slice_to_vec(vstd::slice::slice_subrange(bytes, at, at + step));
        images.push(image);
        at = at + step;
        done = done + 1;
    }
    let block = ImageBlock { magic_number, image_count, rows, cols, images };
    proof {
        let expected = decode_images(bytes@)->Ok_0;
        assert(block@.images =~~= expected.images);
        assert(block@ == expected);
        lemma_decoded_images_wf(bytes@);
    }
    Ok(block)
}

/// Whether `bytes` is an image file and nothing more: it decodes, and no
/// byte follows its last image.
pub open spec fn is_image_file(bytes: Seq<u8>) -> bool {
    decode_images(bytes) is Ok && bytes.len() <= 16 + image_data_len(bytes)
}

/// An image file decodes to as many images as its header declares, and is
/// 16 bytes longer than `image_count * rows * cols`.
pub proof fn lemma_image_file_lengths(bytes: Seq<u8>)
    requires
        is_image_file(bytes),
    ensures
        decode_images(bytes) matches Ok(block) && block.images.len() == block.image_count
            && bytes.len() == 16 + block.image_count * block.rows * block.cols,
{
    let count = be_u32(bytes, 4);
    let rows = be_u32(bytes, 8);
    let cols = be_u32(bytes, 12);
    assert(count * (rows * cols) == count * rows * cols) by (nonlinear_arith);
}

/// A file whose header declares no images decodes to an empty sequence of
/// images, whatever rows and columns it declares and whatever follows the
/// header.
pub proof fn lemma_no_images(bytes: Seq<u8>)
    requires
        bytes.len() >= 16,
        be_u32(bytes, 4) == 0,
    ensures
        decode_images(bytes) matches Ok(block) && block.images == Seq::<Seq<u8>>::empty(),
{
    let len = be_u32(bytes, 8) * be_u32(bytes, 12);
    assert(0 * len == 0) by (nonlinear_arith);
    assert(decode_images(bytes)->Ok_0.images =~= Seq::<Seq<u8>>::empty());
}

/// Every pixel of a decoded image is the byte of the file at its place:
/// pixel `j` of image `i` is byte `16 + i * rows * cols + j`.
pub proof fn lemma_pixels_are_file_bytes(bytes: Seq<u8>, i: int, j: int)
    requires
        decode_images(bytes) matches Ok(block) && 0 <= i < block.image_count && 0 <= j
            < block.rows * block.cols,
    ensures
        decode_images(bytes) matches Ok(block) && block.images[i][j] == bytes[16 + i * (block.rows
            * block.cols) + j],
{
    let len = be_u32(bytes, 8) * be_u32(bytes, 12);
    lemma_record_bounds(i, be_u32(bytes, 4), len);
}

/// A decoded label file: the header fields as they stand in the file, and
/// the labels in file order.
#[derive(Clone, Debug, PartialEq, Eq)]
pub struct LabelBlock {
    /// The format tag that the file starts with.
    pub magic_number: u32,
    /// The number of labels that the header declares.
    pub label_count: u32,
    /// The labels, one byte each.
    pub labels: Vec<u8>,
}

/// What a [`LabelBlock`] holds, as mathematical values.
pub struct LabelBlockView {
    /// The format tag that the file starts with.
    pub magic_number: u32,
    /// The number of labels that the header declares.
    pub label_count: u32,
    /// The labels, in file order.
    pub labels: Seq<u8>,
}

impl LabelBlockView {
    /// There are as many labels as the header says.
    pub open spec fn wf(self) -> bool {
        self.labels.len() == self.label_count
    }
}

impl View for LabelBlock {
    type V = LabelBlockView;

    open spec fn view(&self) -> LabelBlockView {
        LabelBlockView {
            magic_number: self.magic_number,
            label_count: self.label_count,
            labels: self.labels@,
        }
    }
}

/// What the label file `bytes` decodes to.
///
/// Fewer than 8 bytes cannot hold the header. Fewer bytes after the header
/// than it declares cannot hold the labels. Otherwise the fields are the two
/// big-endian integers of the header and the labels are the bytes that
/// follow it, one each and as they are. Bytes beyond the last label are not
/// looked at.
pub open spec fn decode_labels(bytes: Seq<u8>) -> Result<LabelBlockView, ErrorKind> {
    if bytes.len() < 8 {
        Err(ErrorKind::TruncatedHeader)
    } else if bytes.len() < 8 + be_u32(bytes, 4) {
        Err(ErrorKind::TruncatedData)
    } else {
        Ok(
            LabelBlockView {
                magic_number: be_u32(bytes, 0) as u32,
                label_count: be_u32(bytes, 4) as u32,
                labels: bytes.subrange(8, 8 + be_u32(bytes, 4)),
            },
        )
    }
}

/// Decodes a label file.
///
/// Returns `TruncatedHeader` for fewer than 8 bytes, `TruncatedData` where
/// fewer bytes follow the header than `label_count`, and the decoded block
/// otherwise. Neither the header fields nor the labels are compared with
/// anything: a label is whatever byte the file holds.
pub fn parse_labels(bytes: &[u8]) -> (res: Result<LabelBlock, ErrorKind>)
    ensures
        match res {
            Ok(block) => decode_labels(bytes@) == Ok::<LabelBlockView, ErrorKind>(block@),
            Err(kind) => decode_labels(bytes@) == Err::<LabelBlockView, ErrorKind>(kind),
        },
        res is Ok <==> bytes@.len() >= 8 + be_u32(bytes@, 4) && bytes@.len() >= 8,
        res == Err::<LabelBlock, ErrorKind>(ErrorKind::TruncatedHeader) <==> bytes@.len() < 8,
        res == Err::<LabelBlock, ErrorKind>(ErrorKind::TruncatedData) <==> 8 <= bytes@.len() < 8
            + be_u32(bytes@, 4),
        res matches Ok(block) ==> block@.wf(),
{
    if bytes.len() < LABEL_HEADER_LEN {
        return Err(ErrorKind::TruncatedHeader);
    }
    let magic_number = read_be_u32(bytes, 0);
    let label_count = read_be_u32(bytes, 4);
    if label_count as u64 > (bytes.len() - LABEL_HEADER_LEN) as u64 {
        return Err(ErrorKind::TruncatedData);
    }
    let end: usize = LABEL_HEADER_LEN + label_count as usize;
    let labels = vstd::slice::slice_to_vec(vstd::slice::slice_subrange(bytes, LABEL_HEADER_LEN, end));
    Ok(LabelBlock { magic_number, label_count, labels })
}

/// Whether `bytes` is a label file and nothing more: it decodes, and no byte
/// follows its last label.
pub open spec fn is_label_file(bytes: Seq<u8>) -> bool {
    decode_labels(bytes) is Ok && bytes.len() <= 8 + be_u32(bytes, 4)
}

/// A label file decodes to as many labels as its header declares, and is 8
/// bytes longer than `label_count`.
pub proof fn lemma_label_file_lengths(bytes: Seq<u8>)
    requires
        is_label_file(bytes),
    ensures
        decode_labels(bytes) matches Ok(block) && block.labels.len() == block.label_count
            && bytes.len() == 8 + block.label_count,
{
}

/// A file whose header declares no labels decodes to an empty sequence of
/// labels, whatever follows the header.
pub proof fn lemma_no_labels(bytes: Seq<u8>)
    requires
        bytes.len() >= 8,
        be_u32(bytes, 4) == 0,
    ensures
        decode_labels(bytes) matches Ok(block) && block.labels == Seq::<u8>::empty(),
{
    assert(decode_labels(bytes)->Ok_0.labels =~= Seq::<u8>::empty());
}

/// Every decoded label is the byte of the file at its place, whatever its
/// value: label `i` is byte `8 + i`, be it a digit or not.
pub proof fn lemma_labels_are_file_bytes(bytes: Seq<u8>, i: int)
    requires
        decode_labels(bytes) matches Ok(block) && 0 <= i < block.label_count,
    ensures
        decode_labels(bytes) matches Ok(block) && block.labels[i] == bytes[8 + i],
{
}

} // verus!
