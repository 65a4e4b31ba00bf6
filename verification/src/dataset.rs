//! Assembling a dataset from its four files.
//!
//! The caller reads the files and hands over, for each, the path and what was
//! read. [`Mnist::new`] decodes them in a fixed order (training images, test
//! images, training labels, test labels), compares every header with the
//! [`Config`], and stops at the first file that fails: either all four
//! are good and the dataset is returned, or the first failure is.

use vstd::prelude::*;
use crate::error::{ErrorKind, Field, LoadError};
use crate::idx::{
    be_u32, decode_images, decode_labels, image_data_len, lemma_decoded_images_wf, parse_images,
    parse_labels, pixel_rows, ImageBlock, ImageBlockView, LabelBlock, LabelBlockView,
};

verus! {

/// The name of the file that holds the training images.
pub const TRAIN_DATA_FILENAME: &'static str = "train-images-idx3-ubyte";

/// The name of the file that holds the test images.
pub const TEST_DATA_FILENAME: &'static str = "t10k-images-idx3-ubyte";

/// The name of the file that holds the training labels.
pub const TRAIN_LABEL_FILENAME: &'static str = "train-labels-idx1-ubyte";

/// The name of the file that holds the test labels.
pub const TEST_LABEL_FILENAME: &'static str = "t10k-labels-idx1-ubyte";

/// No two of the four files have the same name.
pub proof fn lemma_file_names_distinct()
    ensures
        TRAIN_DATA_FILENAME@ != TEST_DATA_FILENAME@,
        TRAIN_DATA_FILENAME@ != TRAIN_LABEL_FILENAME@,
        TRAIN_DATA_FILENAME@ != TEST_LABEL_FILENAME@,
        TEST_DATA_FILENAME@ != TRAIN_LABEL_FILENAME@,
        TEST_DATA_FILENAME@ != TEST_LABEL_FILENAME@,
        TRAIN_LABEL_FILENAME@ != TEST_LABEL_FILENAME@,
{
    reveal_strlit("train-images-idx3-ubyte");
    reveal_strlit("t10k-images-idx3-ubyte");
    reveal_strlit("train-labels-idx1-ubyte");
    reveal_strlit("t10k-labels-idx1-ubyte");
    assert(TRAIN_DATA_FILENAME@[6] != TRAIN_LABEL_FILENAME@[6]);
    assert(TEST_DATA_FILENAME@[5] != TEST_LABEL_FILENAME@[5]);
}

/// The header values that the files of a dataset must have.
#[derive(Clone, Copy, Debug, PartialEq, Eq, Structural)]
pub struct Config {
    /// The magic number of an image file.
    pub images_magic: u32,
    /// The magic number of a label file.
    pub labels_magic: u32,
    /// The number of training images, and of training labels.
    pub train_count: u32,
    /// The number of test images, and of test labels.
    pub test_count: u32,
    /// The number of pixel rows of an image.
    pub rows: u32,
    /// The number of pixel columns of an image.
    pub cols: u32,
}

impl Config {
    /// The values of the MNIST dataset.
    pub open spec fn spec_mnist() -> Config {
        Config {
            images_magic: 2051,
            labels_magic: 2049,
            train_count: 60_000,
            test_count: 10_000,
            rows: 28,
            cols: 28,
        }
    }

    /// The values of the MNIST dataset: magic numbers 2051 and 2049, 60,000
    /// training and 10,000 test records, images of 28 by 28 pixels.
    #[verifier::when_used_as_spec(spec_mnist)]
    pub fn mnist() -> (config: Config)
        ensures
            config == Config::spec_mnist(),
    {
        Config {
            images_magic: 2051,
            labels_magic: 2049,
            train_count: 60_000,
            test_count: 10_000,
            rows: 28,
            cols: 28,
        }
    }
}

/// One file of a dataset as the caller found it.
#[derive(Clone, Debug, PartialEq, Eq)]
pub struct Source {
    /// Where the file was looked for.
    pub path: String,
    /// What was read there; `None` where the file is missing or could not be
    /// read.
    pub bytes: Option<Vec<u8>>,
}

/// Whether the header of an image file is the expected one: `Ok` where magic
/// number, image count, rows and columns all agree with `config` and
/// `count`, else the mismatch of the first of them, in this order, that
/// differs.
pub open spec fn images_conform(block: ImageBlockView, config: Config, count: u32) -> Result<
    (),
    ErrorKind,
> {
    if block.magic_number != config.images_magic {
        Err(
            ErrorKind::FormatMismatch {
                field: Field::MagicNumber,
                expected: config.images_magic,
                actual: block.magic_number,
            },
        )
    } else if block.image_count != count {
        Err(
            ErrorKind::FormatMismatch {
                field: Field::Count,
                expected: count,
                actual: block.image_count,
            },
        )
    } else if block.rows != config.rows {
        Err(
            ErrorKind::FormatMismatch {
                field: Field::Rows,
                expected: config.rows,
                actual: block.rows,
            },
        )
    } else if block.cols != config.cols {
        Err(
            ErrorKind::FormatMismatch {
                field: Field::Cols,
                expected: config.cols,
                actual: block.cols,
            },
        )
    } else {
        Ok(())
    }
}

/// Whether the header of a label file is the expected one: `Ok` where magic
/// number and label count agree with `config` and `count`, else the mismatch
/// of the first of them, in this order, that differs.
pub open spec fn labels_conform(block: LabelBlockView, config: Config, count: u32) -> Result<
    (),
    ErrorKind,
> {
    if block.magic_number != config.labels_magic {
        Err(
            ErrorKind::FormatMismatch {
                field: Field::MagicNumber,
                expected: config.labels_magic,
                actual: block.magic_number,
            },
        )
    } else if block.label_count != count {
        Err(
            ErrorKind::FormatMismatch {
                field: Field::Count,
                expected: count,
                actual: block.label_count,
            },
        )
    } else {
        Ok(())
    }
}

/// Validates the header of a decoded image file: compares magic number,
/// image count, rows and columns, in this order, with what is expected, and
/// reports the first that differs.
pub fn validate_images(block: &ImageBlock, config: &Config, count: u32) -> (res: Result<
    (),
    ErrorKind,
>)
    ensures
        res == images_conform(block@, *config, count),
        res is Ok <==> block.magic_number == config.images_magic && block.image_count == count
            && block.rows == config.rows && block.cols == config.cols,
{
    if block.magic_number != config.images_magic {
        Err(
            ErrorKind::FormatMismatch {
                field: Field::MagicNumber,
                expected: config.images_magic,
                actual: block.magic_number,
            },
        )
    } else if block.image_count != count {
        Err(
            ErrorKind::FormatMismatch {
                field: Field::Count,
                expected: count,
                actual: block.image_count,
            },
        )
    } else if block.rows != config.rows {
        Err(
            ErrorKind::FormatMismatch {
                field: Field::Rows,
                expected: config.rows,
                actual: block.rows,
            },
        )
    } else if block.cols != config.cols {
        Err(
            ErrorKind::FormatMismatch {
                field: Field::Cols,
                expected: config.cols,
                actual: block.cols,
            },
        )
    } else {
        Ok(())
    }
}

/// Validates the header of a decoded label file: compares magic number and
/// label count, in this order, with what is expected, and reports the first
/// that differs.
pub fn validate_labels(block: &LabelBlock, config: &Config, count: u32) -> (res: Result<
    (),
    ErrorKind,
>)
    ensures
        res == labels_conform(block@, *config, count),
        res is Ok <==> block.magic_number == config.labels_magic && block.label_count == count,
{
    if block.magic_number != config.labels_magic {
        Err(
            ErrorKind::FormatMismatch {
                field: Field::MagicNumber,
                expected: config.labels_magic,
                actual: block.magic_number,
            },
        )
    } else if block.label_count != count {
        Err(
            ErrorKind::FormatMismatch {
                field: Field::Count,
                expected: count,
                actual: block.label_count,
            },
        )
    } else {
        Ok(())
    }
}

/// Whether `bytes` is an image file that is accepted: the header is there,
/// its four fields are the expected ones, and all the images that it declares
/// follow it.
pub open spec fn accepts_images(bytes: Seq<u8>, config: Config, count: u32) -> bool {
    &&& bytes.len() >= 16
    &&& be_u32(bytes, 0) == config.images_magic
    &&& be_u32(bytes, 4) == count
    &&& be_u32(bytes, 8) == config.rows
    &&& be_u32(bytes, 12) == config.cols
    &&& bytes.len() >= 16 + image_data_len(bytes)
}

/// Whether `bytes` is a label file that is accepted: the header is there,
/// its two fields are the expected ones, and all the labels that it declares
/// follow it.
pub open spec fn accepts_labels(bytes: Seq<u8>, config: Config, count: u32) -> bool {
    &&& bytes.len() >= 8
    &&& be_u32(bytes, 0) == config.labels_magic
    &&& be_u32(bytes, 4) == count
    &&& bytes.len() >= 8 + count
}

impl Source {
    /// Whether the file was read and is an image file that is accepted.
    pub open spec fn holds_images(self, config: Config, count: u32) -> bool {
        self.bytes matches Some(bytes) && accepts_images(bytes@, config, count)
    }

    /// Whether the file was read and is a label file that is accepted.
    pub open spec fn holds_labels(self, config: Config, count: u32) -> bool {
        self.bytes matches Some(bytes) && accepts_labels(bytes@, config, count)
    }
}

/// The images that an image file yields: those that it decodes to, where it
/// was read, decodes, and has the expected header; else the failure, with the
/// path of the file.
pub open spec fn loaded_images(source: Source, config: Config, count: u32) -> Result<
    Seq<Seq<u8>>,
    LoadError,
> {
    match source.bytes {
        None => Err(LoadError { path: source.path, kind: ErrorKind::MissingOrUnreadableFile }),
        Some(bytes) => match decode_images(bytes@) {
            Err(kind) => Err(LoadError { path: source.path, kind }),
            Ok(block) => match images_conform(block, config, count) {
                Err(kind) => Err(LoadError { path: source.path, kind }),
                Ok(_) => Ok(block.images),
            },
        },
    }
}

/// The labels that a label file yields: those that it decodes to, where it
/// was read, decodes, and has the expected header; else the failure, with the
/// path of the file.
pub open spec fn loaded_labels(source: Source, config: Config, count: u32) -> Result<
    Seq<u8>,
    LoadError,
> {
    match source.bytes {
        None => Err(LoadError { path: source.path, kind: ErrorKind::MissingOrUnreadableFile }),
        Some(bytes) => match decode_labels(bytes@) {
            Err(kind) => Err(LoadError { path: source.path, kind }),
            Ok(block) => match labels_conform(block, config, count) {
                Err(kind) => Err(LoadError { path: source.path, kind }),
                Ok(_) => Ok(block.labels),
            },
        },
    }
}

/// Decodes one image file and validates its header.
pub fn load_images(source: &Source, config: &Config, count: u32) -> (res: Result<
    Vec<Vec<u8>>,
    LoadError,
>)
    ensures
        match res {
            Ok(images) => loaded_images(*source, *config, count) == Ok::<Seq<Seq<u8>>, LoadError>(
                pixel_rows(images),
            ),
            Err(error) => loaded_images(*source, *config, count) == Err::<Seq<Seq<u8>>, LoadError>(
                error,
            ),
        },
        res is Ok <==> source.holds_images(*config, count),
        res matches Err(error) ==> error.path == source.path,
{
    match &source.bytes {
        None => Err(
            LoadError { path: source.path.clone(), kind: ErrorKind::MissingOrUnreadableFile },
        ),
        Some(bytes) => match parse_images(bytes.as_slice()) {
            Err(kind) => Err(LoadError { path: source.path.clone(), kind }),
            Ok(block) => match validate_images(&block, config, count) {
                Err(kind) => Err(LoadError { path: source.path.clone(), kind }),
                Ok(_) => Ok(block.images),
            },
        },
    }
}

/// Decodes one label file and validates its header.
pub fn load_labels(source: &Source, config: &Config, count: u32) -> (res: Result<
    Vec<u8>,
    LoadError,
>)
    ensures
        match res {
            Ok(labels) => loaded_labels(*source, *config, count) == Ok::<Seq<u8>, LoadError>(
                labels@,
            ),
            Err(error) => loaded_labels(*source, *config, count) == Err::<Seq<u8>, LoadError>(
                error,
            ),
        },
        res is Ok <==> source.holds_labels(*config, count),
        res matches Err(error) ==> error.path == source.path,
{
    match &source.bytes {
        None => Err(
            LoadError { path: source.path.clone(), kind: ErrorKind::MissingOrUnreadableFile },
        ),
        Some(bytes) => match parse_labels(bytes.as_slice()) {
            Err(kind) => Err(LoadError { path: source.path.clone(), kind }),
            Ok(block) => match validate_labels(&block, config, count) {
                Err(kind) => Err(LoadError { path: source.path.clone(), kind }),
                Ok(_) => Ok(block.labels),
            },
        },
    }
}

/// Loading does not look at the labels themselves: where a label file is
/// accepted, its labels are the `count` bytes after its header, whatever
/// their values.
pub proof fn lemma_loaded_labels_are_file_bytes(source: Source, config: Config, count: u32)
    ensures
        loaded_labels(source, config, count) matches Ok(labels) ==> source.bytes matches Some(bytes)
            && labels == bytes@.subrange(8, 8 + count),
{
}

/// The dataset: training and test images, each with its label at the same
/// index.
#[derive(Clone, Debug, PartialEq, Eq)]
pub struct Mnist {
    /// The training images, one buffer of `rows * cols` pixels each.
    pub train_data: Vec<Vec<u8>>,
    /// The test images, one buffer of `rows * cols` pixels each.
    pub test_data: Vec<Vec<u8>>,
    /// The labels of the training images.
    pub train_labels: Vec<u8>,
    /// The labels of the test images.
    pub test_labels: Vec<u8>,
}

/// What a [`Mnist`] holds, as mathematical values.
pub struct MnistView {
    /// The training images.
    pub train_data: Seq<Seq<u8>>,
    /// The test images.
    pub test_data: Seq<Seq<u8>>,
    /// The labels of the training images.
    pub train_labels: Seq<u8>,
    /// The labels of the test images.
    pub test_labels: Seq<u8>,
}

impl MnistView {
    /// The dataset has the shape that `config` describes: as many training
    /// images as training labels, namely `train_count`; as many test images
    /// as test labels, namely `test_count`; every image `rows * cols` bytes
    /// long.
    pub open spec fn wf(self, config: Config) -> bool {
        &&& self.train_data.len() == config.train_count
        &&& self.train_labels.len() == config.train_count
        &&& self.test_data.len() == config.test_count
        &&& self.test_labels.len() == config.test_count
        &&& forall|i: int|
            0 <= i < self.train_data.len() ==> (#[trigger] self.train_data[i]).len() == config.rows
                * config.cols
        &&& forall|i: int|
            0 <= i < self.test_data.len() ==> (#[trigger] self.test_data[i]).len() == config.rows
                * config.cols
    }
}

impl View for Mnist {
    type V = MnistView;

    open spec fn view(&self) -> MnistView {
        MnistView {
            train_data: pixel_rows(self.train_data),
            test_data: pixel_rows(self.test_data),
            train_labels: self.train_labels@,
            test_labels: self.test_labels@,
        }
    }
}

/// What four files assemble to: the dataset where each of them yields its
/// part, else the failure of the first that does not, in the order training
/// images, test images, training labels, test labels.
pub open spec fn assemble(
    config: Config,
    train_image_file: Source,
    test_image_file: Source,
    train_label_file: Source,
    test_label_file: Source,
) -> Result<MnistView, LoadError> {
    match loaded_images(train_image_file, config, config.train_count) {
        Err(error) => Err(error),
        Ok(train_data) => match loaded_images(test_image_file, config, config.test_count) {
            Err(error) => Err(error),
            Ok(test_data) => match loaded_labels(train_label_file, config, config.train_count) {
                Err(error) => Err(error),
                Ok(train_labels) => match loaded_labels(test_label_file, config, config.test_count) {
                    Err(error) => Err(error),
                    Ok(test_labels) => Ok(
                        MnistView { train_data, test_data, train_labels, test_labels },
                    ),
                },
            },
        },
    }
}

/// A dataset that four files assemble to has the shape that the
/// configuration describes: training images and training labels are
/// `train_count` each, test images and test labels `test_count` each, and
/// every image is `rows * cols` bytes long.
pub proof fn lemma_assembled_wf(
    config: Config,
    train_image_file: Source,
    test_image_file: Source,
    train_label_file: Source,
    test_label_file: Source,
)
    ensures
        assemble(config, train_image_file, test_image_file, train_label_file, test_label_file) matches Ok(mnist)
            ==> mnist.wf(config),
{
    if let Some(bytes) = train_image_file.bytes {
        lemma_decoded_images_wf(bytes@);
    }
    if let Some(bytes) = test_image_file.bytes {
        lemma_decoded_images_wf(bytes@);
    }
}

/// A dataset of the MNIST shape has 60,000 training images and labels,
/// 10,000 test images and labels, and 784 pixels in every image.
pub proof fn lemma_mnist_shape(mnist: MnistView)
    requires
        mnist.wf(Config::mnist()),
    ensures
        mnist.train_data.len() == 60_000 && mnist.train_labels.len() == 60_000,
        mnist.test_data.len() == 10_000 && mnist.test_labels.len() == 10_000,
        forall|i: int| 0 <= i < 60_000 ==> (#[trigger] mnist.train_data[i]).len() == 784,
        forall|i: int| 0 <= i < 10_000 ==> (#[trigger] mnist.test_data[i]).len() == 784,
{
}

impl Mnist {
    /// The dataset has the shape that `config` describes.
    pub open spec fn wf(&self, config: Config) -> bool {
        self@.wf(config)
    }

    /// Assembles the dataset from its four files.
    ///
    /// Each file is decoded and its header compared with `config`, in the
    /// order training images, test images, training labels, test labels. The
    /// first file that is missing, truncated or not as expected ends the
    /// load with its failure; nothing of the other files is returned then.
    pub fn new(
        config: &Config,
        train_image_file: &Source,
        test_image_file: &Source,
        train_label_file: &Source,
        test_label_file: &Source,
    ) -> (res: Result<Mnist, LoadError>)
        ensures
            match res {
                Ok(mnist) => assemble(
                    *config,
                    *train_image_file,
                    *test_image_file,
                    *train_label_file,
                    *test_label_file,
                ) == Ok::<MnistView, LoadError>(mnist@),
                Err(error) => assemble(
                    *config,
                    *train_image_file,
                    *test_image_file,
                    *train_label_file,
                    *test_label_file,
                ) == Err::<MnistView, LoadError>(error),
            },
            res is Ok <==> train_image_file.holds_images(*config, config.train_count)
                && test_image_file.holds_images(*config, config.test_count)
                && train_label_file.holds_labels(*config, config.train_count)
                && test_label_file.holds_labels(*config, config.test_count),
            res matches Ok(mnist) ==> mnist.wf(*config),
    {
        let train_data = match load_images(train_image_file, config, config.train_count) {
            Ok(images) => images,
            Err(error) => { return Err(error); },
        };
        let test_data = match load_images(test_image_file, config, config.test_count) {
            Ok(images) => images,
            Err(error) => { return Err(error); },
        };
        let train_labels = match load_labels(train_label_file, config, config.train_count) {
            Ok(labels) => labels,
            Err(error) => { return Err(error); },
        };
        let test_labels = match load_labels(test_label_file, config, config.test_count) {
            Ok(labels) => labels,
            Err(error) => { return Err(error); },
        };
        proof {
            lemma_assembled_wf(
                *config,
                *train_image_file,
                *test_image_file,
                *train_label_file,
                *test_label_file,
            );
        }
        Ok(Mnist { train_data, test_data, train_labels, test_labels })
    }
}

} // verus!
