//! Loading the MNIST handwritten-digit dataset from its IDX files.
//!
//! The crate works on bytes that the caller has already read. [`idx`] decodes
//! one image file or one label file. [`dataset`] validates four decoded files
//! against the shape that a dataset is expected to have and assembles them.
//! [`encoding`] states the file format the other way round and proves that
//! decoding undoes it. [`render`] draws one image as text.

pub mod dataset;
pub mod encoding;
pub mod error;
pub mod idx;
pub mod render;
