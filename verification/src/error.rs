//! What can go wrong while a dataset is decoded and assembled.

use vstd::prelude::*;

verus! {

/// A header field that is compared with the value the dataset expects.
#[derive(Clone, Copy, Debug, PartialEq, Eq, Structural)]
pub enum Field {
    /// The leading format tag of a file.
    MagicNumber,
    /// The number of records that the header declares.
    Count,
    /// The number of pixel rows of each image.
    Rows,
    /// The number of pixel columns of each image.
    Cols,
}

impl Field {
    /// The name of the field, as text.
    pub open spec fn spec_name(self) -> Seq<char> {
        match self {
            Field::MagicNumber => "magic_number"@,
            Field::Count => "count"@,
            Field::Rows => "rows"@,
            Field::Cols => "cols"@,
        }
    }

    /// The name of the field, as text: `magic_number`, `count`, `rows` or
    /// `cols`.
    pub fn name(self) -> (name: &'static str)
        ensures
            name@ == self.spec_name(),
    {
        match self {
            Field::MagicNumber => "magic_number",
            Field::Count => "count",
            Field::Rows => "rows",
            Field::Cols => "cols",
        }
    }
}

/// The kinds of failure.
#[derive(Clone, Copy, Debug, PartialEq, Eq, Structural)]
pub enum ErrorKind {
    /// The file does not exist or could not be read.
    MissingOrUnreadableFile,
    /// The file ends before its header does.
    TruncatedHeader,
    /// The file holds fewer record bytes than its header declares.
    TruncatedData,
    /// A header field differs from the value the dataset expects.
    FormatMismatch {
        /// The field that differs.
        field: Field,
        /// The value that the dataset expects.
        expected: u32,
        /// The value that the file holds.
        actual: u32,
    },
}

/// A failure to load a dataset: which file, and what is wrong with it.
#[derive(Clone, Debug, PartialEq, Eq)]
pub struct LoadError {
    /// The path of the file that could not be used.
    pub path: String,
    /// What is wrong with it.
    pub kind: ErrorKind,
}

} // verus!
