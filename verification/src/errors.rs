//! What can stop a retiming before a corrected track is produced.

use vstd::prelude::*;

verus! {

/// The reasons for which a retiming is given up.
#[derive(Clone, Debug, PartialEq, Eq)]
pub enum Error {
    /// The text given for a numeric argument is no number.
    ArgumentParseError { argument_name: String, text: String },
    /// The number given for an argument is smaller than one.
    ExpectedPositiveNumber { argument_name: String, value: i64 },
    /// The label names no character encoding.
    UnknownEncoding { label: String },
    /// Neither the name nor the content of the file tells a subtitle format.
    UnknownFileFormat { file: String },
    /// The corrected track would be written in another format than that of
    /// the track to correct; no format is converted into another.
    DifferentOutputFormat { input_file: String, output_file: String },
    /// The alignment did not return one offset for each line.
    DeltaCountMismatch { expected: usize, found: usize },
    /// An offset or a corrected time stamp is too large for an `i64`.
    TimeOutOfRange,
}

/// An `Error` with its texts as sequences of characters.
pub enum ErrorView {
    ArgumentParseError { argument_name: Seq<char>, text: Seq<char> },
    ExpectedPositiveNumber { argument_name: Seq<char>, value: i64 },
    UnknownEncoding { label: Seq<char> },
    UnknownFileFormat { file: Seq<char> },
    DifferentOutputFormat { input_file: Seq<char>, output_file: Seq<char> },
    DeltaCountMismatch { expected: usize, found: usize },
    TimeOutOfRange,
}

impl View for Error {
    type V = ErrorView;

    open spec fn view(&self) -> ErrorView {
        match *self {
            Error::ArgumentParseError { argument_name, text } => ErrorView::ArgumentParseError {
                argument_name: argument_name@,
                text: text@,
            },
            Error::ExpectedPositiveNumber {
                argument_name,
                value,
            } => ErrorView::ExpectedPositiveNumber { argument_name: argument_name@, value },
            Error::UnknownEncoding { label } => ErrorView::UnknownEncoding { label: label@ },
            Error::UnknownFileFormat { file } => ErrorView::UnknownFileFormat { file: file@ },
            Error::DifferentOutputFormat {
                input_file,
                output_file,
            } => ErrorView::DifferentOutputFormat {
                input_file: input_file@,
                output_file: output_file@,
            },
            Error::DeltaCountMismatch { expected, found } => ErrorView::DeltaCountMismatch {
                expected,
                found,
            },
            Error::TimeOutOfRange => ErrorView::TimeOutOfRange,
        }
    }
}

} // verus!
