//! Batch-editing of FLAC metadata through format strings.
//!
//! A format string such as `%artist% - %title%` describes one line of text
//! per audio file: each `%name%` placeholder stands for a metadata field.
//! The library renders the current field values of a file into such a line
//! (forward direction), and parses an edited line back into field values
//! using the same format string (inverse direction), so that a whole
//! directory of files can be re-tagged by editing a plain text file.

use vstd::prelude::*;

pub mod changes;
pub mod chars;
pub mod pattern;
pub mod render;
pub mod roundtrip;
pub mod sanitize;
pub mod tagio;
pub mod template;

verus! {

/// The failures a run can end with. Every error is fatal to the run it
/// occurs in; none is retried or recovered.
#[derive(Debug)]
pub enum TagError {
    /// A file or the intermediate store could not be read or written.
    IoError(String),
    /// The tag storage collaborator failed, with its description.
    MetaflacError(String),
    /// A placeholder of the format string is outside the vocabulary.
    UnsupportedFieldError,
    /// The record count and the line count of the store differ.
    AlignmentError,
    /// A line of the store does not match the format string's pattern.
    PatternMatchError,
    /// A rendered line would embed a raw newline, which would corrupt the
    /// store's record-to-line alignment.
    EmbeddedNewlineError,
}

impl TagError {
    /// A human-readable description of the error.
    pub fn message(&self) -> (r: String)
        ensures
            match *self {
                TagError::IoError(d) => r@ == d@,
                TagError::MetaflacError(d) => r@ == d@,
                TagError::UnsupportedFieldError => r@ == "unsupported tags in format specifier"@,
                TagError::AlignmentError => r@ == "record count and line count differ"@,
                TagError::PatternMatchError => r@ == "a line does not match the format specifier"@,
                TagError::EmbeddedNewlineError => r@
                    == "a field value would embed a newline in a rendered line"@,
            },
    {
        match self {
            TagError::IoError(d) => d.clone(),
            TagError::MetaflacError(d) => d.clone(),
            TagError::UnsupportedFieldError => String::from_str(
                "unsupported tags in format specifier",
            ),
            TagError::AlignmentError => String::from_str("record count and line count differ"),
            TagError::PatternMatchError => String::from_str(
                "a line does not match the format specifier",
            ),
            TagError::EmbeddedNewlineError => String::from_str(
                "a field value would embed a newline in a rendered line",
            ),
        }
    }
}

} // verus!
