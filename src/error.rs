//! The failures a validation can report.
use vstd::prelude::*;

verus! {

/// The positional rule that a line broke.
#[derive(Clone, Copy, Debug, PartialEq, Eq, Structural)]
pub enum FormatRule {
    /// A header line does not start with `@`.
    HeaderMarker,
    /// A sequence line holds a byte outside the alphabet.
    InvalidBase,
    /// A separator line does not start with `+`.
    SeparatorMarker,
    /// A quality line is not as long as its record's sequence line.
    QualityLength,
}

/// The class of a failure.
#[derive(Clone, Copy, Debug, PartialEq, Eq, Structural)]
pub enum ErrorKind {
    /// A line broke the rule of its position in the record.
    Format(FormatRule),
    /// A header's signature was seen before.
    Duplicate,
    /// The file holds no record.
    Empty,
    /// The line count is not a multiple of four.
    Truncated,
}

/// The first violation found in a file.
#[derive(Clone, Debug, PartialEq, Eq)]
pub struct ValidationError {
    pub kind: ErrorKind,
    /// The name of the file, as the caller gave it.
    pub file_name: String,
    /// The 1-based number of the offending line; for a truncated file, the
    /// line count; absent for an empty file.
    pub line: Option<u64>,
    /// The offending line, terminators stripped, where the rule shows it
    /// (header, sequence and separator lines, and duplicate headers); else empty.
    pub content: Vec<u8>,
}

impl ErrorKind {
    /// Whether a failure of this kind carries the offending line.
    pub open spec fn shows_content(self) -> bool {
        match self {
            ErrorKind::Format(FormatRule::QualityLength) => false,
            ErrorKind::Format(_) => true,
            ErrorKind::Duplicate => true,
            _ => false,
        }
    }

    /// Whether a failure of this kind carries the offending line.
    pub fn carries_line(self) -> (r: bool)
        ensures
            r == self.shows_content(),
    {
        match self {
            ErrorKind::Format(FormatRule::QualityLength) => false,
            ErrorKind::Format(_) => true,
            ErrorKind::Duplicate => true,
            _ => false,
        }
    }
}

} // verus!
