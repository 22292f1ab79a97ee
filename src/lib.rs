//! Streaming validation of FASTQ files: a four-line record cycle, a check of
//! the sequence alphabet, and duplicate detection over header digests.
pub mod alphabet;
pub mod content;
pub mod digest;
pub mod error;
pub mod laws;
pub mod model;
pub mod validator;

pub use content::validate_bytes;
pub use error::{ErrorKind, FormatRule, ValidationError};
pub use validator::Validator;
