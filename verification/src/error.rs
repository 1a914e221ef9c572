//! The errors that decoding, resolving and verifying a backup can end in.
use vstd::prelude::*;

verus! {

/// Why a backup could not be read. No operation recovers from any of these
/// by itself: each one reaches the caller.
#[derive(Clone, Copy, Debug, PartialEq, Eq, Structural)]
pub enum BackupError {
    /// The bytes are not a well-framed record: a bad key or length, truncated
    /// input, a field of the wrong wire type, a string that is not UTF-8, or a
    /// field that occurs twice.
    MalformedEncoding,
    /// An enumerated value that this build does not know.
    UnknownEnumValue,
    /// The envelope holds no version at all.
    MissingVersion,
    /// The envelope holds a known version without any content.
    EmptyContent,
    /// The content is well-formed but its digest does not match.
    ChecksumMismatch,
    /// The envelope holds a version that this build does not know.
    UnsupportedVersion,
}

} // verus!
