use vstd::prelude::*;

verus! {

/// The ways a capture job can stop short of producing the final output file.
///
/// Every stage propagates failures upward unchanged; the caller's remedy is
/// re-invocation against the same job identifier, which reuses the completed
/// stages' cached artifacts.
#[derive(Debug, PartialEq, Eq)]
pub enum Error {
    /// The requested output path does not end with the required extension.
    InvalidOutputExtension,
    /// The requested output path has no usable file-name component.
    InvalidOutputPath,
    /// A resume identifier was given but no job directory exists for it.
    NoSuchJob,
    /// The fresh job directory could not be created.
    DirectoryCreateFailed,
    /// The external media tool exited with a code that is not accepted as
    /// success.
    CommandFailed { code: Option<i32> },
    /// A diagnostic line matched the marker pattern but one of its numeric
    /// fields could not be parsed.
    MalformedMarkerLine,
    /// The final copy to the user-specified output path failed.
    CopyFailed,
}

} // verus!
