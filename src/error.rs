use vstd::prelude::*;

verus! {

/// A failure of the file system, as reported while discovering files.
#[derive(Debug, PartialEq, Eq)]
pub enum IoError {
    /// The path does not exist.
    NotFound(String),
    /// Metadata or a directory listing could not be read.
    Other(String),
}

/// The errors of this library.
#[derive(Debug, PartialEq, Eq)]
pub enum Error {
    /// The file system failed.
    Io(IoError),
    /// The file has an extension that no format handles (strict mode only).
    UnsupportedFormat(String),
    /// The file has no extension and no format recognised it (strict mode only).
    UnknownFormat,
    /// A format's parser failed to open the file, or failed on a record.
    Format(String),
}

} // verus!
