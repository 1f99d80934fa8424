//! What can go wrong while a package is unpacked.

use vstd::prelude::*;

verus! {

/// A failure of the extraction engine.
#[derive(Debug, Clone, Copy, PartialEq, Eq, Structural)]
pub enum UnpackError {
    /// The package's path has no extension to strip, so no folder can be
    /// named after it.
    NoExtension,
    /// A regular file already stands where the output folder belongs.
    OutputIsFile,
    /// An entry's parent is an absolute path and would land outside the
    /// output folder.
    AbsoluteEntryPath,
    /// An entry with the gzip suffix does not hold a gzip member.
    Decompression,
    /// An entry's JSON could not be written out indented.
    Formatting,
}

impl UnpackError {
    /// The message of this error.
    pub open spec fn message_of(self) -> Seq<char> {
        match self {
            UnpackError::NoExtension => "Unable to create a folder for unpacking the package"@,
            UnpackError::OutputIsFile => "The output folder cannot be created because a file with the same name already exists"@,
            UnpackError::AbsoluteEntryPath => "Package entries with an absolute path will not be extracted"@,
            UnpackError::Decompression => "A compressed package entry could not be decompressed"@,
            UnpackError::Formatting => "A JSON package entry could not be formatted"@,
        }
    }

    /// A message for the user.
    pub fn message(&self) -> (text: String)
        ensures
            text@ == self.message_of(),
    {
        match self {
            UnpackError::NoExtension => "Unable to create a folder for unpacking the package".to_owned(),
            UnpackError::OutputIsFile => "The output folder cannot be created because a file with the same name already exists".to_owned(),
            UnpackError::AbsoluteEntryPath => "Package entries with an absolute path will not be extracted".to_owned(),
            UnpackError::Decompression => "A compressed package entry could not be decompressed".to_owned(),
            UnpackError::Formatting => "A JSON package entry could not be formatted".to_owned(),
        }
    }
}

/// A result that holds text, read as a result that holds characters.
pub open spec fn text_of(result: Result<String, UnpackError>) -> Result<Seq<char>, UnpackError> {
    match result {
        Ok(text) => Ok(text@),
        Err(error) => Err(error),
    }
}

} // verus!
