//! The error taxonomy of the upload pipeline.

use vstd::prelude::*;

verus! {

/// Why an upload request failed. Every error is request-local and terminal:
/// nothing is retried, and no error crashes the serving process.
#[derive(Clone, Copy, Debug, PartialEq, Eq, Structural)]
pub enum UploadError {
    /// A `file` field arrived without a client-supplied filename.
    MissingFilename,
    /// The client filename holds no `.`, so no extension can be taken from it.
    MissingExtension,
    /// The extension holds a character outside the safe set, or is too long.
    InvalidExtension,
    /// The multipart body could not be decoded.
    Decode,
    /// The write to the storage directory failed.
    StorageIo,
}

impl UploadError {
    /// The HTTP status this error maps to: caller errors are 400-class,
    /// decode and storage failures are 500-class.
    pub open spec fn spec_status_code(self) -> u16 {
        match self {
            UploadError::MissingFilename => 400,
            UploadError::MissingExtension => 400,
            UploadError::InvalidExtension => 400,
            UploadError::Decode => 500,
            UploadError::StorageIo => 500,
        }
    }

    /// Maps the error to the HTTP status code of the response.
    pub fn status_code(&self) -> (r: u16)
        ensures
            r == self.spec_status_code(),
    {
        match self {
            UploadError::MissingFilename => 400,
            UploadError::MissingExtension => 400,
            UploadError::InvalidExtension => 400,
            UploadError::Decode => 500,
            UploadError::StorageIo => 500,
        }
    }

    /// The fixed description of this error.
    pub open spec fn spec_describe(self) -> Seq<char> {
        match self {
            UploadError::MissingFilename => "file field carries no filename"@,
            UploadError::MissingExtension => "filename has no extension"@,
            UploadError::InvalidExtension => "filename extension is not storage-safe"@,
            UploadError::Decode => "multipart body could not be decoded"@,
            UploadError::StorageIo => "stored file could not be written"@,
        }
    }

    /// A plain-text description for the response body.
    pub fn describe(&self) -> (r: String)
        ensures
            r@ == self.spec_describe(),
    {
        match self {
            UploadError::MissingFilename => "file field carries no filename".to_owned(),
            UploadError::MissingExtension => "filename has no extension".to_owned(),
            UploadError::InvalidExtension => "filename extension is not storage-safe".to_owned(),
            UploadError::Decode => "multipart body could not be decoded".to_owned(),
            UploadError::StorageIo => "stored file could not be written".to_owned(),
        }
    }
}

} // verus!
