//! Verified core of a small file-upload service.
//!
//! The library covers the upload-ingestion pipeline: buffering the chunks of
//! each multipart field, classifying fields by name, deriving a storage-safe
//! file name that keeps the client filename's extension, and planning the
//! single write that commits the upload. The surrounding HTTP plumbing and the
//! actual disk write live outside the library and hand it plain values.

pub mod errors;
pub mod fields;
pub mod health;
pub mod ident;
pub mod naming;
pub mod upload;
