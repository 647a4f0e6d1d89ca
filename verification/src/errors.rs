//! Error types of the library.
//!
//! Errors carry the offending value as plain data; rendering a message
//! is left to the application.

use vstd::prelude::*;

verus! {

/// A failure while resolving or validating the configuration.
#[derive(Debug, Clone)]
pub enum ConfigError {
    /// No layer provided an API key (or it was empty).
    ApiKeyMissing,
    /// The resolved base URL does not start with `http://` or `https://`.
    BadScheme(String),
    /// The resolved maximum file size is zero.
    ZeroMaxFileSize,
    /// A config-file line (1-based) holds neither a comment nor `key=value`.
    MalformedLine(usize),
}

/// A failure while acquiring the content to upload.
#[derive(Debug, Clone)]
pub enum InputError {
    /// The given path does not exist.
    FileNotFound(String),
    /// The given path is a directory, not a file.
    IsADirectory(String),
    /// Standard input ended without providing any bytes.
    EmptyStdin,
    /// The clipboard held no text.
    EmptyClipboard,
    /// The clipboard could not be opened or read.
    ClipboardUnavailable,
}

/// A failure while encoding the upload or decoding the response.
#[derive(Debug, Clone)]
pub enum UploadError {
    /// The content is larger than the configured maximum.
    SizeLimit { size: u64, limit: u64 },
    /// The content is empty; an empty upload has no valid byte range.
    EmptyContent,
    /// The server answered with a non-success HTTP status.
    BadStatus(u16),
    /// The success response carried no `Content-Location` header.
    MissingContentLocation,
}

} // verus!
