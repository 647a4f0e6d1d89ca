//! Verified core of a paste-upload client.
//!
//! The library resolves layered configuration (command line, environment,
//! config file, defaults), selects and normalizes the input source, and
//! encodes the upload request and decodes the response of the remote
//! paste service. All I/O (filesystem, clipboard, network) is performed
//! by the surrounding application, which hands this library plain values.

pub mod errors;
pub mod text;
pub mod conf_file;
pub mod size;
pub mod config;
pub mod input;
pub mod upload;
