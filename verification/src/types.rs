//! Request-level data: the algorithm selector, request and response shapes,
//! and the error taxonomy shared by every component.

use vstd::prelude::*;

verus! {

/// Which cipher a request selects for its payload.
#[derive(Clone, Copy, Debug, PartialEq, Eq, Structural)]
pub enum Algorithm {
    Aes,
    Rsa,
}

impl Algorithm {
    /// Decodes the wire code carried by a request: `0` selects AES, `1`
    /// selects RSA, and every other code is rejected.
    pub fn from_code(code: u8) -> (r: Option<Algorithm>)
        ensures
            code == 0 ==> r == Some(Algorithm::Aes),
            code == 1 ==> r == Some(Algorithm::Rsa),
            code >= 2 ==> r is None,
    {
        match code {
            0 => Some(Algorithm::Aes),
            1 => Some(Algorithm::Rsa),
            _ => None,
        }
    }
}

/// Everything that can go wrong on a request path, and the one fault that
/// belongs to startup (`KeyParseFailure`).
#[derive(Clone, Copy, Debug, PartialEq, Eq, Structural)]
pub enum StorageError {
    /// Retrieval named a file that was never stored.
    NotFound,
    /// The persistence layer failed to create, write, open or read.
    IoFailure,
    /// An encryption or decryption route was invoked without a selector.
    MissingAlgorithm,
    /// A chunked-decrypt input was not a multiple of the cipher block size.
    InvalidCiphertextLength,
    /// The configured key material could not be parsed.
    KeyParseFailure,
    /// The cryptographic primitive rejected a block.
    CipherRejected,
    /// The filename could escape the storage root.
    InvalidName,
}

/// A retrieval request: the name of the stored file to stream back.
#[allow(non_snake_case)]
pub struct DownloadRequest {
    pub fileName: String,
}

/// What a successful store reports about the file it persisted.
pub struct UploadData {
    pub name: String,
    pub mimetype: String,
    pub size: usize,
    pub time: usize,
}

impl UploadData {
    /// Describes a stored file; the timestamp is not tracked and stays 0.
    pub fn new(name: String, mimetype: String, size: usize) -> (r: UploadData)
        ensures
            r.name == name,
            r.mimetype == mimetype,
            r.size == size,
            r.time == 0,
    {
        UploadData { name, mimetype, size, time: 0 }
    }
}

/// The response body of a successful store request.
pub struct UploadResponse<'a> {
    pub status: bool,
    pub message: &'a str,
    pub data: UploadData,
}

} // verus!
