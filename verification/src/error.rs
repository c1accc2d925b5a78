//! Error taxonomy of the proxy core.
//!
//! `Error::CacheMiss` is an expected control-flow outcome: it tells the
//! pipeline to consult the upstream. Every other variant is a failure that
//! the pipeline turns into a server error.

use vstd::prelude::*;

verus! {

/// Failures of the startup helpers that derive a storage directory from an
/// upstream URL.
#[derive(Debug, Clone, Copy, PartialEq, Eq, Structural)]
pub enum UtilError {
    /// The upstream URL has no domain to name the storage directory after.
    DomainMissing,
    /// The source file path the storage directory is derived from has no
    /// parent directory.
    InvalidCurrentFilePath,
}

/// Failures observed while reading or writing cache entries, talking to the
/// upstream, or validating configuration.
#[derive(Debug, Clone, Copy, PartialEq, Eq, Structural)]
pub enum CommonError {
    /// A filesystem operation failed.
    IoError,
    /// The network call to the upstream failed (transport, DNS, protocol).
    UpstreamError,
    /// A status file exists but does not hold a decimal status in 100..=599.
    MalformedStatus,
    /// A headers file exists but does not parse as a sequence of pairs.
    MalformedHeaders,
    /// A percent-decoded path segment is not valid UTF-8.
    EncodingError,
    /// The configured upstream URL is invalid.
    ConfigError,
}

/// The top-level outcome type of the proxy core.
#[derive(Debug, Clone, Copy, PartialEq, Eq, Structural)]
pub enum Error {
    /// The server is already bound to its listener.
    AlreadyListening,
    /// The cache holds no complete entry for the request. Not a failure: the
    /// pipeline reacts by forwarding to the upstream.
    CacheMiss,
    /// A failure while handling the request.
    Common(CommonError),
    /// A failure while deriving startup configuration.
    Util(UtilError),
}

impl Error {
    /// True exactly of the one non-failure variant.
    pub fn is_cache_miss(&self) -> (r: bool)
        ensures
            r == (*self == Error::CacheMiss),
    {
        matches!(self, Error::CacheMiss)
    }
}

} // verus!
