//! The ways in which a release lookup fails.

use vstd::prelude::*;

verus! {

/// Why a release lookup did not yield an asset list.
#[derive(Debug, Clone, Copy, PartialEq, Eq, Structural)]
pub enum ForgeError {
    /// The project name is not an owner and a repository separated by one `/`.
    InvalidProjectName,
    /// The API base URL cannot carry path segments.
    InvalidBaseUrl,
    /// The URL of the release information may pass the `u32::MAX` bytes
    /// that a URL can have.
    UrlTooLong,
    /// The token cannot be written as the value of an HTTP header.
    InvalidToken,
    /// No response arrived, or its status was not a success.
    RequestFailed,
    /// The response body was not a release document.
    DecodeFailed,
}

} // verus!
