//! The failures a library call can report.

use vstd::prelude::*;

verus! {

/// Every failure is reported through the operation's result; no verified
/// function of this crate panics.
#[derive(Debug, Clone, Copy, PartialEq, Eq, Structural)]
pub enum Error {
    /// The access token holds a character that cannot stand in a header.
    InvalidAccessToken,
    /// The HTTP backend could not be brought up.
    ClientBuild,
    /// The request path did not resolve to a well-formed URL.
    InvalidUrl,
    /// The request failed on the wire.
    Http,
    /// The endpoint answered with a status outside the successful range.
    Status(u16),
    /// The response body is not the JSON shape of the expected record.
    Decode,
}

} // verus!
