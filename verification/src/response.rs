//! The parsed response head.

use crate::headers::{header_entries, HeaderEntries};
use http::header::{HeaderMap, HeaderValue};
use vstd::prelude::*;

verus! {

/// The HTTP version of a response.
#[derive(Debug, Clone, Copy, PartialEq, Eq, Structural)]
pub enum Version {
    Http10,
    Http11,
}

/// A response head: status code, version and headers.
#[derive(Debug)]
pub struct ClientResponse {
    pub status: u16,
    pub version: Version,
    pub headers: HeaderMap<HeaderValue>,
}

/// A response head as plain values.
pub struct ResponseModel {
    pub status: u16,
    pub version: Version,
    pub headers: HeaderEntries,
}

impl View for ClientResponse {
    type V = ResponseModel;

    open spec fn view(&self) -> ResponseModel {
        ResponseModel {
            status: self.status,
            version: self.version,
            headers: header_entries(self.headers),
        }
    }
}

/// A status code that may stand in a response: 100 up to 599.
pub open spec fn valid_status(code: u16) -> bool {
    100 <= code < 600
}

/// The version that a minor version number stands for. Anything but `1` is
/// read as HTTP/1.0.
pub open spec fn version_of(minor: u8) -> Version {
    if minor == 1 {
        Version::Http11
    } else {
        Version::Http10
    }
}

impl ClientResponse {
    /// The status code.
    pub fn status(&self) -> (code: u16)
        ensures
            code == self@.status,
    {
        self.status
    }

    /// The HTTP version.
    pub fn version(&self) -> (version: Version)
        ensures
            version == self@.version,
    {
        self.version
    }

    /// The headers.
    pub fn headers(&self) -> (headers: &HeaderMap<HeaderValue>)
        ensures
            header_entries(*headers) == self@.headers,
    {
        &self.headers
    }
}

} // verus!
