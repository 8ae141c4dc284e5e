//! HTTP request and response types, built with the builder pattern.
//!
//! Only the pure builder core lives here: constructing a request and
//! attaching a body.  Sending a request over the network, serializing JSON
//! bodies, and backend registration are I/O concerns that sit outside the
//! verified library, taking these plain values as input.

use vstd::prelude::*;
use vstd::string::StringExecFns;

use crate::util::{decimal_spec, u64_to_decimal};

verus! {

/// HTTP request method.
#[derive(Clone, Copy, Debug, PartialEq, Eq)]
pub enum Method {
    Get,
    Head,
    Post,
    Put,
    Delete,
    Connect,
    Options,
    Trace,
    Patch,
}

/// An HTTP request under construction.
///
/// Headers are kept as name/value pairs in insertion order.
#[derive(Clone, Debug, PartialEq, Eq)]
pub struct Request {
    pub method: Method,
    pub url: String,
    pub headers: Vec<(String, String)>,
    pub body: Option<Vec<u8>>,
}

impl Request {
    /// A request for `url` with the given method, no headers and no body.
    pub fn new(method: Method, url: String) -> (r: Request)
        ensures
            r.method == method,
            r.url == url,
            r.headers@ == Seq::<(String, String)>::empty(),
            r.body is None,
    {
        Request { method, url, headers: Vec::new(), body: None }
    }

    /// Alias for `Request::new(Method::Get, url)`, for convenience.
    pub fn get(url: String) -> (r: Request)
        ensures
            r.method == Method::Get,
            r.url == url,
            r.headers@ == Seq::<(String, String)>::empty(),
            r.body is None,
    {
        Request::new(Method::Get, url)
    }

    /// Alias for `Request::new(Method::Patch, url)`, for convenience.
    pub fn patch(url: String) -> (r: Request)
        ensures
            r.method == Method::Patch,
            r.url == url,
            r.headers@ == Seq::<(String, String)>::empty(),
            r.body is None,
    {
        Request::new(Method::Patch, url)
    }

    /// Alias for `Request::new(Method::Post, url)`, for convenience.
    pub fn post(url: String) -> (r: Request)
        ensures
            r.method == Method::Post,
            r.url == url,
            r.headers@ == Seq::<(String, String)>::empty(),
            r.body is None,
    {
        Request::new(Method::Post, url)
    }

    /// Alias for `Request::new(Method::Put, url)`, for convenience.
    pub fn put(url: String) -> (r: Request)
        ensures
            r.method == Method::Put,
            r.url == url,
            r.headers@ == Seq::<(String, String)>::empty(),
            r.body is None,
    {
        Request::new(Method::Put, url)
    }

    /// Alias for `Request::new(Method::Delete, url)`, for convenience.
    pub fn delete(url: String) -> (r: Request)
        ensures
            r.method == Method::Delete,
            r.url == url,
            r.headers@ == Seq::<(String, String)>::empty(),
            r.body is None,
    {
        Request::new(Method::Delete, url)
    }

    /// Set this request's body.
    pub fn body(self, body: Vec<u8>) -> (r: Request)
        ensures
            r.method == self.method,
            r.url == self.url,
            r.headers == self.headers,
            r.body == Some(body),
    {
        Request { body: Some(body), ..self }
    }
}

/// An HTTP response.
#[derive(Clone, Debug, PartialEq, Eq)]
pub struct Response {
    pub url: String,
    pub status: u16,
    pub headers: Vec<(String, String)>,
    pub body: Vec<u8>,
}

impl Default for Response {
    /// An empty response: empty URL, status 0, no headers, empty body.
    fn default() -> (r: Response)
        ensures
            r.url@ == Seq::<char>::empty(),
            r.status == 0,
            r.headers@ == Seq::<(String, String)>::empty(),
            r.body@ == Seq::<u8>::empty(),
    {
        Response { url: String::new(), status: 0, headers: Vec::new(), body: Vec::new() }
    }
}

/// Settings for a backend instance.
///
/// Backend constructors take this in order to configure themselves.
#[derive(Clone, Copy, Debug, PartialEq, Eq)]
pub struct BackendSettings {
    /// Connection timeout in ms (0 indicates no timeout).
    pub connect_timeout: u32,
    /// Timeout for the entire request in ms (0 indicates no timeout).
    pub timeout: u32,
    /// Maximum amount of redirects to follow (0 means redirects are not
    /// allowed).
    pub redirect_limit: u32,
}

impl Default for BackendSettings {
    /// No connection or request timeout, and at most 10 redirects.
    fn default() -> (r: BackendSettings)
        ensures
            r.connect_timeout == 0,
            r.timeout == 0,
            r.redirect_limit == 10,
    {
        BackendSettings { connect_timeout: 0, timeout: 0, redirect_limit: 10 }
    }
}

/// Errors surfaced by the request layer.
#[derive(Clone, Debug, PartialEq, Eq)]
pub enum FairyBridgeError {
    BackendAlreadyInitialized,
    NoBackendInitialized,
    BackendError { msg: String },
    HttpError { code: u16 },
    InvalidRequestHeader { name: String },
    InvalidResponseHeader { name: String },
    SerializationError { msg: String },
}

impl FairyBridgeError {
    pub open spec fn message_spec(&self) -> Seq<char> {
        match self {
            FairyBridgeError::BackendAlreadyInitialized => "BackendAlreadyInitialized"@,
            FairyBridgeError::NoBackendInitialized => "NoBackendInitialized"@,
            FairyBridgeError::BackendError { msg } => "BackendError("@ + msg@ + ")"@,
            FairyBridgeError::HttpError { code } => "HttpError("@ + decimal_spec(*code as nat)
                + ")"@,
            FairyBridgeError::InvalidRequestHeader { name } => "InvalidRequestHeader("@ + name@
                + ")"@,
            FairyBridgeError::InvalidResponseHeader { name } => "InvalidResponseHeader("@ + name@
                + ")"@,
            FairyBridgeError::SerializationError { msg } => "SerializationError("@ + msg@ + ")"@,
        }
    }

    /// The error's message text.
    pub fn message(&self) -> (r: String)
        ensures
            r@ == self.message_spec(),
    {
        match self {
            FairyBridgeError::BackendAlreadyInitialized => String::from_str(
                "BackendAlreadyInitialized",
            ),
            FairyBridgeError::NoBackendInitialized => String::from_str("NoBackendInitialized"),
            FairyBridgeError::BackendError { msg } => String::from_str("BackendError(").concat(
                msg.as_str(),
            ).concat(")"),
            FairyBridgeError::HttpError { code } => String::from_str("HttpError(").concat(
                u64_to_decimal(*code as u64).as_str(),
            ).concat(")"),
            FairyBridgeError::InvalidRequestHeader { name } => String::from_str(
                "InvalidRequestHeader(",
            ).concat(name.as_str()).concat(")"),
            FairyBridgeError::InvalidResponseHeader { name } => String::from_str(
                "InvalidResponseHeader(",
            ).concat(name.as_str()).concat(")"),
            FairyBridgeError::SerializationError { msg } => String::from_str(
                "SerializationError(",
            ).concat(msg.as_str()).concat(")"),
        }
    }
}

} // verus!
