//! One exchange with the server, as plain values.
//!
//! This library performs no I/O. It says which request an operation needs
//! ([`HttpRequest`]) and reads what the transport brings back ([`Exchange`]).

use vstd::prelude::*;

verus! {

/// The HTTP methods of the wire protocol.
#[derive(Debug, Clone, Copy, PartialEq, Eq, Structural)]
pub enum Method {
    Get,
    Post,
    Delete,
}

/// A request to issue: its method, its full URL and, where it has one, its
/// JSON body.
#[derive(Debug, Clone, PartialEq, Eq)]
pub struct HttpRequest {
    pub method: Method,
    pub url: String,
    pub body: Option<String>,
}

/// What an [`HttpRequest`] holds.
pub struct HttpRequestView {
    pub method: Method,
    pub url: Seq<char>,
    pub body: Option<Seq<char>>,
}

impl View for HttpRequest {
    type V = HttpRequestView;

    open spec fn view(&self) -> HttpRequestView {
        HttpRequestView {
            method: self.method,
            url: self.url@,
            body: match self.body {
                Some(text) => Some(text@),
                None => None,
            },
        }
    }
}

/// How the transport fared with one request.
#[derive(Debug, Clone, PartialEq, Eq)]
pub enum Exchange {
    /// No answer: the server was not reached or the connection broke.
    Failed { reason: String },
    /// An answer, with its status code and the bytes of its whole body.
    Completed { status: u16, body: Vec<u8> },
}

/// What an [`Exchange`] holds.
pub enum ExchangeView {
    Failed { reason: Seq<char> },
    Completed { status: u16, body: Seq<u8> },
}

impl View for Exchange {
    type V = ExchangeView;

    open spec fn view(&self) -> ExchangeView {
        match self {
            Exchange::Failed { reason } => ExchangeView::Failed { reason: reason@ },
            Exchange::Completed { status, body } => ExchangeView::Completed {
                status: *status,
                body: body@,
            },
        }
    }
}

/// A status code in the success range, 200 to 299.
pub open spec fn is_success(status: u16) -> bool {
    200 <= status < 300
}

/// Tells whether `status` lies in the success range.
pub fn status_is_success(status: u16) -> (r: bool)
    ensures
        r == is_success(status),
{
    200 <= status && status < 300
}

} // verus!
