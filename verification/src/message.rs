//! The parts of HTTP messages that CORS is about.
use crate::headers::{header_fields, Fields};
use http::{HeaderMap, HeaderValue};
use vstd::prelude::*;

verus! {

/// The parts of a request that the CORS logic reads.
#[derive(Debug)]
pub struct Request<'a> {
    pub method: &'a str,
    pub headers: &'a HeaderMap<HeaderValue>,
}

/// A request, as texts and bytes.
pub struct RequestModel {
    pub method: Seq<char>,
    pub fields: Fields,
}

impl<'a> View for Request<'a> {
    type V = RequestModel;

    open spec fn view(&self) -> RequestModel {
        RequestModel { method: self.method@, fields: header_fields(*self.headers) }
    }
}

/// The head of a response. Its body is empty, or none of the CORS logic's business.
#[derive(Debug)]
pub struct Response {
    pub status: u16,
    pub headers: HeaderMap<HeaderValue>,
}

/// The head of a response, as bytes.
pub struct ResponseModel {
    pub status: u16,
    pub fields: Fields,
}

impl View for Response {
    type V = ResponseModel;

    open spec fn view(&self) -> ResponseModel {
        ResponseModel { status: self.status, fields: header_fields(self.headers) }
    }
}

/// The status of a request that was served.
pub const OK: u16 = 200;

} // verus!
