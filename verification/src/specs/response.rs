//! The response of a route.
use crate::specs::body::body::{Body, BodyView};
use crate::specs::status_code::StatusCode;
use vstd::prelude::*;

verus! {

/// The response of a route, as written in a configuration.
#[derive(Debug)]
pub struct Response {
    /// The status code to answer with.
    pub status: StatusCode,
    /// The time to wait before the answer, in milliseconds.
    pub delay: Option<u64>,
    /// The body, with its placeholders unresolved.
    pub body: Body,
}

/// A `Response` with its body as a mathematical tree.
pub struct ResponseView {
    pub status: u16,
    pub delay: Option<u64>,
    pub body: BodyView,
}

impl View for Response {
    type V = ResponseView;

    open spec fn view(&self) -> ResponseView {
        ResponseView { status: self.status.0, delay: self.delay, body: self.body@ }
    }
}

impl Default for Response {
    /// Status 200, no delay, and the body `null`.
    fn default() -> (response: Self)
        ensures
            response@ == (ResponseView { status: 200, delay: None, body: BodyView::Null }),
    {
        Response { status: StatusCode(200), delay: None, body: Body::Null }
    }
}

} // verus!
