//! One entry of a configuration.
use crate::specs::method::Method;
use crate::specs::response::{Response, ResponseView};
use vstd::prelude::*;

verus! {

/// One route: a method, a pattern for the path, and the response.
#[derive(Debug)]
pub struct Spec {
    pub method: Method,
    pub url: String,
    pub response: Response,
}

/// A `Spec` with its pattern as a sequence of characters.
pub struct SpecView {
    pub method: Method,
    pub url: Seq<char>,
    pub response: ResponseView,
}

impl View for Spec {
    type V = SpecView;

    open spec fn view(&self) -> SpecView {
        SpecView { method: self.method, url: self.url@, response: self.response@ }
    }
}

} // verus!
