//! The values that a request path binds to the variables of a pattern.
use crate::name_map::NameMap;
use crate::text::{decimal_text, push_decimal};
use vstd::prelude::*;

verus! {

/// A value captured from a request path.
#[derive(Debug, PartialEq, Eq, Clone)]
pub enum UrlVar {
    String(String),
    Number(u32),
}

/// A `UrlVar` with its text as a sequence of characters.
pub enum UrlVarView {
    String(Seq<char>),
    Number(u32),
}

/// The captured variables of one request, by name.
pub type UrlVars = NameMap<UrlVar>;

impl View for UrlVar {
    type V = UrlVarView;

    open spec fn view(&self) -> UrlVarView {
        match self {
            UrlVar::String(s) => UrlVarView::String(s@),
            UrlVar::Number(n) => UrlVarView::Number(*n),
        }
    }
}

impl UrlVarView {
    /// The text that stands for the value inside a string.
    pub open spec fn text(self) -> Seq<char> {
        match self {
            UrlVarView::String(s) => s,
            UrlVarView::Number(n) => decimal_text(n as nat),
        }
    }
}

impl Default for UrlVar {
    /// The empty string.
    fn default() -> (v: Self)
        ensures
            v@ == UrlVarView::String(Seq::empty()),
    {
        UrlVar::String(String::new())
    }
}

impl UrlVar {
    /// The text that stands for the value inside a string: the string
    /// itself, or the number in decimal notation.
    pub fn to_string(&self) -> (s: String)
        ensures
            s@ == self@.text(),
    {
        match self {
            UrlVar::String(text) => text.clone(),
            UrlVar::Number(n) => {
                let mut s = String::new();
                push_decimal(&mut s, *n);
                assert(s@ =~= decimal_text(*n as nat));
                s
            },
        }
    }
}

} // verus!
