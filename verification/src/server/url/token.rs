//! The pieces that a segment of a route pattern is made of.
use crate::server::url::error::{UrlError, UrlErrorView};
use vstd::prelude::*;

verus! {

/// One piece of a pattern segment: literal text, or a named variable with
/// the name of its type.
#[derive(Debug, PartialEq, Eq, Clone)]
pub enum UrlToken {
    Static(String),
    Var { name: String, ty: String },
}

/// A `UrlToken` with its strings as sequences of characters.
pub enum UrlTokenView {
    Static(Seq<char>),
    Var { name: Seq<char>, ty: Seq<char> },
}

impl View for UrlToken {
    type V = UrlTokenView;

    open spec fn view(&self) -> UrlTokenView {
        match self {
            UrlToken::Static(s) => UrlTokenView::Static(s@),
            UrlToken::Var { name, ty } => UrlTokenView::Var { name: name@, ty: ty@ },
        }
    }
}

/// Whether `ty` names one of the two variable types, `string` and `number`.
pub open spec fn is_var_type(ty: Seq<char>) -> bool {
    ty == "string"@ || ty == "number"@
}

impl UrlToken {
    /// A variable of the type named `ty`, which has to be `string` or
    /// `number`.
    pub fn var(name: String, ty: String) -> (r: Result<Self, UrlError>)
        ensures
            match r {
                Ok(token) => is_var_type(ty@) && token@ == (UrlTokenView::Var {
                    name: name@,
                    ty: ty@,
                }),
                Err(e) => !is_var_type(ty@) && e@ == UrlErrorView::InvalidType(ty@),
            },
    {
        if !ty.as_str().eq("string") && !ty.as_str().eq("number") {
            return Err(UrlError::InvalidType(ty));
        }
        Ok(UrlToken::Var { name, ty })
    }

    /// Whether the two tokens are the same.
    pub fn same(&self, other: &UrlToken) -> (r: bool)
        ensures
            r == (self@ == other@),
    {
        match (self, other) {
            (UrlToken::Static(a), UrlToken::Static(b)) => a.as_str().eq(b.as_str()),
            (UrlToken::Var { name: n1, ty: t1 }, UrlToken::Var { name: n2, ty: t2 }) => {
                n1.as_str().eq(n2.as_str()) && t1.as_str().eq(t2.as_str())
            },
            _ => false,
        }
    }

    /// A copy of the token.
    pub fn duplicate(&self) -> (r: UrlToken)
        ensures
            r@ == self@,
    {
        match self {
            UrlToken::Static(s) => UrlToken::Static(s.clone()),
            UrlToken::Var { name, ty } => UrlToken::Var { name: name.clone(), ty: ty.clone() },
        }
    }

    /// A variable of type `string`.
    pub fn string(name: String) -> (token: Self)
        ensures
            token@ == (UrlTokenView::Var { name: name@, ty: "string"@ }),
    {
        UrlToken::Var { name, ty: "string".to_owned() }
    }
}

} // verus!
