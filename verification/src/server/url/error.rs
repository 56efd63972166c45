//! What can be wrong with a route pattern or a response template.
use crate::text::{push_char, push_text};
use vstd::prelude::*;

verus! {

/// A syntax error in a route pattern or in a response template.
#[derive(Debug, Clone, PartialEq, Eq)]
pub enum UrlError {
    /// The variable of this name is not closed by `}`.
    UnclosedVar(String),
    /// After the variable `name` the character `exp` was expected.
    UnexVarChar { name: String, exp: char, found: char },
    /// An identifier starts with this character, which is no letter or `_`.
    IdentStart(char),
    /// The input ends where an identifier was expected.
    MissingIdent,
    /// The input ends after the escape character.
    EscapeCharMiss,
    /// The variable type of this name does not exist.
    InvalidType(String),
    /// A placeholder refers to an object of this name, which does not exist.
    UnknownObject(String),
}

/// A `UrlError` with its strings as sequences of characters.
pub enum UrlErrorView {
    UnclosedVar(Seq<char>),
    UnexVarChar { name: Seq<char>, exp: char, found: char },
    IdentStart(char),
    MissingIdent,
    EscapeCharMiss,
    InvalidType(Seq<char>),
    UnknownObject(Seq<char>),
}

impl View for UrlError {
    type V = UrlErrorView;

    open spec fn view(&self) -> UrlErrorView {
        match self {
            UrlError::UnclosedVar(name) => UrlErrorView::UnclosedVar(name@),
            UrlError::UnexVarChar { name, exp, found } => UrlErrorView::UnexVarChar {
                name: name@,
                exp: *exp,
                found: *found,
            },
            UrlError::IdentStart(c) => UrlErrorView::IdentStart(*c),
            UrlError::MissingIdent => UrlErrorView::MissingIdent,
            UrlError::EscapeCharMiss => UrlErrorView::EscapeCharMiss,
            UrlError::InvalidType(ty) => UrlErrorView::InvalidType(ty@),
            UrlError::UnknownObject(name) => UrlErrorView::UnknownObject(name@),
        }
    }
}

impl UrlErrorView {
    /// The message that describes the error to the operator.
    pub open spec fn message(self) -> Seq<char> {
        match self {
            UrlErrorView::UnclosedVar(name) => "unclosed variable `"@ + name
                + "` in specification."@,
            UrlErrorView::UnexVarChar { name, exp, found } => "invalid character in variable "@
                + name + ": expected "@ + seq![exp] + ", found "@ + seq![found] + "."@,
            UrlErrorView::IdentStart(c) => "identifier must start with a letter or _, found "@
                + seq![c] + "."@,
            UrlErrorView::MissingIdent => "expected identifier"@,
            UrlErrorView::EscapeCharMiss => "escape character `\\` must be followed by another character."@,
            UrlErrorView::InvalidType(ty) => "variable type `"@ + ty + "` doesn't exist."@,
            UrlErrorView::UnknownObject(name) => "unknown object `"@ + name + "`."@,
        }
    }
}

impl UrlError {
    /// The error for a character `found` where `exp` had to follow the
    /// variable `name`.
    pub fn unex_var_char(name: String, exp: char, found: char) -> (e: Self)
        ensures
            e@ == (UrlErrorView::UnexVarChar { name: name@, exp, found }),
    {
        UrlError::UnexVarChar { name, exp, found }
    }

    /// The message that describes the error to the operator.
    pub fn to_string(&self) -> (s: String)
        ensures
            s@ == self@.message(),
    {
        let mut s = String::new();
        match self {
            UrlError::UnclosedVar(name) => {
                push_text(&mut s, "unclosed variable `");
                push_text(&mut s, name.as_str());
                push_text(&mut s, "` in specification.");
            },
            UrlError::UnexVarChar { name, exp, found } => {
                push_text(&mut s, "invalid character in variable ");
                push_text(&mut s, name.as_str());
                push_text(&mut s, ": expected ");
                push_char(&mut s, *exp);
                push_text(&mut s, ", found ");
                push_char(&mut s, *found);
                push_text(&mut s, ".");
            },
            UrlError::IdentStart(c) => {
                push_text(&mut s, "identifier must start with a letter or _, found ");
                push_char(&mut s, *c);
                push_text(&mut s, ".");
            },
            UrlError::MissingIdent => {
                push_text(&mut s, "expected identifier");
            },
            UrlError::EscapeCharMiss => {
                push_text(&mut s, "escape character `\\` must be followed by another character.");
            },
            UrlError::InvalidType(ty) => {
                push_text(&mut s, "variable type `");
                push_text(&mut s, ty.as_str());
                push_text(&mut s, "` doesn't exist.");
            },
            UrlError::UnknownObject(name) => {
                push_text(&mut s, "unknown object `");
                push_text(&mut s, name.as_str());
                push_text(&mut s, "`.");
            },
        }
        assert(s@ =~= self@.message());
        s
    }
}

} // verus!
