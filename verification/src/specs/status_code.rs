//! The status code of a response.
use crate::error::{Error, ErrorView};
use crate::text::{decimal_text, push_decimal, push_text};
use vstd::prelude::*;

verus! {

/// An HTTP status code as written in a configuration.
#[derive(Debug, Clone, Copy, PartialEq, Eq, Structural)]
pub struct StatusCode(pub u16);

impl Default for StatusCode {
    /// The status 200.
    fn default() -> (code: Self)
        ensures
            code.0 == 200,
    {
        StatusCode(200)
    }
}

/// Whether `code` can be sent as the status of a response: it has three
/// digits.
pub open spec fn is_http_status(code: u16) -> bool {
    100 <= code <= 999
}

/// The message for a status code that cannot be sent.
pub open spec fn invalid_status_message(code: u16) -> Seq<char> {
    "Invalid status code: "@ + decimal_text(code as nat)
}

/// `hyper::StatusCode::from_u16` accepts a number from 100 up to 999 and
/// refuses every other.
#[verifier::external_body]
fn accepted_by_hyper(code: u16) -> (r: bool)
    ensures
        r == is_http_status(code),
{
    hyper::StatusCode::from_u16(code).is_ok()
}

impl StatusCode {
    /// The number of the status code, if it can be sent.
    pub fn checked(&self) -> (r: Result<u16, Error>)
        ensures
            match r {
                Ok(code) => is_http_status(self.0) && code == self.0,
                Err(e) => !is_http_status(self.0) && e@ == ErrorView::Msg(
                    invalid_status_message(self.0),
                ),
            },
    {
        if accepted_by_hyper(self.0) {
            Ok(self.0)
        } else {
            let mut message = String::new();
            push_text(&mut message, "Invalid status code: ");
            push_decimal(&mut message, self.0 as u32);
            assert(message@ =~= invalid_status_message(self.0));
            Err(Error::Msg(message))
        }
    }
}

} // verus!
