//! Answering a request.
use crate::error::{Error, ErrorView};
use crate::name_map::NameMap;
use crate::server::router::Router;
use crate::server::url::var::{UrlVarView, UrlVars};
use crate::specs::body::body::BodyView;
use crate::specs::body::resolve::{
    resolves, warnings_of, warnings_view, Resolved, Warning, MAX_REF_DEPTH,
};
use crate::specs::body::value::Value;
use crate::specs::method::Method;
use crate::specs::mock_config::Templates;
use crate::specs::response::{Response, ResponseView};
use crate::specs::status_code::{invalid_status_message, is_http_status};
use vstd::prelude::*;

verus! {

/// What is sent for a request that a route matches.
#[derive(Debug, PartialEq, Eq)]
pub struct Answer {
    /// The status code.
    pub status: u16,
    /// The resolved body, to be serialised.
    pub body: Value,
    /// What was left empty in the body.
    pub warnings: Vec<Warning>,
}

/// What the server does with a request.
#[derive(Debug, PartialEq, Eq)]
pub enum Reply {
    /// A route matches: wait for `delay` milliseconds if there is a delay,
    /// then send the answer, or fail with the error.
    Found { delay: Option<u64>, answer: Result<Answer, Error> },
    /// No route matches: send the response that stands for a missing route.
    NotFound,
}

/// Whether `answer` is what the response `response` may be answered with
/// under the variables `vars`: the error for a status code that cannot be
/// sent, else the status code and a resolved body with its warnings.
pub open spec fn answers(
    response: ResponseView,
    vars: Map<Seq<char>, UrlVarView>,
    templates: Map<Seq<char>, BodyView>,
    answer: Result<Answer, Error>,
) -> bool {
    match answer {
        Ok(sent) => {
            &&& is_http_status(response.status)
            &&& sent.status == response.status
            &&& resolves(response.body, vars, templates, MAX_REF_DEPTH as nat, sent.body@)
            &&& warnings_view(sent.warnings@) == warnings_of(
                response.body,
                vars,
                templates,
                MAX_REF_DEPTH as nat,
            )
        },
        Err(e) => {
            &&& !is_http_status(response.status)
            &&& e@ == ErrorView::Msg(invalid_status_message(response.status))
        },
    }
}

impl Response {
    /// The body of the response, resolved against the variables and the
    /// templates.
    pub fn expand_vars(&self, vars: &UrlVars, templates: &Templates) -> (r: Resolved)
        ensures
            resolves(self@.body, vars@, templates@, MAX_REF_DEPTH as nat, r.value@),
            warnings_view(r.warnings@) == warnings_of(
                self@.body,
                vars@,
                templates@,
                MAX_REF_DEPTH as nat,
            ),
    {
        self.body.resolve(vars, templates)
    }

    /// What is sent for this response under the variables `vars`.
    pub fn to_http_response(&self, vars: &UrlVars, templates: &Templates) -> (r: Result<
        Answer,
        Error,
    >)
        ensures
            answers(self@, vars@, templates@, r),
    {
        let Resolved { value, warnings } = self.expand_vars(vars, templates);
        match self.status.checked() {
            Ok(status) => Ok(Answer { status, body: value, warnings }),
            Err(e) => Err(e),
        }
    }
}

impl Router {
    /// What the server does with a request of the given method and path:
    /// the route is looked up with no variable bound, and the response of
    /// the route is resolved against the variables that the path binds.
    pub fn handle_request(&self, method: &Method, path: &str) -> (reply: Reply)
        ensures
            match self@.find(*method, path@, Map::empty()).response {
                None => reply is NotFound,
                Some(response) => reply matches Reply::Found { delay, answer } && delay
                    == response.delay && answers(
                    response,
                    self@.find(*method, path@, Map::empty()).vars,
                    self@.templates,
                    answer,
                ),
            },
    {
        let mut vars: UrlVars = NameMap::new();
        match self.find(method, path, &mut vars) {
            Some(response) => Reply::Found {
                delay: response.delay,
                answer: response.to_http_response(&vars, &self.templates),
            },
            None => Reply::NotFound,
        }
    }
}

} // verus!
