//! The methods of HTTP requests.
use vstd::prelude::*;

verus! {

/// The method of an HTTP request.
#[derive(Debug, Clone, Copy, PartialEq, Eq, Structural)]
pub enum Method {
    Get,
    Head,
    Post,
    Put,
    Delete,
    Connect,
    Options,
    Trace,
    Patch,
}

impl Method {
    /// The name of the method as it stands in a request line.
    pub open spec fn spec_name(self) -> Seq<char> {
        match self {
            Method::Get => "GET"@,
            Method::Head => "HEAD"@,
            Method::Post => "POST"@,
            Method::Put => "PUT"@,
            Method::Delete => "DELETE"@,
            Method::Connect => "CONNECT"@,
            Method::Options => "OPTIONS"@,
            Method::Trace => "TRACE"@,
            Method::Patch => "PATCH"@,
        }
    }

    /// The method that a name stands for, in contracts. The names are
    /// tried in the order of the methods.
    pub open spec fn spec_from_name(name: Seq<char>) -> Option<Method> {
        if name == "GET"@ {
            Some(Method::Get)
        } else if name == "HEAD"@ {
            Some(Method::Head)
        } else if name == "POST"@ {
            Some(Method::Post)
        } else if name == "PUT"@ {
            Some(Method::Put)
        } else if name == "DELETE"@ {
            Some(Method::Delete)
        } else if name == "CONNECT"@ {
            Some(Method::Connect)
        } else if name == "OPTIONS"@ {
            Some(Method::Options)
        } else if name == "TRACE"@ {
            Some(Method::Trace)
        } else if name == "PATCH"@ {
            Some(Method::Patch)
        } else {
            None
        }
    }

    /// The name of the method as it stands in a request line.
    pub fn name(&self) -> (name: &'static str)
        ensures
            name@ == self.spec_name(),
    {
        match self {
            Method::Get => "GET",
            Method::Head => "HEAD",
            Method::Post => "POST",
            Method::Put => "PUT",
            Method::Delete => "DELETE",
            Method::Connect => "CONNECT",
            Method::Options => "OPTIONS",
            Method::Trace => "TRACE",
            Method::Patch => "PATCH",
        }
    }

    /// The method that the name of a request line stands for; `None` for a
    /// name that is none of the nine.
    pub fn from_name(name: &str) -> (r: Option<Method>)
        ensures
            r == Method::spec_from_name(name@),
    {
        if name.eq("GET") {
            Some(Method::Get)
        } else if name.eq("HEAD") {
            Some(Method::Head)
        } else if name.eq("POST") {
            Some(Method::Post)
        } else if name.eq("PUT") {
            Some(Method::Put)
        } else if name.eq("DELETE") {
            Some(Method::Delete)
        } else if name.eq("CONNECT") {
            Some(Method::Connect)
        } else if name.eq("OPTIONS") {
            Some(Method::Options)
        } else if name.eq("TRACE") {
            Some(Method::Trace)
        } else if name.eq("PATCH") {
            Some(Method::Patch)
        } else {
            None
        }
    }
}

/// The name of a method stands for that method.
pub proof fn method_name_stands_for_the_method(method: Method)
    ensures
        Method::spec_from_name(method.spec_name()) == Some(method),
{
    reveal_strlit("GET");
    reveal_strlit("HEAD");
    reveal_strlit("POST");
    reveal_strlit("PUT");
    reveal_strlit("DELETE");
    reveal_strlit("CONNECT");
    reveal_strlit("OPTIONS");
    reveal_strlit("TRACE");
    reveal_strlit("PATCH");
    assert("GET"@.len() == 3 && "PUT"@.len() == 3);
    assert("HEAD"@.len() == 4 && "POST"@.len() == 4);
    assert("TRACE"@.len() == 5 && "PATCH"@.len() == 5);
    assert("DELETE"@.len() == 6);
    assert("CONNECT"@.len() == 7 && "OPTIONS"@.len() == 7);
    assert("GET"@[0] != "PUT"@[0]);
    assert("HEAD"@[0] != "POST"@[0]);
    assert("TRACE"@[0] != "PATCH"@[0]);
    assert("CONNECT"@[0] != "OPTIONS"@[0]);
}

} // verus!
