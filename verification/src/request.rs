//! Request descriptors: what a collaborator asks the bridge to fetch.

use vstd::prelude::*;

verus! {

/// The HTTP method of a request descriptor.
#[derive(Clone, Copy, Debug, Eq, PartialEq, Structural)]
pub enum Method {
    Get,
    Head,
    Post,
    Put,
    Delete,
}

impl Method {
    /// The method's name on the wire.
    pub fn name(&self) -> (r: String)
        ensures
            r@ == method_chars(*self),
    {
        match self {
            Method::Get => "GET".to_owned(),
            Method::Head => "HEAD".to_owned(),
            Method::Post => "POST".to_owned(),
            Method::Put => "PUT".to_owned(),
            Method::Delete => "DELETE".to_owned(),
        }
    }
}

/// The wire name of each method.
pub open spec fn method_chars(m: Method) -> Seq<char> {
    match m {
        Method::Get => "GET"@,
        Method::Head => "HEAD"@,
        Method::Post => "POST"@,
        Method::Put => "PUT"@,
        Method::Delete => "DELETE"@,
    }
}

/// A declarative request: method, target and headers, not yet started.
/// Consuming it (the dispatcher moves it out of its slot) invalidates it.
#[derive(Debug, Eq, PartialEq)]
pub struct HttpRequest {
    pub method: Method,
    pub url: String,
    pub headers: Vec<(String, String)>,
}

/// The request tag a slot carries.  It holds `Some` until a dispatcher pass
/// takes the descriptor out; the bridge then detaches the whole tag.
#[derive(Debug, Eq, PartialEq)]
pub struct ReqwestRequest(pub Option<HttpRequest>);

impl From<HttpRequest> for ReqwestRequest {
    fn from(val: HttpRequest) -> (r: Self) {
        ReqwestRequest(Some(val))
    }
}

impl vstd::std_specs::convert::FromSpecImpl<HttpRequest> for ReqwestRequest {
    open spec fn obeys_from_spec() -> bool {
        true
    }

    open spec fn from_spec(t: HttpRequest) -> Self {
        ReqwestRequest(Some(t))
    }
}

} // verus!
