//! Exact-match HTTP request routing: a route table built once from
//! (method, path suffix, handler) registrations under a context prefix, and
//! the dispatch of a request to the one handler registered for its method and
//! path.

pub mod method;
pub mod path;
pub mod request;
pub mod request_info;
pub mod response;
pub mod route;

use crate::path::{joined_text, text_composes};
use crate::request::HttpRequest;
use crate::request_info::RequestInfoHandler;
use crate::response::Response;
use crate::route::{fault_at, Router, RouterError};
use vstd::prelude::*;

verus! {

/// What answers requests: an endpoint, or a router that stands for many.
pub trait RequestHandler {
    /// What the bodies of this handler's responses are.
    type Body;

    /// Answers the request.
    fn handle(&self, request: &HttpRequest) -> (response: Response<Self::Body>);
}

/// Whether `response` is an answer that the handler may give to `request`:
/// whether a call of its `handle` on the request may return it.
pub open spec fn answers<H: RequestHandler>(
    handler: &H,
    request: &HttpRequest,
    response: &Response<H::Body>,
) -> bool {
    call_ensures(H::handle, (handler, request), *response)
}

/// Builds the router of all endpoints for the given context prefix: the
/// request-info endpoint answers `GET` on the prefix joined with
/// `request_info`, and nothing else is routed.
pub fn create_handlers(context: &str) -> (result: Result<Router<RequestInfoHandler>, RouterError>)
    ensures
        result matches Ok(router) && router@ == map![
            ("GET"@, joined_text(context@, "request_info"@)) => (RequestInfoHandler {}),
        ],
{
    let mut routes = Vec::new();
    let mut endpoint = request_info::create_routes();
    routes.append(&mut endpoint);
    proof {
        text_composes(context@, "request_info"@);
        assert(fault_at(routes@, context@, 0) is None);
    }
    let result = Router::new(routes, context);
    proof {
        if result is Ok {
            let table = result->Ok_0@;
            let key = ("GET"@, joined_text(context@, "request_info"@));
            assert(routes@[0].key(context@) == Some(key));
            assert(table =~= map![key => (RequestInfoHandler {})]);
        }
    }
    result
}

} // verus!
