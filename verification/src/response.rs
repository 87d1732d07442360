//! Responses, as far as the router is concerned with them.

use vstd::prelude::*;

verus! {

/// The status code of a response to a request that was handled.
pub const OK: u16 = 200;

/// The status code of the response to a request that no route matches.
pub const NOT_FOUND: u16 = 404;

/// A response: a status code and, where there is one, a body.
#[derive(Debug)]
pub struct Response<B> {
    pub status: u16,
    pub body: Option<B>,
}

impl<B> Response<B> {
    /// The response with the given status and no body.
    pub open spec fn bare(status: u16) -> Response<B> {
        Response { status, body: None }
    }

    /// The response with the given status code and no body.
    pub fn from_status(status: u16) -> (response: Response<B>)
        ensures
            response == Response::<B>::bare(status),
    {
        Response { status, body: None }
    }

    /// The response to a request that no route matches: status 404, no body.
    pub fn not_found() -> (response: Response<B>)
        ensures
            response == Response::<B>::bare(NOT_FOUND),
    {
        Response::from_status(NOT_FOUND)
    }

    /// The response that carries `body` with status 200.
    pub fn ok(body: B) -> (response: Response<B>)
        ensures
            response == (Response { status: OK, body: Some(body) }),
    {
        Response { status: OK, body: Some(body) }
    }

    /// What the router answers, given what the matched handler answered, or
    /// `None` where no route matched: the handler's response as it is, or
    /// else the not-found response.
    pub fn or_not_found(delegated: Option<Response<B>>) -> (response: Response<B>)
        ensures
            response == match delegated {
                Some(answer) => answer,
                None => Response::<B>::bare(NOT_FOUND),
            },
    {
        match delegated {
            Some(answer) => answer,
            None => Response::not_found(),
        }
    }
}

} // verus!
