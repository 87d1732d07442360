//! The route table: its construction from registrations, and the lookup of
//! the handler registered for a method and an absolute path.

use crate::method::Method;
use crate::path::{compose, composed, joined_text, same_text, text_composes};
use crate::request::HttpRequest;
use crate::response::{Response, NOT_FOUND};
use crate::{answers, RequestHandler};
use vstd::prelude::*;
use vstd::std_specs::cmp::PartialEqSpec;
use vstd::utf8::encode_utf8;

verus! {

/// What identifies a route in contracts: the method's verb token and the
/// absolute path.
pub type KeyView = (Seq<char>, Seq<char>);

/// The identity of a route: an HTTP method and an absolute path. Two keys are
/// equal exactly when their methods are the same and their paths are the same
/// text.
#[derive(Debug, Hash)]
pub struct RouteKey {
    pub method: Method,
    pub path: String,
}

impl View for RouteKey {
    type V = KeyView;

    open spec fn view(&self) -> KeyView {
        (self.method@, self.path@)
    }
}

impl RouteKey {
    /// The key that a request is looked up by: its method and its path, as
    /// they are.
    pub open spec fn of(request: &HttpRequest) -> KeyView {
        (request.method@, request.uri_path@)
    }
}

impl<'a> From<&'a HttpRequest> for RouteKey {
    fn from(http_request: &'a HttpRequest) -> (key: RouteKey) {
        RouteKey { method: http_request.method.clone(), path: http_request.uri_path.clone() }
    }
}

impl<'a> vstd::std_specs::convert::FromSpecImpl<&'a HttpRequest> for RouteKey {
    open spec fn obeys_from_spec() -> bool {
        true
    }

    open spec fn from_spec(http_request: &'a HttpRequest) -> RouteKey {
        RouteKey { method: http_request.method, path: http_request.uri_path }
    }
}

impl Clone for RouteKey {
    fn clone(&self) -> (key: RouteKey)
        ensures
            key == *self,
    {
        RouteKey { method: self.method.clone(), path: self.path.clone() }
    }
}

impl PartialEq for RouteKey {
    fn eq(&self, other: &RouteKey) -> (equal: bool) {
        self.method == other.method && self.path == other.path
    }
}

impl Eq for RouteKey {}

impl vstd::std_specs::cmp::PartialEqSpecImpl for RouteKey {
    open spec fn obeys_eq_spec() -> bool {
        true
    }

    open spec fn eq_spec(&self, other: &RouteKey) -> bool {
        self@ == other@
    }
}

/// One registration: a handler for the requests with the given method whose
/// path is the context prefix joined with `path_suffix`.
pub struct RouteInfo<H> {
    pub method: Method,
    /// The path below the context prefix, as raw bytes.
    pub path_suffix: Vec<u8>,
    pub handler: H,
}

impl<H> RouteInfo<H> {
    /// The key under which this registration is entered for the given context
    /// prefix, or `None` if its absolute path is not valid text.
    pub open spec fn key(self, context: Seq<char>) -> Option<KeyView> {
        match composed(context, self.path_suffix@) {
            Some(path) => Some((self.method@, path)),
            None => None,
        }
    }
}

/// Why a route table could not be built.
#[derive(Debug)]
pub enum RouterError {
    /// Two registrations have the same method and absolute path. `key` is
    /// their common key.
    Collision { key: RouteKey },
    /// The absolute path of a registration is not valid text.
    /// `path_suffix` is the suffix of that registration.
    PathEncoding { path_suffix: Vec<u8> },
}

/// What is wrong with the registration at `index`, given the ones before it:
/// its path is not valid text, or an earlier registration has its key.
pub open spec fn fault_at<H>(routes: Seq<RouteInfo<H>>, context: Seq<char>, index: int) -> Option<
    Fault,
> {
    match routes[index].key(context) {
        None => Some(Fault::PathEncoding { path_suffix: routes[index].path_suffix@ }),
        Some(key) => if exists|earlier: int|
            0 <= earlier < index && #[trigger] routes[earlier].key(context) == Some(key) {
            Some(Fault::Collision { key })
        } else {
            None
        },
    }
}

/// A [`RouterError`] in contracts.
pub enum Fault {
    Collision { key: KeyView },
    PathEncoding { path_suffix: Seq<u8> },
}

impl View for RouterError {
    type V = Fault;

    open spec fn view(&self) -> Fault {
        match self {
            RouterError::Collision { key } => Fault::Collision { key: key@ },
            RouterError::PathEncoding { path_suffix } => Fault::PathEncoding {
                path_suffix: path_suffix@,
            },
        }
    }
}

/// No registration among the first `count` is at fault.
pub open spec fn faultless<H>(routes: Seq<RouteInfo<H>>, context: Seq<char>, count: int) -> bool {
    forall|index: int| 0 <= index < count ==> fault_at(routes, context, index) is None
}

/// The table holds exactly the given registrations, each under its key.
pub open spec fn holds<H>(
    table: Map<KeyView, H>,
    routes: Seq<RouteInfo<H>>,
    context: Seq<char>,
) -> bool {
    &&& forall|index: int|
        0 <= index < routes.len() ==> {
            &&& #[trigger] routes[index].key(context) is Some
            &&& table.contains_key(routes[index].key(context)->0)
            &&& table[routes[index].key(context)->0] == routes[index].handler
        }
    &&& forall|key: KeyView|
        table.contains_key(key) ==> exists|index: int|
            0 <= index < routes.len() && #[trigger] routes[index].key(context) == Some(key)
}

/// `result` is what the construction of a table from the registrations
/// gives. Where no registration is at fault, it is a table that holds them.
/// Otherwise it is the error of the first registration at fault.
pub open spec fn built<H>(
    result: Result<Router<H>, RouterError>,
    routes: Seq<RouteInfo<H>>,
    context: Seq<char>,
) -> bool {
    match result {
        Ok(router) => {
            &&& faultless(routes, context, routes.len() as int)
            &&& holds(router@, routes, context)
        },
        Err(error) => exists|index: int|
            0 <= index < routes.len() && faultless(routes, context, index) && #[trigger] fault_at(
                routes,
                context,
                index,
            ) == Some(error@),
    }
}

/// Every registration has a key: its absolute path is valid text.
pub open spec fn all_keyed<H>(routes: Seq<RouteInfo<H>>, context: Seq<char>) -> bool {
    forall|index: int| 0 <= index < routes.len() ==> #[trigger] routes[index].key(context) is Some
}

/// Two keys are equal exactly when their methods and their paths are: equal
/// parts make equal keys, wherever the strings are stored.
pub proof fn keys_of_equal_parts_are_equal(left: RouteKey, right: RouteKey)
    requires
        left.method@ == right.method@,
        left.path@ == right.path@,
    ensures
        left.eq_spec(&right),
        left@ == right@,
{
}

/// Keys that differ in the method, or in the path, are unequal.
pub proof fn keys_of_different_parts_differ(left: RouteKey, right: RouteKey)
    requires
        left.method@ != right.method@ || left.path@ != right.path@,
    ensures
        !left.eq_spec(&right),
        left@ != right@,
{
}

/// A registration whose suffix is text is entered under its method and the
/// text of the context prefix joined with that suffix.
pub proof fn text_suffix_has_a_key<H>(route: RouteInfo<H>, context: Seq<char>, suffix: Seq<char>)
    requires
        route.path_suffix@ == encode_utf8(suffix),
    ensures
        route.key(context) == Some((route.method@, joined_text(context, suffix))),
{
    text_composes(context, suffix);
}

/// Where every path is valid text and two registrations have the same method
/// and the same absolute path, construction fails, and with a collision.
pub proof fn same_key_twice_is_a_collision<H>(
    result: Result<Router<H>, RouterError>,
    routes: Seq<RouteInfo<H>>,
    context: Seq<char>,
    first: int,
    second: int,
)
    requires
        built(result, routes, context),
        all_keyed(routes, context),
        0 <= first < second < routes.len(),
        routes[first].key(context) == routes[second].key(context),
    ensures
        result is Err,
        result->Err_0 is Collision,
{
    assert(fault_at(routes, context, second) is Some);
    if result is Err {
        let index = choose|index: int|
            0 <= index < routes.len() && #[trigger] fault_at(routes, context, index) == Some(
                result->Err_0@,
            );
        assert(routes[index].key(context) is Some);
    }
}

/// Where every path is valid text and no two registrations have the same
/// method and the same absolute path, construction succeeds.
pub proof fn different_keys_build<H>(
    result: Result<Router<H>, RouterError>,
    routes: Seq<RouteInfo<H>>,
    context: Seq<char>,
)
    requires
        built(result, routes, context),
        all_keyed(routes, context),
        forall|first: int, second: int|
            0 <= first < second < routes.len() ==> #[trigger] routes[first].key(context)
                != #[trigger] routes[second].key(context),
    ensures
        result is Ok,
        holds(result->Ok_0@, routes, context),
{
    assert forall|index: int| 0 <= index < routes.len() implies fault_at(
        routes,
        context,
        index,
    ) is None by {
        assert(routes[index].key(context) is Some);
    }
}

/// A request whose method and path no registration has is answered with
/// nothing but the not-found response: a path that differs by a
/// trailing separator or by its prefix does not match, nor does the same path
/// under another method.
pub proof fn unregistered_request_is_not_found<H: RequestHandler>(
    router: Router<H>,
    routes: Seq<RouteInfo<H>>,
    context: Seq<char>,
    request: &HttpRequest,
    response: &Response<H::Body>,
)
    requires
        holds(router@, routes, context),
        forall|index: int|
            0 <= index < routes.len() ==> #[trigger] routes[index].key(context) != Some(
                RouteKey::of(request),
            ),
    ensures
        router.route(request) is None,
        answers(&router, request, response) ==> *response == Response::<H::Body>::bare(NOT_FOUND),
{
}

/// A request whose method and path a registration has is answered by that
/// registration's handler: what the router answers is an answer of that
/// handler, unchanged.
pub proof fn registered_request_is_delegated<H: RequestHandler>(
    router: Router<H>,
    routes: Seq<RouteInfo<H>>,
    context: Seq<char>,
    index: int,
    request: &HttpRequest,
    response: &Response<H::Body>,
)
    requires
        holds(router@, routes, context),
        0 <= index < routes.len(),
        routes[index].key(context) == Some(RouteKey::of(request)),
    ensures
        router.route(request) == Some(routes[index].handler),
        answers(&router, request, response) ==> answers(&routes[index].handler, request, response),
{
}

/// No two entries have the same key.
spec fn distinct<H>(entries: Seq<(RouteKey, H)>) -> bool {
    forall|i: int, j: int|
        0 <= i < j < entries.len() ==> (#[trigger] entries[i]).0@ != (#[trigger] entries[j]).0@
}

/// The position of the entry with the given key.
fn position<H>(entries: &Vec<(RouteKey, H)>, method: &Method, path: &str) -> (found: Option<usize>)
    ensures
        match found {
            Some(at) => at < entries@.len() && entries@[at as int].0@ == (method@, path@),
            None => forall|i: int|
                0 <= i < entries@.len() ==> (#[trigger] entries@[i]).0@ != (method@, path@),
        },
{
    let mut at: usize = 0;
    while at < entries.len()
        invariant
            at <= entries@.len(),
            forall|i: int| 0 <= i < at ==> (#[trigger] entries@[i]).0@ != (method@, path@),
        decreases entries@.len() - at,
    {
        let key = &entries[at].0;
        if key.method == *method && same_text(key.path.as_str(), path) {
            return Some(at);
        }
        at += 1;
    }
    None
}

/// The route table: for each registered method and absolute path, the one
/// handler registered for them. Built once, and only read afterwards.
pub struct Router<H> {
    route_key_to_handler: Vec<(RouteKey, H)>,
}

impl<H> View for Router<H> {
    type V = Map<KeyView, H>;

    /// The table as a map from keys to handlers.
    closed spec fn view(&self) -> Map<KeyView, H> {
        let entries = self.route_key_to_handler@;
        Map::new(
            |key: KeyView| exists|i: int| 0 <= i < entries.len() && (#[trigger] entries[i]).0@ == key,
            |key: KeyView|
                entries[choose|i: int| 0 <= i < entries.len() && (#[trigger] entries[i]).0@ == key].1,
        )
    }
}

impl<H> Router<H> {
    #[verifier::type_invariant]
    spec fn keys_occur_once(self) -> bool {
        distinct(self.route_key_to_handler@)
    }

    /// Builds the table from the registrations, each entered under its method
    /// and the context prefix joined with its path suffix.
    ///
    /// The registrations are taken in order. The first one whose absolute
    /// path is not valid text, or whose key an earlier one has, ends the
    /// construction with that error.
    pub fn new(routes: Vec<RouteInfo<H>>, context: &str) -> (result: Result<Router<H>, RouterError>)
        ensures
            built(result, routes@, context@),
    {
        let ghost registered = routes@;
        let mut entries: Vec<(RouteKey, H)> = Vec::with_capacity(routes.len());
        for route in it: routes
            invariant
                it.seq() == registered,
                entries@.len() == it.index(),
                faultless(registered, context@, it.index() as int),
                forall|i: int|
                    0 <= i < it.index() ==> {
                        &&& #[trigger] registered[i].key(context@) == Some(entries@[i].0@)
                        &&& entries@[i].1 == registered[i].handler
                    },
        {
            let ghost index = it.index() as int;
            let RouteInfo { method, path_suffix, handler } = route;
            match compose(context, path_suffix.as_slice()) {
                None => {
                    assert(fault_at(registered, context@, index) == Some(
                        Fault::PathEncoding { path_suffix: path_suffix@ },
                    ));
                    return Err(RouterError::PathEncoding { path_suffix });
                },
                Some(path) => {
                    match position(&entries, &method, path.as_str()) {
                        Some(earlier) => {
                            let key = RouteKey { method, path };
                            assert(registered[earlier as int].key(context@) == Some(key@));
                            assert(fault_at(registered, context@, index) == Some(
                                Fault::Collision { key: key@ },
                            ));
                            return Err(RouterError::Collision { key });
                        },
                        None => {
                            let key = RouteKey { method, path };
                            assert(fault_at(registered, context@, index) is None);
                            entries.push((key, handler));
                        },
                    }
                },
            }
        }
        let ghost keyed = entries@;
        proof {
            assert forall|i: int, j: int| 0 <= i < j < keyed.len() implies (#[trigger] keyed[i]).0@
                != (#[trigger] keyed[j]).0@ by {
                assert(registered[i].key(context@) == Some(keyed[i].0@));
                assert(fault_at(registered, context@, j) is None);
            }
        }
        let router = Router { route_key_to_handler: entries };
        proof {
            assert forall|index: int| 0 <= index < registered.len() implies {
                &&& #[trigger] registered[index].key(context@) is Some
                &&& router@.contains_key(registered[index].key(context@)->0)
                &&& router@[registered[index].key(context@)->0] == registered[index].handler
            } by {
                let key = keyed[index].0@;
                let chosen = choose|i: int| 0 <= i < keyed.len() && (#[trigger] keyed[i]).0@ == key;
                assert(chosen == index);
            }
            assert forall|key: KeyView| router@.contains_key(key) implies exists|index: int|
                0 <= index < registered.len() && #[trigger] registered[index].key(context@) == Some(
                    key,
                ) by {
                let chosen = choose|i: int| 0 <= i < keyed.len() && (#[trigger] keyed[i]).0@ == key;
                assert(registered[chosen].key(context@) == Some(key));
            }
        }
        Ok(router)
    }

    /// The handler registered for the given method and absolute path, if
    /// there is one. Method and path are compared as they are: nothing is
    /// normalised, and no other route stands in for one that is missing.
    pub fn find(&self, method: &Method, path: &str) -> (found: Option<&H>)
        ensures
            match found {
                Some(handler) => self@.contains_key((method@, path@)) && *handler == self@[(
                    method@,
                    path@,
                )],
                None => !self@.contains_key((method@, path@)),
            },
    {
        proof {
            use_type_invariant(self);
        }
        match position(&self.route_key_to_handler, method, path) {
            Some(at) => {
                proof {
                    let entries = self.route_key_to_handler@;
                    let key = (method@, path@);
                    let chosen = choose|i: int|
                        0 <= i < entries.len() && (#[trigger] entries[i]).0@ == key;
                    assert(chosen == at);
                }
                Some(&self.route_key_to_handler[at].1)
            },
            None => None,
        }
    }

    /// The handler that a request is routed to, if any.
    pub open spec fn route(&self, request: &HttpRequest) -> Option<H> {
        if self@.contains_key(RouteKey::of(request)) {
            Some(self@[RouteKey::of(request)])
        } else {
            None
        }
    }
}

impl<H: RequestHandler> RequestHandler for Router<H> {
    type Body = H::Body;

    /// A router answers as the handler that the request is routed to, with
    /// that handler's response as it is, and with the not-found response
    /// where there is none.
    fn handle(&self, request: &HttpRequest) -> (response: Response<H::Body>)
        ensures
            match self.route(request) {
                Some(handler) => answers(&handler, request, &response),
                None => response == Response::<H::Body>::bare(NOT_FOUND),
            },
    {
        let delegated = match self.find(&request.method, request.uri_path.as_str()) {
            Some(handler) => Some(handler.handle(request)),
            None => None,
        };
        Response::or_not_found(delegated)
    }
}

} // verus!
