use handlers::method::Method;
use handlers::request::{Header, HttpRequest, Version};
use handlers::response::{Response, NOT_FOUND, OK};
use handlers::route::{RouteInfo, RouteKey, Router, RouterError};
use handlers::RequestHandler;
use std::cell::Cell;
use std::rc::Rc;

/// Answers every request with a status of its own and the request's path,
/// and counts how often it was asked.
struct Canned {
    status: u16,
    calls: Rc<Cell<u32>>,
}

impl Canned {
    fn new(status: u16) -> Canned {
        Canned { status, calls: Rc::new(Cell::new(0)) }
    }
}

impl RequestHandler for Canned {
    type Body = String;

    fn handle(&self, request: &HttpRequest) -> Response<String> {
        self.calls.set(self.calls.get() + 1);
        Response { status: self.status, body: Some(format!("{} by {}", request.uri_path, self.status)) }
    }
}

fn request(method: Method, path: &str) -> HttpRequest {
    HttpRequest {
        connection_id: 7,
        request_id: 3,
        method,
        version: Version::Http11,
        uri_path: path.to_owned(),
        headers: Vec::new(),
    }
}

fn route<H>(method: Method, suffix: &str, handler: H) -> RouteInfo<H> {
    RouteInfo { method, path_suffix: suffix.as_bytes().to_vec(), handler }
}

#[test]
fn same_method_and_path_twice_is_a_collision() {
    let routes = vec![
        route(Method::get(), "request_info", 1u8),
        route(Method::get(), "request_info", 2u8),
    ];
    match Router::new(routes, "/api") {
        Err(RouterError::Collision { key }) => {
            assert_eq!(key.method, Method::get());
            assert_eq!(key.path, "/api/request_info");
        }
        _ => panic!("a collision was due"),
    }
}

#[test]
fn routes_that_differ_in_method_or_path_build() {
    let routes = vec![
        route(Method::get(), "request_info", 1u8),
        route(Method::put(), "request_info", 2u8),
        route(Method::get(), "request_info/", 3u8),
        route(Method::new("get"), "request_info", 4u8),
    ];
    let router = Router::new(routes, "/api").ok().unwrap();
    assert_eq!(router.find(&Method::get(), "/api/request_info"), Some(&1u8));
    assert_eq!(router.find(&Method::put(), "/api/request_info"), Some(&2u8));
    assert_eq!(router.find(&Method::get(), "/api/request_info/"), Some(&3u8));
    assert_eq!(router.find(&Method::new("get"), "/api/request_info"), Some(&4u8));
    assert_eq!(router.find(&Method::new("DELETE"), "/api/request_info"), None);
}

#[test]
fn no_routes_build_an_empty_table() {
    let router = Router::<u8>::new(Vec::new(), "/api").ok().unwrap();
    assert_eq!(router.find(&Method::get(), "/api"), None);
    assert_eq!(router.find(&Method::get(), ""), None);
}

#[test]
fn a_suffix_that_is_not_text_is_a_path_encoding_error() {
    let routes = vec![
        RouteInfo { method: Method::get(), path_suffix: vec![b'a', 0xff, b'b'], handler: 1u8 },
    ];
    match Router::new(routes, "/api") {
        Err(RouterError::PathEncoding { path_suffix }) => {
            assert_eq!(path_suffix, vec![b'a', 0xff, b'b']);
        }
        _ => panic!("a path encoding error was due"),
    }
}

#[test]
fn the_first_fault_in_order_is_reported() {
    let encoding_first = vec![
        route(Method::get(), "a", 1u8),
        RouteInfo { method: Method::get(), path_suffix: vec![0xc0], handler: 2u8 },
        route(Method::get(), "a", 3u8),
    ];
    assert!(matches!(
        Router::new(encoding_first, "/api"),
        Err(RouterError::PathEncoding { .. })
    ));
    let collision_first = vec![
        route(Method::get(), "a", 1u8),
        route(Method::get(), "a", 3u8),
        RouteInfo { method: Method::get(), path_suffix: vec![0xc0], handler: 2u8 },
    ];
    assert!(matches!(
        Router::new(collision_first, "/api"),
        Err(RouterError::Collision { .. })
    ));
}

#[test]
fn suffixes_that_compose_to_one_path_collide() {
    let routes = vec![route(Method::get(), "/api/x", 1u8), route(Method::get(), "x", 2u8)];
    match Router::new(routes, "/api") {
        Err(RouterError::Collision { key }) => assert_eq!(key.path, "/api/x"),
        _ => panic!("a collision was due"),
    }
}

#[test]
fn prefix_and_suffix_compose_to_the_registered_path() {
    let handler = Canned::new(OK);
    let calls = handler.calls.clone();
    let router = Router::new(vec![route(Method::get(), "request_info", handler)], "/api")
        .ok()
        .unwrap();
    assert!(router.find(&Method::get(), "/api/request_info").is_some());
    let hit = router.handle(&request(Method::get(), "/api/request_info"));
    assert_eq!(hit.status, OK);
    assert_eq!(hit.body, Some("/api/request_info by 200".to_owned()));
    assert_eq!(calls.get(), 1);
    let miss = router.handle(&request(Method::get(), "/request_info"));
    assert_eq!(miss.status, NOT_FOUND);
    assert_eq!(miss.status, 404);
    assert_eq!(miss.body, None);
    assert_eq!(calls.get(), 1);
}

#[test]
fn a_trailing_slash_does_not_match() {
    let router = Router::new(vec![route(Method::get(), "request_info", Canned::new(OK))], "/api")
        .ok()
        .unwrap();
    let response = router.handle(&request(Method::get(), "/api/request_info/"));
    assert_eq!(response.status, 404);
    assert_eq!(response.body, None);
    assert!(router.find(&Method::get(), "/api/request_info/").is_none());
    assert!(router.find(&Method::get(), "/api/request_inf").is_none());
    assert!(router.find(&Method::get(), "/api").is_none());
    assert!(router.find(&Method::get(), "/API/request_info").is_none());
}

#[test]
fn another_method_on_a_known_path_is_not_found() {
    let router = Router::new(vec![route(Method::get(), "request_info", Canned::new(OK))], "/api")
        .ok()
        .unwrap();
    let response = router.handle(&request(Method::put(), "/api/request_info"));
    assert_eq!(response.status, 404);
    assert_eq!(response.body, None);
    let lower = router.handle(&request(Method::new("get"), "/api/request_info"));
    assert_eq!(lower.status, 404);
}

#[test]
fn the_handler_s_response_comes_back_unchanged() {
    let router = Router::new(
        vec![
            route(Method::get(), "teapot", Canned::new(418)),
            route(Method::get(), "gone", Canned::new(404)),
            route(Method::get(), "broken", Canned::new(500)),
        ],
        "/api",
    )
    .ok()
    .unwrap();
    let teapot = router.handle(&request(Method::get(), "/api/teapot"));
    assert_eq!(teapot.status, 418);
    assert_eq!(teapot.body, Some("/api/teapot by 418".to_owned()));
    let gone = router.handle(&request(Method::get(), "/api/gone"));
    assert_eq!(gone.status, 404);
    assert_eq!(gone.body, Some("/api/gone by 404".to_owned()));
    let broken = router.handle(&request(Method::get(), "/api/broken"));
    assert_eq!(broken.status, 500);
    assert_eq!(broken.body, Some("/api/broken by 500".to_owned()));
}

#[test]
fn or_not_found_keeps_an_answer_and_fills_in_for_none() {
    let answer = Response { status: 503, body: Some(vec![1u8, 2, 3]) };
    let kept = Response::or_not_found(Some(answer));
    assert_eq!(kept.status, 503);
    assert_eq!(kept.body, Some(vec![1u8, 2, 3]));
    let filled: Response<Vec<u8>> = Response::or_not_found(None);
    assert_eq!(filled.status, 404);
    assert_eq!(filled.body, None);
    let bare: Response<u8> = Response::from_status(204);
    assert_eq!(bare.status, 204);
    assert_eq!(bare.body, None);
    let ok = Response::ok(5u8);
    assert_eq!(ok.status, 200);
    assert_eq!(ok.body, Some(5u8));
}

#[test]
fn end_to_end_dispatch() {
    let handler_a = Canned::new(OK);
    let calls = handler_a.calls.clone();
    let router = Router::new(vec![route(Method::get(), "request_info", handler_a)], "/svc")
        .ok()
        .unwrap();
    let response = router.handle(&request(Method::get(), "/svc/request_info"));
    assert_eq!(calls.get(), 1);
    assert_eq!(response.status, 200);
    assert_eq!(response.body, Some("/svc/request_info by 200".to_owned()));
    let unknown = router.handle(&request(Method::get(), "/unknown"));
    assert_eq!(unknown.status, 404);
    assert_eq!(unknown.body, None);
    assert_eq!(calls.get(), 1);
}

#[test]
fn a_router_is_a_handler_of_a_router() {
    let inner = Router::new(vec![route(Method::get(), "leaf", Canned::new(OK))], "/outer/inner")
        .ok()
        .unwrap();
    let outer = Router::new(vec![route(Method::get(), "inner/leaf", inner)], "/outer")
        .ok()
        .unwrap();
    let hit = outer.handle(&request(Method::get(), "/outer/inner/leaf"));
    assert_eq!(hit.status, 200);
    assert_eq!(hit.body, Some("/outer/inner/leaf by 200".to_owned()));
    let miss = outer.handle(&request(Method::get(), "/outer/inner/other"));
    assert_eq!(miss.status, 404);
    assert_eq!(miss.body, None);
}

#[test]
fn the_key_of_a_request_is_its_method_and_path() {
    let mut http_request = request(Method::put(), "/a/b/");
    http_request.headers.push(Header { name: "host".to_owned(), value: b"x".to_vec() });
    let key = RouteKey::from(&http_request);
    assert_eq!(key, RouteKey { method: Method::put(), path: "/a/b/".to_owned() });
    assert_eq!(key.clone(), key);
    assert_ne!(key, RouteKey { method: Method::put(), path: "/a/b".to_owned() });
}

#[test]
fn methods_are_their_tokens() {
    assert_eq!(Method::get().as_str(), "GET");
    assert_eq!(Method::put().as_str(), "PUT");
    assert_eq!(Method::new("PATCH").as_str(), "PATCH");
    assert_eq!(Method::new("GET"), Method::get());
    assert_ne!(Method::new("Get"), Method::get());
    assert_eq!(Method::get().clone(), Method::get());
}
