use handlers::method::Method;
use handlers::route::RouteKey;
use std::collections::hash_map::DefaultHasher;
use std::hash::{Hash, Hasher};

#[test]
fn test_route_key_equality() {
    let borrowed: &str = "/test";
    assert_eq!(
        RouteKey {
            method: Method::get(),
            path: String::from(borrowed),
        },
        RouteKey {
            method: Method::get(),
            path: "/test".to_owned(),
        }
    );

    assert_ne!(
        RouteKey {
            method: Method::get(),
            path: String::from(borrowed),
        },
        RouteKey {
            method: Method::put(),
            path: "/test".to_owned(),
        }
    );

    assert_ne!(
        RouteKey {
            method: Method::get(),
            path: String::from("/nottest"),
        },
        RouteKey {
            method: Method::get(),
            path: "/test".to_owned(),
        }
    );
}

#[test]
fn test_route_key_hash() {
    let key1 = RouteKey {
        method: Method::get(),
        path: String::from("/test"),
    };

    let key2 = RouteKey {
        method: Method::new("GET"),
        path: "/test".to_owned(),
    };

    let mut s = DefaultHasher::new();
    key1.hash(&mut s);
    let key1_hash = s.finish();

    let mut s = DefaultHasher::new();
    key2.hash(&mut s);
    let key2_hash = s.finish();

    assert_eq!(key1_hash, key2_hash);
}
