//! HTTP request methods.

use vstd::prelude::*;

verus! {

/// An HTTP method, identified by its verb token. Tokens are compared exactly:
/// `GET` and `get` are different methods.
#[derive(Debug, Hash)]
pub struct Method {
    token: String,
}

impl View for Method {
    type V = Seq<char>;

    /// The verb token.
    closed spec fn view(&self) -> Seq<char> {
        self.token@
    }
}

impl Method {
    /// The method with the given verb token.
    pub fn new(token: &str) -> (method: Method)
        ensures
            method@ == token@,
    {
        Method { token: token.to_owned() }
    }

    /// `GET`
    pub fn get() -> (method: Method)
        ensures
            method@ == "GET"@,
    {
        Method::new("GET")
    }

    /// `PUT`
    pub fn put() -> (method: Method)
        ensures
            method@ == "PUT"@,
    {
        Method::new("PUT")
    }

    /// The verb token.
    pub fn as_str(&self) -> (token: &str)
        ensures
            token@ == self@,
    {
        self.token.as_str()
    }
}

impl Clone for Method {
    fn clone(&self) -> (method: Method)
        ensures
            method == *self,
    {
        Method { token: self.token.clone() }
    }
}

impl PartialEq for Method {
    fn eq(&self, other: &Method) -> (equal: bool) {
        self.token == other.token
    }
}

impl Eq for Method {}

impl vstd::std_specs::cmp::PartialEqSpecImpl for Method {
    open spec fn obeys_eq_spec() -> bool {
        true
    }

    open spec fn eq_spec(&self, other: &Method) -> bool {
        self@ == other@
    }
}

} // verus!
