//! The HTTP method and address of a request to the display device.
use vstd::prelude::*;

use crate::text::{ascii_upper, same_text_ignoring_case};

verus! {

/// A request method, with the device's base URL.
#[derive(Clone, Debug)]
pub enum WiFiDigit {
    GET(String),
    PUT(String),
}

/// Whether the method name `m`, in any case, is PUT (`Some(true)`), GET (`Some(false)`), or
/// unknown.
pub open spec fn method_kind(m: Seq<char>) -> Option<bool> {
    if ascii_upper(m) == "GET"@ {
        Some(false)
    } else if ascii_upper(m) == "PUT"@ {
        Some(true)
    } else {
        None
    }
}

impl WiFiDigit {
    /// The device's base URL.
    pub open spec fn url_spec(&self) -> Seq<char> {
        match self {
            WiFiDigit::GET(u) => u@,
            WiFiDigit::PUT(u) => u@,
        }
    }

    /// The request method is PUT.
    pub open spec fn is_put_spec(&self) -> bool {
        self is PUT
    }

    /// A request to `url` with the method named `method`: `GET` or `PUT`, in any case.
    pub fn new(method: String, url: String) -> (r: Result<WiFiDigit, String>)
        ensures
            method_kind(method@) is None <==> r is Err,
            r matches Ok(d) ==> d.url_spec() == url@ && method_kind(method@) == Some(d.is_put_spec()),
            r matches Err(e) ==> e@ == "unknown method"@,
    {
        proof {
            reveal_strlit("GET");
            reveal_strlit("PUT");
            assert(ascii_upper("GET"@) =~= "GET"@);
            assert(ascii_upper("PUT"@) =~= "PUT"@);
        }
        if same_text_ignoring_case(method.as_str(), "GET") {
            Ok(WiFiDigit::GET(url))
        } else if same_text_ignoring_case(method.as_str(), "PUT") {
            Ok(WiFiDigit::PUT(url))
        } else {
            Err(String::from_str("unknown method"))
        }
    }

    /// The device's base URL.
    pub fn url(&self) -> (r: &String)
        ensures
            r@ == self.url_spec(),
    {
        match self {
            WiFiDigit::GET(u) => u,
            WiFiDigit::PUT(u) => u,
        }
    }

    /// Whether the request method is PUT.
    pub fn is_put(&self) -> (r: bool)
        ensures
            r == self.is_put_spec(),
    {
        match self {
            WiFiDigit::GET(_) => false,
            WiFiDigit::PUT(_) => true,
        }
    }

    /// The address of `command` on the device: the base URL, a `/`, then the command.
    pub fn target(&self, command: &str) -> (r: String)
        ensures
            r@ == self.url_spec() + seq!['/'] + command@,
    {
        proof {
            reveal_strlit("/");
        }
        let mut out = self.url().clone();
        out.append("/");
        out.append(command);
        out
    }
}

} // verus!
