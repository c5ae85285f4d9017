//! Plain-value HTTP message entities. The orchestrator owns one request and
//! (eventually) one response for the duration of a pipeline traversal and
//! hands them to each middleware hook by mutable reference.

use vstd::prelude::*;

verus! {

/// One HTTP header: a name and a value.
pub struct Header {
    pub name: String,
    pub value: String,
}

/// The abstract value of a `Header`.
#[verifier::ext_equal]
pub struct HeaderV {
    pub name: Seq<char>,
    pub value: Seq<char>,
}

impl View for Header {
    type V = HeaderV;

    open spec fn view(&self) -> HeaderV {
        HeaderV { name: self.name@, value: self.value@ }
    }
}

/// An HTTP request: method, target, headers and body.
pub struct Request {
    pub method: String,
    pub uri: String,
    pub headers: Vec<Header>,
    pub body: String,
}

/// The abstract value of a `Request`.
#[verifier::ext_equal]
pub struct ReqV {
    pub method: Seq<char>,
    pub uri: Seq<char>,
    pub headers: Seq<HeaderV>,
    pub body: Seq<char>,
}

impl View for Request {
    type V = ReqV;

    open spec fn view(&self) -> ReqV {
        ReqV {
            method: self.method@,
            uri: self.uri@,
            headers: self.headers@.map_values(|h: Header| h@),
            body: self.body@,
        }
    }
}

/// An HTTP response: status, headers and body.
pub struct Response {
    pub status: u16,
    pub headers: Vec<Header>,
    pub body: String,
}

/// The abstract value of a `Response`.
#[verifier::ext_equal]
pub struct RespV {
    pub status: u16,
    pub headers: Seq<HeaderV>,
    pub body: Seq<char>,
}

impl View for Response {
    type V = RespV;

    open spec fn view(&self) -> RespV {
        RespV {
            status: self.status,
            headers: self.headers@.map_values(|h: Header| h@),
            body: self.body@,
        }
    }
}

/// Whether the request carries a header with the given name.
pub open spec fn spec_has_header(r: ReqV, name: Seq<char>) -> bool {
    exists|i: int| 0 <= i < r.headers.len() && r.headers[i].name == name
}

impl Request {
    /// Whether this request carries a header with the given name.
    pub fn has_header(&self, name: &str) -> (r: bool)
        ensures
            r == spec_has_header(self@, name@),
    {
        let n: String = name.to_owned();
        let mut i: usize = 0;
        while i < self.headers.len()
            invariant
                i <= self.headers.len(),
                n@ == name@,
                forall|j: int| 0 <= j < i ==> self@.headers[j].name != name@,
            decreases self.headers.len() - i,
        {
            if self.headers[i].name == n {
                assert(self@.headers[i as int].name == name@);
                return true;
            }
            i = i + 1;
        }
        false
    }
}

/// A response with the given status, no headers, and the given body.
pub open spec fn spec_plain_response(status: u16, body: Seq<char>) -> RespV {
    RespV { status, headers: Seq::empty(), body }
}

impl Response {
    /// A response with the given status, no headers, and the given body.
    pub fn plain(status: u16, body: &str) -> (r: Response)
        ensures
            r@ == spec_plain_response(status, body@),
    {
        let r = Response { status, headers: Vec::new(), body: body.to_owned() };
        proof {
            assert(r@.headers =~= Seq::<HeaderV>::empty());
            assert(r@ =~= spec_plain_response(status, body@));
        }
        r
    }
}

} // verus!
