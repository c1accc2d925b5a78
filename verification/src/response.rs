//! The response view the proxy core consumes from the upstream client and
//! produces back to the hosting server.

use vstd::prelude::*;

verus! {

/// What the core reads from a response: status, ordered headers, and the
/// body as bytes. The upstream HTTP client adapts its response type to this
/// trait; a cache entry is itself such a response.
pub trait ParodyResponse {
    /// The status code.
    spec fn status_spec(&self) -> u16;

    /// The header pairs, order and duplicates preserved.
    spec fn headers_spec(&self) -> Seq<(Seq<char>, Seq<char>)>;

    /// The body bytes.
    spec fn body_spec(&self) -> Seq<u8>;

    /// The status code.
    fn get_status(&self) -> (s: u16)
        ensures
            s == self.status_spec(),
    ;

    /// The header pairs.
    fn get_headers(&self) -> (h: Vec<(String, String)>)
        ensures
            h.deep_view() == self.headers_spec(),
    ;

    /// The body bytes.
    fn get_body(&self) -> (b: Vec<u8>)
        ensures
            b@ == self.body_spec(),
    ;
}

} // verus!
