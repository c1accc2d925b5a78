//! The request view the proxy core consumes, and the request log the server
//! keeps for test introspection.

use crate::web::UrlModel;
use crate::web::UrlParts;
use vstd::prelude::*;

verus! {

/// What the core reads from an inbound request: its URL and its method.
/// The hosting server adapts its own request type to this trait.
pub trait ParodyRequest {
    /// The model of the request's URL.
    spec fn url_spec(&self) -> UrlModel;

    /// The request method, uppercase.
    spec fn method_spec(&self) -> Seq<char>;

    /// The parsed URL of the request.
    fn get_url(&self) -> (u: UrlParts)
        ensures
            u@ == self.url_spec(),
    ;

    /// The request method.
    fn get_method(&self) -> (m: String)
        ensures
            m@ == self.method_spec(),
    ;
}

/// One observed request: method and URL, as logged by the handler.
#[derive(Debug, Clone)]
pub struct RequestLogItem {
    pub url: UrlParts,
    pub method: String,
}

impl ParodyRequest for RequestLogItem {
    open spec fn url_spec(&self) -> UrlModel {
        self.url@
    }

    open spec fn method_spec(&self) -> Seq<char> {
        self.method@
    }

    fn get_url(&self) -> (u: UrlParts)
        ensures
            u@ == self.url_spec(),
    {
        self.url.duplicate()
    }

    fn get_method(&self) -> (m: String)
        ensures
            m@ == self.method_spec(),
    {
        self.method.clone()
    }
}

/// The append-only list of observed requests, shared for test introspection.
/// Mutual exclusion around it is the embedder's concern.
pub struct RequestLog {
    items: Vec<RequestLogItem>,
}

impl View for RequestLog {
    type V = Seq<RequestLogItem>;

    closed spec fn view(&self) -> Seq<RequestLogItem> {
        self.items@
    }
}

impl RequestLog {
    /// An empty log.
    pub fn new() -> (r: Self)
        ensures
            r@ == Seq::<RequestLogItem>::empty(),
    {
        RequestLog { items: Vec::new() }
    }

    /// Appends one observed request; nothing is ever removed.
    pub fn append(&mut self, item: RequestLogItem)
        ensures
            final(self)@ == old(self)@.push(item),
    {
        self.items.push(item);
    }

    /// How many requests have been observed.
    pub fn len(&self) -> (n: usize)
        ensures
            n == self@.len(),
    {
        self.items.len()
    }

    /// The `i`-th observed request, in arrival order.
    pub fn get(&self, i: usize) -> (r: &RequestLogItem)
        requires
            i < self@.len(),
        ensures
            *r == self@[i as int],
    {
        &self.items[i]
    }
}

} // verus!
