//! The upstream forwarder's build stage: rewriting an inbound request into
//! the request sent to the configured upstream. The network call itself is
//! the embedder's, performed on demand from the built value.

use crate::config::clone_string_vec;
use crate::error::CommonError;
use crate::error::Error;
use crate::pairs::clone_pair_vec;
use crate::text::is_host_header;
use crate::text::is_host_header_name;
use crate::web::authority_chars;
use crate::web::authority_string;
use crate::web::UrlModel;
use crate::web::UrlParts;
use vstd::prelude::*;

verus! {

/// Marker under which the embedder keeps the pending upstream request in
/// its per-request environment.
#[derive(Debug, Clone, Copy)]
pub struct ProxyResponse;

/// The built upstream request: method, rewritten URL, rewritten headers.
/// The inbound body is forwarded verbatim beside it.
#[derive(Debug)]
pub struct UpstreamRequest {
    pub method: String,
    pub url: UrlParts,
    pub headers: Vec<(String, String)>,
}

/// The upstream path acting as a prefix: its trailing empty segments are
/// dropped, as joining paths drops a trailing separator.
pub open spec fn trim_trailing_empty(s: Seq<Seq<char>>) -> Seq<Seq<char>>
    decreases s.len(),
{
    if s.len() > 0 && s.last().len() == 0 {
        trim_trailing_empty(s.drop_last())
    } else {
        s
    }
}

/// The inbound headers with every `Host` header (any case) removed.
pub open spec fn strip_host_spec(h: Seq<(Seq<char>, Seq<char>)>) -> Seq<(Seq<char>, Seq<char>)>
    decreases h.len(),
{
    if h.len() == 0 {
        Seq::empty()
    } else {
        strip_host_spec(h.drop_last()) + (if is_host_header_name(h.last().0) {
            Seq::empty()
        } else {
            seq![h.last()]
        })
    }
}

/// Builds outbound requests for one configured upstream.
pub struct ForwardMiddleware {
    upstream_url: UrlParts,
}

impl ForwardMiddleware {
    /// The model of the configured upstream URL.
    pub closed spec fn upstream_spec(&self) -> UrlModel {
        self.upstream_url@
    }

    /// A well-formed forwarder has an upstream with a nonempty host.
    pub open spec fn wf(&self) -> bool {
        match self.upstream_spec().host {
            Option::Some(h) => h.len() > 0,
            Option::None => false,
        }
    }

    /// A forwarder for the given upstream. Fails with `ConfigError` exactly
    /// when the upstream URL names no host to forward to.
    pub fn new(upstream_url: UrlParts) -> (r: Result<Self, Error>)
        ensures
            r matches Ok(f) ==> f.upstream_spec() == upstream_url@ && f.wf(),
            r is Ok <==> (upstream_url@.host matches Some(h) && h.len() > 0),
            r matches Err(e) ==> e == Error::Common(CommonError::ConfigError),
    {
        let ok = match &upstream_url.host {
            Option::Some(h) => h.as_str().unicode_len() > 0,
            Option::None => false,
        };
        if ok {
            Ok(ForwardMiddleware { upstream_url })
        } else {
            Err(Error::Common(CommonError::ConfigError))
        }
    }

    /// Rewrites an inbound request for the upstream: scheme, host and port
    /// come from the upstream URL; the upstream path prefixes the inbound
    /// path; query pairs pass through; every inbound `Host` header is
    /// dropped and a single `host` header with the upstream authority is
    /// appended. The inbound body is forwarded unchanged beside the result.
    pub fn build_upstream_request(
        &self,
        method: String,
        url: &UrlParts,
        headers: &Vec<(String, String)>,
    ) -> (r: UpstreamRequest)
        requires
            self.wf(),
        ensures
            r.method@ == method@,
            r.url@.scheme == self.upstream_spec().scheme,
            r.url@.host == self.upstream_spec().host,
            r.url@.host_is_domain == self.upstream_spec().host_is_domain,
            r.url@.port == self.upstream_spec().port,
            r.url@.path_segments == trim_trailing_empty(self.upstream_spec().path_segments)
                + url@.path_segments,
            r.url@.query_pairs == url@.query_pairs,
            r.headers.deep_view() == strip_host_spec(headers.deep_view()).push(
                ("host"@, authority_chars(self.upstream_spec().host->0, self.upstream_spec().port)),
            ),
    {
        let host: String = match &self.upstream_url.host {
            Option::Some(h) => h.clone(),
            Option::None => {
                proof {
                    assert(false);
                }
                String::new()
            },
        };
        let port = self.upstream_url.port;
        // path: upstream prefix without trailing empty segments, then inbound
        let mut path_segments: Vec<String> = Vec::new();
        let mut n = self.upstream_url.path_segments.len();
        proof {
            assert(self.upstream_spec().path_segments.subrange(0, n as int)
                =~= self.upstream_spec().path_segments);
        }
        while n > 0 && self.upstream_url.path_segments[n - 1].as_str().unicode_len() == 0
            invariant
                n <= self.upstream_url.path_segments@.len(),
                trim_trailing_empty(self.upstream_spec().path_segments) == trim_trailing_empty(
                    self.upstream_spec().path_segments.subrange(0, n as int),
                ),
            decreases n,
        {
            proof {
                let pre = self.upstream_spec().path_segments.subrange(0, n as int);
                assert(pre.last() == self.upstream_spec().path_segments[n - 1]);
                assert(pre.last().len() == 0);
                assert(pre.drop_last() =~= self.upstream_spec().path_segments.subrange(
                    0,
                    n as int - 1,
                ));
            }
            n = n - 1;
        }
        proof {
            let pre = self.upstream_spec().path_segments.subrange(0, n as int);
            if n > 0 {
                assert(pre.last() == self.upstream_spec().path_segments[n - 1]);
                assert(pre.last().len() > 0);
            }
            assert(trim_trailing_empty(pre) == pre);
        }
        let mut i: usize = 0;
        while i < n
            invariant
                i <= n,
                n <= self.upstream_url.path_segments@.len(),
                path_segments.deep_view() =~= self.upstream_spec().path_segments.subrange(
                    0,
                    i as int,
                ),
                path_segments@.len() == i,
            decreases n - i,
        {
            path_segments.push(self.upstream_url.path_segments[i].clone());
            proof {
                assert(path_segments.deep_view() =~= self.upstream_spec().path_segments.subrange(
                    0,
                    i as int + 1,
                ));
            }
            i = i + 1;
        }
        let mut inbound = clone_string_vec(&url.path_segments);
        let ghost prefix = path_segments.deep_view();
        path_segments.append(&mut inbound);
        proof {
            assert forall|m: int| 0 <= m < path_segments@.len() implies path_segments.deep_view()[m]
                == (prefix + url@.path_segments)[m] by {
                assert(path_segments.deep_view()[m] == path_segments@[m].deep_view());
            }
            assert(path_segments.deep_view() =~= prefix + url@.path_segments);
        }
        // headers: drop Host, append the upstream authority
        let mut out_headers: Vec<(String, String)> = Vec::new();
        let ghost hs = headers.deep_view();
        let mut j: usize = 0;
        while j < headers.len()
            invariant
                j <= headers.len(),
                hs == headers.deep_view(),
                hs.len() == headers@.len(),
                out_headers.deep_view() == strip_host_spec(hs.subrange(0, j as int)),
            decreases headers.len() - j,
        {
            let ghost pre = out_headers.deep_view();
            let keep = !is_host_header(headers[j].0.as_str());
            if keep {
                out_headers.push((headers[j].0.clone(), headers[j].1.clone()));
            }
            proof {
                assert(hs[j as int] == headers@[j as int].deep_view());
                assert(hs.subrange(0, j as int + 1).drop_last() =~= hs.subrange(0, j as int));
                assert(hs.subrange(0, j as int + 1).last() == hs[j as int]);
                if keep {
                    assert(out_headers.deep_view() =~= pre + seq![hs[j as int]]);
                } else {
                    assert(out_headers.deep_view() =~= pre + Seq::<(Seq<char>, Seq<char>)>::empty());
                }
            }
            j = j + 1;
        }
        proof {
            assert(hs.subrange(0, hs.len() as int) =~= hs);
        }
        let ghost stripped = out_headers.deep_view();
        let authority = authority_string(&host, port);
        proof {
            reveal_strlit("host");
        }
        out_headers.push((String::from_str("host"), authority));
        proof {
            assert forall|m: int| 0 <= m < out_headers@.len() implies out_headers.deep_view()[m]
                == stripped.push(
                ("host"@, authority_chars(self.upstream_spec().host->0, self.upstream_spec().port)),
            )[m] by {
                assert(out_headers.deep_view()[m] == out_headers@[m].deep_view());
            }
            assert(out_headers.deep_view() =~= stripped.push(
                ("host"@, authority_chars(self.upstream_spec().host->0, self.upstream_spec().port)),
            ));
        }
        let out_url = UrlParts {
            scheme: self.upstream_url.scheme.clone(),
            host: Option::Some(host),
            host_is_domain: self.upstream_url.host_is_domain,
            port,
            path_segments,
            query_pairs: clone_pair_vec(&url.query_pairs),
        };
        proof {
            assert(out_url@.host == self.upstream_spec().host);
            assert(out_url@.query_pairs == url@.query_pairs);
        }
        UpstreamRequest { method, url: out_url, headers: out_headers }
    }
}

} // verus!
