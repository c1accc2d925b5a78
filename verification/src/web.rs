//! The URL view the proxy core works on: scheme, host, port, raw path
//! segments, and decoded query pairs, as the `url` crate parses them.

use crate::text::dec_chars;
use crate::text::u16_to_string;
use vstd::prelude::*;

verus! {

/// The mathematical model of a parsed URL.
pub struct UrlModel {
    pub scheme: Seq<char>,
    pub host: Option<Seq<char>>,
    /// Whether the host is a registered domain name, as opposed to an IP
    /// address or no host at all.
    pub host_is_domain: bool,
    pub port: Option<u16>,
    /// Path segments as the parser yields them: still percent-encoded,
    /// split at `/`.
    pub path_segments: Seq<Seq<char>>,
    /// Query pairs, percent-decoded by the parser, in URL order.
    pub query_pairs: Seq<(Seq<char>, Seq<char>)>,
}

/// A parsed URL, reduced to the parts the proxy core reads.
#[derive(Debug, Clone)]
pub struct UrlParts {
    pub scheme: String,
    pub host: Option<String>,
    pub host_is_domain: bool,
    pub port: Option<u16>,
    pub path_segments: Vec<String>,
    pub query_pairs: Vec<(String, String)>,
}

impl View for UrlParts {
    type V = UrlModel;

    open spec fn view(&self) -> UrlModel {
        UrlModel {
            scheme: self.scheme@,
            host: self.host.deep_view(),
            host_is_domain: self.host_is_domain,
            port: self.port,
            path_segments: self.path_segments.deep_view(),
            query_pairs: self.query_pairs.deep_view(),
        }
    }
}

impl UrlParts {
    /// Copies the URL parts; the copy denotes the same URL model.
    pub fn duplicate(&self) -> (r: UrlParts)
        ensures
            r@ == self@,
    {
        let host = match &self.host {
            Option::Some(h) => Option::Some(h.clone()),
            Option::None => Option::None,
        };
        let r = UrlParts {
            scheme: self.scheme.clone(),
            host,
            host_is_domain: self.host_is_domain,
            port: self.port,
            path_segments: crate::config::clone_string_vec(&self.path_segments),
            query_pairs: crate::pairs::clone_pair_vec(&self.query_pairs),
        };
        proof {
            assert(r@.host == self@.host);
            assert(r@.path_segments == self@.path_segments);
            assert(r@.query_pairs == self@.query_pairs);
        }
        r
    }
}

/// What `url::Url::parse` yields on the given input: `None` on a parse
/// error, otherwise the parts of the URL. Parsing is a pure function of the
/// input, so the same input names the same parts in every process.
pub uninterp spec fn parsed_url(s: Seq<char>) -> Option<UrlModel>;

/// Relies on `url::Url::parse` and the accessors `scheme`, `host_str`,
/// `domain`, `port`, `path_segments` and `query_pairs`: parsing either
/// fails or determines scheme, host, whether the host is a domain rather
/// than an IP address, port, the path split at `/`, and the decoded query
/// pairs. A parsed host never contains `/`, which ends the host part of
/// any URL.
#[verifier::external_body]
pub fn parse_url(input: &str) -> (r: Option<UrlParts>)
    ensures
        r is Some <==> parsed_url(input@) is Some,
        r matches Some(u) ==> parsed_url(input@) == Some(u@) && (u@.host matches Some(h)
            ==> !h.contains('/')),
{
    let url = ::url::Url::parse(input).ok()?;
    let path_segments: Vec<String> =
        url.path_segments().map_or(Vec::new(), |segs| segs.map(str::to_owned).collect());
    let query_pairs: Vec<(String, String)> =
        url.query_pairs().map(|(k, v)| (k.into_owned(), v.into_owned())).collect();
    Some(UrlParts {
        scheme: url.scheme().to_owned(),
        host: url.host_str().map(str::to_owned),
        host_is_domain: url.domain().is_some(),
        port: url.port(),
        path_segments,
        query_pairs,
    })
}

/// The authority `host[:port]` as characters.
pub open spec fn authority_chars(host: Seq<char>, port: Option<u16>) -> Seq<char> {
    match port {
        Option::None => host,
        Option::Some(p) => host + seq![':'] + dec_chars(p as nat),
    }
}

/// Renders the authority `host[:port]`.
pub fn authority_string(host: &String, port: Option<u16>) -> (r: String)
    ensures
        r@ == authority_chars(host@, port),
{
    match port {
        Option::None => host.clone(),
        Option::Some(p) => {
            let mut s = host.clone();
            proof {
                reveal_strlit(":");
                assert(":"@ =~= seq![':']);
            }
            s.append(":");
            let rendered = u16_to_string(p);
            s.append(rendered.as_str());
            s
        },
    }
}

} // verus!
