//! The cache key encoder: a deterministic mapping from a request's URL and
//! the configuration to a relative filesystem path, one segment per element.

use crate::config::Config;
use crate::error::CommonError;
use crate::error::Error;
use crate::pairs::filter_pairs;
use crate::pairs::filter_pairs_spec;
use crate::pairs::sort_pairs;
use crate::pairs::sort_pairs_spec;
use crate::request::ParodyRequest;
use crate::text::safe_segment;
use crate::text::safe_segment_spec;
use crate::text::lemma_safe_segment_no_slash;
use crate::text::lemma_safe_segment_not_dot;
use crate::web::UrlModel;
use crate::web::UrlParts;
use vstd::prelude::*;

verus! {

// ---------------------------------------------------------------------------
// Percent-decoding, through the percent-encoding crate
// ---------------------------------------------------------------------------

/// What percent-decoding a path segment yields: `None` when the decoded
/// bytes are not valid UTF-8, otherwise the decoded characters. Decoding is
/// a pure function of the segment, so keys are stable across processes.
pub uninterp spec fn percent_decoded(s: Seq<char>) -> Option<Seq<char>>;

/// Relies on `percent_encoding::percent_decode_str` and `decode_utf8`:
/// every `%` followed by two hex digits becomes a byte, and the call fails
/// exactly when the decoded bytes are not valid UTF-8. Both are pure
/// functions of the segment.
#[verifier::external_body]
fn percent_decode_segment(s: &str) -> (r: Option<String>)
    ensures
        r is Some <==> percent_decoded(s@) is Some,
        r matches Some(d) ==> percent_decoded(s@) == Some(d@),
{
    match percent_encoding::percent_decode_str(s).decode_utf8() {
        Ok(decoded) => Some(decoded.into_owned()),
        Err(_) => None,
    }
}

// ---------------------------------------------------------------------------
// The pieces of the key
// ---------------------------------------------------------------------------

/// The literal segment that stands in for a missing host.
pub open spec fn no_host_mark() -> Seq<char> {
    ":NO-HOST"@
}

/// The literal segment that separates path segments from query segments.
pub open spec fn query_mark() -> Seq<char> {
    ":PARODY-QUERY"@
}

/// The first key segment: the URL host as a safe component, or `:NO-HOST`
/// when there is none.
pub open spec fn host_segment_spec(h: Option<Seq<char>>) -> Seq<char> {
    match h {
        Option::Some(s) => if s.len() > 0 {
            safe_segment_spec(s)
        } else {
            no_host_mark()
        },
        Option::None => no_host_mark(),
    }
}

fn host_segment(host: &Option<String>) -> (r: String)
    ensures
        r@ == host_segment_spec(host.deep_view()),
{
    match host {
        Option::Some(h) => {
            if h.as_str().unicode_len() == 0 {
                String::from_str(":NO-HOST")
            } else {
                safe_segment(h.as_str())
            }
        },
        Option::None => String::from_str(":NO-HOST"),
    }
}

/// The path segments percent-decoded and made safe, or `None` if any
/// segment decodes to invalid UTF-8.
pub open spec fn decoded_segments(path: Seq<Seq<char>>) -> Option<Seq<Seq<char>>>
    decreases path.len(),
{
    if path.len() == 0 {
        Option::Some(Seq::empty())
    } else {
        match decoded_segments(path.drop_last()) {
            Option::None => Option::None,
            Option::Some(rest) => match percent_decoded(path.last()) {
                Option::None => Option::None,
                Option::Some(d) => Option::Some(rest.push(safe_segment_spec(d))),
            },
        }
    }
}

proof fn lemma_decoded_prefix_none(path: Seq<Seq<char>>, j: int)
    requires
        0 <= j <= path.len(),
        decoded_segments(path.subrange(0, j)) is None,
    ensures
        decoded_segments(path) is None,
    decreases path.len() - j,
{
    if j == path.len() {
        assert(path.subrange(0, j) =~= path);
    } else {
        assert(path.subrange(0, j + 1).drop_last() =~= path.subrange(0, j));
        lemma_decoded_prefix_none(path, j + 1);
    }
}

/// The query segment of one sorted pair: `name=value`, or just `name` when
/// the value is empty, as a safe component.
pub open spec fn pair_segment_spec(p: (Seq<char>, Seq<char>)) -> Seq<char> {
    safe_segment_spec(
        if p.1.len() == 0 {
            p.0
        } else {
            p.0 + seq!['='] + p.1
        },
    )
}

fn pair_segment(name: &String, value: &String) -> (r: String)
    ensures
        r@ == pair_segment_spec((name@, value@)),
{
    if value.as_str().unicode_len() == 0 {
        safe_segment(name.as_str())
    } else {
        let mut joined = name.clone();
        proof {
            reveal_strlit("=");
            assert("="@ =~= seq!['=']);
        }
        joined.append("=");
        joined.append(value.as_str());
        proof {
            assert(joined@ == name@ + seq!['='] + value@);
        }
        safe_segment(joined.as_str())
    }
}

/// The key segments of the sorted, filtered query pairs, in order.
pub open spec fn query_segments_spec(sorted: Seq<(Seq<char>, Seq<char>)>) -> Seq<Seq<char>>
    decreases sorted.len(),
{
    if sorted.len() == 0 {
        Seq::empty()
    } else {
        query_segments_spec(sorted.drop_last()).push(pair_segment_spec(sorted.last()))
    }
}

// ---------------------------------------------------------------------------
// The encoder
// ---------------------------------------------------------------------------

/// The whole key from its ingredients: the host segment if configured, the
/// decoded path segments, and, when any query pair is selected, the
/// `:PARODY-QUERY` mark followed by the sorted query segments.
pub open spec fn encode_key_from(
    host: Option<Seq<char>>,
    path: Seq<Seq<char>>,
    filtered: Seq<(Seq<char>, Seq<char>)>,
    host_in_path: bool,
) -> Option<Seq<Seq<char>>> {
    match decoded_segments(path) {
        Option::None => Option::None,
        Option::Some(dec) => {
            let head: Seq<Seq<char>> = if host_in_path {
                seq![host_segment_spec(host)]
            } else {
                Seq::empty()
            };
            let q: Seq<Seq<char>> = if filtered.len() > 0 {
                seq![query_mark()] + query_segments_spec(sort_pairs_spec(filtered))
            } else {
                Seq::empty()
            };
            Option::Some(head + dec + q)
        },
    }
}

/// The cache key of a URL under a configuration. `None` exactly when some
/// path segment percent-decodes to invalid UTF-8.
pub open spec fn encode_key_spec(u: UrlModel, c: Config) -> Option<Seq<Seq<char>>> {
    encode_key_from(
        u.host,
        u.path_segments,
        filter_pairs_spec(u.query_pairs, c.query_in_path),
        c.host_in_path,
    )
}

/// Computes the relative cache key of a URL: one element per path segment.
/// Fails with `EncodingError` exactly when a path segment percent-decodes
/// to invalid UTF-8.
pub fn encode_key(url: &UrlParts, config: &Config) -> (r: Result<Vec<String>, Error>)
    ensures
        r matches Ok(k) ==> encode_key_spec(url@, *config) == Some(k.deep_view()),
        r is Err <==> encode_key_spec(url@, *config) is None,
        r matches Err(e) ==> e == Error::Common(CommonError::EncodingError),
{
    let ghost ps = url@.path_segments;
    let mut key: Vec<String> = Vec::new();
    if config.host_in_path {
        key.push(host_segment(&url.host));
    }
    let ghost head = key.deep_view();
    // path segments: percent-decode, then make each one a safe component
    let mut path_part: Vec<String> = Vec::new();
    let mut i: usize = 0;
    while i < url.path_segments.len()
        invariant
            i <= url.path_segments.len(),
            ps == url@.path_segments,
            ps.len() == url.path_segments@.len(),
            path_part@.len() == i,
            decoded_segments(ps.subrange(0, i as int)) == Some(path_part.deep_view()),
        decreases url.path_segments.len() - i,
    {
        proof {
            assert(ps[i as int] == url.path_segments@[i as int]@);
        }
        match percent_decode_segment(url.path_segments[i].as_str()) {
            Option::None => {
                proof {
                    assert(ps.subrange(0, i as int + 1).drop_last() =~= ps.subrange(0, i as int));
                    assert(ps.subrange(0, i as int + 1).last() == ps[i as int]);
                    assert(decoded_segments(ps.subrange(0, i as int + 1)) is None);
                    lemma_decoded_prefix_none(ps, i as int + 1);
                }
                return Err(Error::Common(CommonError::EncodingError));
            },
            Option::Some(d) => {
                let ghost dv_pre = path_part.deep_view();
                let ghost rv_pre = path_part@;
                let seg = safe_segment(d.as_str());
                path_part.push(seg);
                proof {
                    assert(ps.subrange(0, i as int + 1).drop_last() =~= ps.subrange(0, i as int));
                    assert(ps.subrange(0, i as int + 1).last() == ps[i as int]);
                    assert forall|j: int| 0 <= j < i as int + 1 implies path_part.deep_view()[j]
                        == dv_pre.push(safe_segment_spec(percent_decoded(ps[i as int])->0))[j] by {
                        assert(path_part.deep_view()[j] == path_part@[j].deep_view());
                        if j < i as int {
                            assert(path_part@[j] == rv_pre[j]);
                            assert(rv_pre[j].deep_view() == dv_pre[j]);
                        }
                    }
                    assert(path_part.deep_view() =~= dv_pre.push(
                        safe_segment_spec(percent_decoded(ps[i as int])->0),
                    ));
                }
            },
        }
        i = i + 1;
    }
    proof {
        assert(ps.subrange(0, ps.len() as int) =~= ps);
    }
    // query segments: filter, sort, render
    let filtered = filter_pairs(&url.query_pairs, &config.query_in_path);
    let mut query_part: Vec<String> = Vec::new();
    if filtered.len() > 0 {
        query_part.push(String::from_str(":PARODY-QUERY"));
        let sorted = sort_pairs(filtered);
        let ghost sv = sorted.deep_view();
        let mut j: usize = 0;
        while j < sorted.len()
            invariant
                j <= sorted.len(),
                sv == sorted.deep_view(),
                sv.len() == sorted@.len(),
                query_part@.len() == j + 1,
                query_part.deep_view() == seq![query_mark()] + query_segments_spec(
                    sv.subrange(0, j as int),
                ),
            decreases sorted.len() - j,
        {
            let ghost dv_pre = query_part.deep_view();
            let ghost rv_pre = query_part@;
            let seg = pair_segment(&sorted[j].0, &sorted[j].1);
            proof {
                assert(sv[j as int] == sorted@[j as int].deep_view());
                assert(seg@ == pair_segment_spec(sv[j as int]));
            }
            query_part.push(seg);
            proof {
                assert(sv.subrange(0, j as int + 1).drop_last() =~= sv.subrange(0, j as int));
                assert(sv.subrange(0, j as int + 1).last() == sv[j as int]);
                assert forall|m: int| 0 <= m < j as int + 2 implies query_part.deep_view()[m]
                    == dv_pre.push(pair_segment_spec(sv[j as int]))[m] by {
                    assert(query_part.deep_view()[m] == query_part@[m].deep_view());
                    if m < j as int + 1 {
                        assert(query_part@[m] == rv_pre[m]);
                        assert(rv_pre[m].deep_view() == dv_pre[m]);
                    }
                }
                assert(query_part.deep_view() =~= dv_pre.push(pair_segment_spec(sv[j as int])));
            }
            j = j + 1;
        }
        proof {
            assert(sv.subrange(0, sv.len() as int) =~= sv);
        }
    }
    // assemble
    let ghost path_dv = path_part.deep_view();
    let ghost query_dv = query_part.deep_view();
    key.append(&mut path_part);
    key.append(&mut query_part);
    proof {
        assert forall|m: int| 0 <= m < key@.len() implies key.deep_view()[m] == (head + path_dv
            + query_dv)[m] by {
            assert(key.deep_view()[m] == key@[m].deep_view());
        }
        assert(key.deep_view() =~= head + path_dv + query_dv);
    }
    Ok(key)
}

/// Computes where a request's response is cached, relative to the root
/// directory. The key is a pure function of the request's URL and the
/// configuration, so equal requests map to the same entry in every process.
pub fn get_response_storage_dir<T: ParodyRequest>(req: &T, config: &Config) -> (r: Result<
    Vec<String>,
    Error,
>)
    ensures
        r matches Ok(k) ==> encode_key_spec(req.url_spec(), *config) == Some(k.deep_view()),
        r is Err <==> encode_key_spec(req.url_spec(), *config) is None,
        r matches Err(e) ==> e == Error::Common(CommonError::EncodingError),
{
    let url = req.get_url();
    encode_key(&url, config)
}

// ---------------------------------------------------------------------------
// The key never escapes the root directory
// ---------------------------------------------------------------------------

/// How one path component moves the resolved depth: empty and `.` stay,
/// `..` goes up, everything else goes down into a directory.
pub open spec fn seg_step(seg: Seq<char>) -> int {
    if seg.len() == 0 || seg == "."@ {
        0
    } else if seg == ".."@ {
        -1
    } else {
        1
    }
}

/// The depth of the resolved path below the root after all segments.
pub open spec fn path_depth(segs: Seq<Seq<char>>) -> int
    decreases segs.len(),
{
    if segs.len() == 0 {
        0
    } else {
        path_depth(segs.drop_last()) + seg_step(segs.last())
    }
}

proof fn lemma_depth_nonneg(s: Seq<Seq<char>>)
    requires
        forall|i: int| 0 <= i < s.len() ==> seg_step(s[i]) >= 0,
    ensures
        path_depth(s) >= 0,
    decreases s.len(),
{
    if s.len() > 0 {
        lemma_depth_nonneg(s.drop_last());
    }
}

proof fn lemma_depth_pos(s: Seq<Seq<char>>)
    requires
        s.len() >= 1,
        seg_step(s[0]) == 1,
        forall|i: int| 0 <= i < s.len() ==> seg_step(s[i]) >= 0,
    ensures
        path_depth(s) >= 1,
    decreases s.len(),
{
    if s.len() == 1 {
        assert(s.drop_last() =~= Seq::<Seq<char>>::empty());
        assert(s.last() == s[0]);
        assert(path_depth(s) == path_depth(s.drop_last()) + seg_step(s.last()));
        assert(path_depth(s.drop_last()) == 0);
        assert(seg_step(s.last()) == 1);
        assert(path_depth(s) >= 1);
    } else {
        let t = s.drop_last();
        assert(t[0] == s[0]);
        assert(forall|i: int| 0 <= i < t.len() ==> t[i] == s[i] && seg_step(#[trigger] t[i]) >= 0);
        lemma_depth_pos(t);
        assert(path_depth(t) >= 1);
        assert(seg_step(s.last()) >= 0);
        assert(path_depth(s) == path_depth(t) + seg_step(s.last()));
        assert(path_depth(s) >= 1);
    }
}

/// A safe component: no `/` inside, and not `.` or `..`.
pub open spec fn component_safe(seg: Seq<char>) -> bool {
    &&& forall|j: int| 0 <= j < seg.len() ==> seg[j] != '/'
    &&& seg != "."@
    &&& seg != ".."@
}

proof fn lemma_safe_segment_component(s: Seq<char>)
    ensures
        component_safe(safe_segment_spec(s)),
{
    lemma_safe_segment_no_slash(s);
    lemma_safe_segment_not_dot(s);
}

proof fn lemma_query_segments_safe(sorted: Seq<(Seq<char>, Seq<char>)>)
    ensures
        forall|i: int|
            0 <= i < query_segments_spec(sorted).len() ==> component_safe(
                #[trigger] query_segments_spec(sorted)[i],
            ),
    decreases sorted.len(),
{
    if sorted.len() > 0 {
        lemma_query_segments_safe(sorted.drop_last());
        let arg: Seq<char> = if sorted.last().1.len() == 0 {
            sorted.last().0
        } else {
            sorted.last().0 + seq!['='] + sorted.last().1
        };
        lemma_safe_segment_component(arg);
        let qs = query_segments_spec(sorted);
        let prev = query_segments_spec(sorted.drop_last());
        assert(qs == prev.push(pair_segment_spec(sorted.last())));
        assert forall|i: int| 0 <= i < qs.len() implies component_safe(#[trigger] qs[i]) by {
            if i < prev.len() {
                assert(qs[i] == prev[i]);
            } else {
                assert(qs[i] == pair_segment_spec(sorted.last()));
                assert(qs[i] == safe_segment_spec(arg));
            }
        }
    }
}

proof fn lemma_decoded_segments_safe(path: Seq<Seq<char>>, dec: Seq<Seq<char>>)
    requires
        decoded_segments(path) == Some(dec),
    ensures
        forall|i: int| 0 <= i < dec.len() ==> component_safe(#[trigger] dec[i]),
    decreases path.len(),
{
    if path.len() > 0 {
        let rest = decoded_segments(path.drop_last())->0;
        lemma_decoded_segments_safe(path.drop_last(), rest);
        lemma_safe_segment_component(percent_decoded(path.last())->0);
        assert(dec == rest.push(safe_segment_spec(percent_decoded(path.last())->0)));
        assert forall|i: int| 0 <= i < dec.len() implies component_safe(#[trigger] dec[i]) by {
            if i < rest.len() {
                assert(dec[i] == rest[i]);
            }
        }
    }
}

/// Law: joined to the root directory, the key stays strictly inside it, for
/// every URL and configuration with the host segment on. No key segment
/// contains a separator or names the current or parent directory, every
/// prefix of the key resolves at or below the root, and the whole key
/// resolves strictly below it.
pub proof fn lemma_key_stays_inside(u: UrlModel, c: Config, key: Seq<Seq<char>>)
    requires
        encode_key_spec(u, c) == Some(key),
        c.host_in_path,
    ensures
        forall|i: int| 0 <= i < key.len() ==> component_safe(#[trigger] key[i]),
        forall|p: int| 0 <= p <= key.len() ==> path_depth(key.subrange(0, p)) >= 0,
        path_depth(key) >= 1,
{
    let dec = decoded_segments(u.path_segments)->0;
    let filtered = filter_pairs_spec(u.query_pairs, c.query_in_path);
    let head = seq![host_segment_spec(u.host)];
    let q: Seq<Seq<char>> = if filtered.len() > 0 {
        seq![query_mark()] + query_segments_spec(sort_pairs_spec(filtered))
    } else {
        Seq::empty()
    };
    assert(key == head + dec + q);
    reveal_strlit(":NO-HOST");
    reveal_strlit(":PARODY-QUERY");
    reveal_strlit(".");
    reveal_strlit("..");
    assert(":NO-HOST"@.len() == 8);
    assert(":PARODY-QUERY"@.len() == 13);
    assert("."@.len() == 1);
    assert(".."@.len() == 2);
    // every segment is a safe component
    lemma_decoded_segments_safe(u.path_segments, dec);
    lemma_query_segments_safe(sort_pairs_spec(filtered));
    assert(component_safe(no_host_mark()));
    assert(component_safe(query_mark()));
    match u.host {
        Option::Some(h) => {
            if h.len() > 0 {
                lemma_safe_segment_component(h);
            }
        },
        Option::None => {},
    }
    assert(component_safe(host_segment_spec(u.host)));
    assert forall|i: int| 0 <= i < key.len() implies component_safe(#[trigger] key[i]) by {
        if i == 0 {
            assert(key[0] == host_segment_spec(u.host));
        } else if i < 1 + dec.len() {
            assert(key[i] == dec[i - 1]);
        } else {
            assert(key[i] == q[i - 1 - dec.len()]);
            if filtered.len() > 0 && i - 1 - dec.len() > 0 {
                assert(q[i - 1 - dec.len()] == query_segments_spec(sort_pairs_spec(filtered))[i - 2
                    - dec.len()]);
            }
        }
    }
    // depth: every segment steps down or stays, the host segment steps down
    assert(key.len() >= 1);
    assert(key[0] == host_segment_spec(u.host));
    match u.host {
        Option::Some(h) => {
            if h.len() > 0 {
                lemma_safe_segment_not_dot(h);
            }
        },
        Option::None => {},
    }
    assert(key[0].len() > 0);
    assert(seg_step(key[0]) == 1);
    assert forall|i: int| 0 <= i < key.len() implies seg_step(key[i]) >= 0 by {
        assert(component_safe(key[i]));
    }
    assert forall|p: int| 0 <= p <= key.len() implies path_depth(key.subrange(0, p)) >= 0 by {
        let pre = key.subrange(0, p);
        assert(forall|i: int| 0 <= i < pre.len() ==> pre[i] == key[i]);
        lemma_depth_nonneg(pre);
    }
    lemma_depth_pos(key);
}

// ---------------------------------------------------------------------------
// Determinism and query selectivity
// ---------------------------------------------------------------------------

/// Law: the key encoder is deterministic and stable across processes: the
/// key is a function of the URL model and the configuration alone. The one
/// outside ingredient, percent-decoding, is itself a pure function of its
/// segment, so equal requests name the same entry in every run.
pub proof fn lemma_key_deterministic(u1: UrlModel, u2: UrlModel, c1: Config, c2: Config)
    requires
        u1 == u2,
        c1 == c2,
    ensures
        encode_key_spec(u1, c1) == encode_key_spec(u2, c2),
{
}

/// Two configurations with the same host switch and the same query policy
/// encode every URL to the same key.
pub proof fn lemma_key_same_policy(u: UrlModel, c1: Config, c2: Config)
    requires
        c1.host_in_path == c2.host_in_path,
        c1.query_in_path is All <==> c2.query_in_path is All,
        c1.query_in_path is NoQuery <==> c2.query_in_path is NoQuery,
        c1.query_in_path is Selected <==> c2.query_in_path is Selected,
        crate::config::selected_names(c1.query_in_path) == crate::config::selected_names(
            c2.query_in_path,
        ),
    ensures
        encode_key_spec(u, c1) == encode_key_spec(u, c2),
{
    assert forall|n: Seq<char>| #[trigger] crate::config::query_selected(c1.query_in_path, n)
        == crate::config::query_selected(c2.query_in_path, n) by {
        if c1.query_in_path is Selected {
            let v1 = c1.query_in_path->Selected_0;
            let v2 = c2.query_in_path->Selected_0;
            assert(crate::config::selected_names(c1.query_in_path) == v1.deep_view());
            assert(crate::config::selected_names(c2.query_in_path) == v2.deep_view());
        }
    }
    crate::pairs::lemma_filter_same_policy(u.query_pairs, c1.query_in_path, c2.query_in_path);
}

/// Law: two URLs with the same host and path whose query pairs agree after
/// filtering by the configured policy get the same key. In particular, with
/// a `Selected` set, only the pairs whose name is selected matter.
pub proof fn lemma_key_depends_on_selected(u1: UrlModel, u2: UrlModel, c: Config)
    requires
        u1.host == u2.host,
        u1.path_segments == u2.path_segments,
        filter_pairs_spec(u1.query_pairs, c.query_in_path) == filter_pairs_spec(
            u2.query_pairs,
            c.query_in_path,
        ),
    ensures
        encode_key_spec(u1, c) == encode_key_spec(u2, c),
{
}

} // verus!
