//! Query pairs: the (name, value) order, a mirrored insertion sort, and the
//! selection filter that decides which pairs partition the cache key.

use crate::config::policy_selects;
use crate::config::query_selected;
use crate::config::QueryInPath;
use crate::text::seq_char_le;
use crate::text::str_eq;
use crate::text::str_le;
use vstd::prelude::*;

verus! {

/// The order of query pairs in the key: by name, then by value.
pub open spec fn pair_le(a: (Seq<char>, Seq<char>), b: (Seq<char>, Seq<char>)) -> bool {
    if a.0 == b.0 {
        seq_char_le(a.1, b.1)
    } else {
        seq_char_le(a.0, b.0)
    }
}

/// Decides `pair_le` on string pairs.
pub fn pair_le_exec(a: &(String, String), b: &(String, String)) -> (r: bool)
    ensures
        r == pair_le(a.deep_view(), b.deep_view()),
{
    if str_eq(a.0.as_str(), b.0.as_str()) {
        str_le(a.1.as_str(), b.1.as_str())
    } else {
        str_le(a.0.as_str(), b.0.as_str())
    }
}

/// `x` inserted before the first element it precedes or equals.
pub open spec fn insert_pair(s: Seq<(Seq<char>, Seq<char>)>, x: (Seq<char>, Seq<char>)) -> Seq<
    (Seq<char>, Seq<char>),
>
    decreases s.len(),
{
    if s.len() == 0 {
        seq![x]
    } else if pair_le(x, s[0]) {
        seq![x] + s
    } else {
        seq![s[0]] + insert_pair(s.drop_first(), x)
    }
}

proof fn lemma_insert_pair_at(s: Seq<(Seq<char>, Seq<char>)>, x: (Seq<char>, Seq<char>), i: int)
    requires
        0 <= i <= s.len(),
        forall|j: int| 0 <= j < i ==> !pair_le(x, s[j]),
        i < s.len() ==> pair_le(x, s[i]),
    ensures
        insert_pair(s, x) == s.subrange(0, i) + seq![x] + s.subrange(i, s.len() as int),
    decreases i,
{
    if i == 0 {
        if s.len() == 0 {
            assert(insert_pair(s, x) =~= s.subrange(0, 0) + seq![x] + s.subrange(
                0,
                s.len() as int,
            ));
        } else {
            assert(seq![x] + s =~= s.subrange(0, 0) + seq![x] + s.subrange(0, s.len() as int));
        }
    } else {
        let t = s.drop_first();
        assert(forall|j: int| 0 <= j < i - 1 ==> t[j] == s[j + 1] && !pair_le(x, #[trigger] t[j]));
        if i - 1 < t.len() {
            assert(t[i - 1] == s[i]);
        }
        lemma_insert_pair_at(t, x, i - 1);
        assert(insert_pair(s, x) == seq![s[0]] + (t.subrange(0, i - 1) + seq![x] + t.subrange(
            i - 1,
            t.len() as int,
        )));
        assert(seq![s[0]] + (t.subrange(0, i - 1) + seq![x] + t.subrange(i - 1, t.len() as int))
            =~= s.subrange(0, i) + seq![x] + s.subrange(i, s.len() as int));
    }
}

/// The pairs sorted by `pair_le`, element by element from the front.
pub open spec fn sort_pairs_spec(s: Seq<(Seq<char>, Seq<char>)>) -> Seq<(Seq<char>, Seq<char>)>
    decreases s.len(),
{
    if s.len() == 0 {
        Seq::empty()
    } else {
        insert_pair(sort_pairs_spec(s.drop_last()), s.last())
    }
}

/// Copies a vector of string pairs; the copy denotes the same sequence.
pub fn clone_pair_vec(v: &Vec<(String, String)>) -> (r: Vec<(String, String)>)
    ensures
        r.deep_view() =~= v.deep_view(),
{
    let mut r: Vec<(String, String)> = Vec::new();
    let mut i: usize = 0;
    while i < v.len()
        invariant
            i <= v.len(),
            r@.len() == i,
            r.deep_view() =~= v.deep_view().subrange(0, i as int),
        decreases v.len() - i,
    {
        let x = (v[i].0.clone(), v[i].1.clone());
        let ghost dv_pre = r.deep_view();
        let ghost rv_pre = r@;
        proof {
            assert(x.deep_view() == v.deep_view()[i as int]);
        }
        r.push(x);
        proof {
            assert(r@ == rv_pre.push((v@[i as int].0, v@[i as int].1)));
            assert(r@.len() == i + 1);
            assert forall|j: int| 0 <= j < i as int + 1 implies r.deep_view()[j]
                == v.deep_view().subrange(0, i as int + 1)[j] by {
                assert(r.deep_view()[j] == r@[j].deep_view());
                if j < i as int {
                    assert(r@[j] == rv_pre[j]);
                    assert(rv_pre[j].deep_view() == dv_pre[j]);
                    assert(dv_pre[j] == v.deep_view().subrange(0, i as int)[j]);
                }
            }
            assert(r.deep_view() =~= v.deep_view().subrange(0, i as int + 1));
        }
        i = i + 1;
    }
    proof {
        assert(v.deep_view().subrange(0, v@.len() as int) =~= v.deep_view());
    }
    r
}

/// Sorts the pairs by name, then value.
pub fn sort_pairs(v: Vec<(String, String)>) -> (r: Vec<(String, String)>)
    ensures
        r.deep_view() == sort_pairs_spec(v.deep_view()),
{
    let mut r: Vec<(String, String)> = Vec::new();
    let mut i: usize = 0;
    while i < v.len()
        invariant
            i <= v.len(),
            r.deep_view() == sort_pairs_spec(v.deep_view().subrange(0, i as int)),
        decreases v.len() - i,
    {
        let ghost sorted_pre = r.deep_view();
        let x = (v[i].0.clone(), v[i].1.clone());
        proof {
            assert(x.deep_view() == v.deep_view()[i as int]);
        }
        // find the insertion point
        let mut k: usize = 0;
        while k < r.len() && !pair_le_exec(&x, &r[k])
            invariant
                k <= r.len(),
                sorted_pre == r.deep_view(),
                x.deep_view() == v.deep_view()[i as int],
                forall|j: int| 0 <= j < k ==> !pair_le(x.deep_view(), sorted_pre[j]),
            decreases r.len() - k,
        {
            proof {
                assert(r.deep_view()[k as int] == r@[k as int].deep_view());
            }
            k = k + 1;
        }
        proof {
            if k < r.len() {
                assert(r.deep_view()[k as int] == r@[k as int].deep_view());
            }
            lemma_insert_pair_at(sorted_pre, x.deep_view(), k as int);
        }
        r.insert(k, x);
        proof {
            assert(r.deep_view() =~= sorted_pre.subrange(0, k as int) + seq![
                v.deep_view()[i as int],
            ] + sorted_pre.subrange(k as int, sorted_pre.len() as int));
            assert(v.deep_view().subrange(0, i as int + 1).drop_last() =~= v.deep_view().subrange(
                0,
                i as int,
            ));
            assert(v.deep_view().subrange(0, i as int + 1).last() == v.deep_view()[i as int]);
        }
        i = i + 1;
    }
    proof {
        assert(v.deep_view().subrange(0, v@.len() as int) =~= v.deep_view());
    }
    r
}

/// The pairs whose name the policy selects, in their original order.
pub open spec fn filter_pairs_spec(q: Seq<(Seq<char>, Seq<char>)>, policy: QueryInPath) -> Seq<
    (Seq<char>, Seq<char>),
>
    decreases q.len(),
{
    if q.len() == 0 {
        Seq::empty()
    } else {
        filter_pairs_spec(q.drop_last(), policy) + (if query_selected(policy, q.last().0) {
            seq![q.last()]
        } else {
            Seq::empty()
        })
    }
}

/// Two policies that select the same names filter alike.
pub proof fn lemma_filter_same_policy(
    q: Seq<(Seq<char>, Seq<char>)>,
    p1: QueryInPath,
    p2: QueryInPath,
)
    requires
        forall|n: Seq<char>| #[trigger] query_selected(p1, n) == query_selected(p2, n),
    ensures
        filter_pairs_spec(q, p1) == filter_pairs_spec(q, p2),
    decreases q.len(),
{
    if q.len() > 0 {
        lemma_filter_same_policy(q.drop_last(), p1, p2);
        assert(query_selected(p1, q.last().0) == query_selected(p2, q.last().0));
    }
}

/// Keeps the pairs whose name the configured policy selects.
pub fn filter_pairs(q: &Vec<(String, String)>, policy: &QueryInPath) -> (r: Vec<(String, String)>)
    ensures
        r.deep_view() == filter_pairs_spec(q.deep_view(), *policy),
{
    let mut r: Vec<(String, String)> = Vec::new();
    let mut i: usize = 0;
    while i < q.len()
        invariant
            i <= q.len(),
            r.deep_view() == filter_pairs_spec(q.deep_view().subrange(0, i as int), *policy),
        decreases q.len() - i,
    {
        let ghost pre = r.deep_view();
        let selected = policy_selects(policy, q[i].0.as_str());
        if selected {
            r.push((q[i].0.clone(), q[i].1.clone()));
        }
        proof {
            assert(q.deep_view()[i as int] == q@[i as int].deep_view());
            assert(q.deep_view().subrange(0, i as int + 1).drop_last() =~= q.deep_view().subrange(
                0,
                i as int,
            ));
            assert(q.deep_view().subrange(0, i as int + 1).last() == q.deep_view()[i as int]);
            if selected {
                assert(r.deep_view() =~= pre + seq![q.deep_view()[i as int]]);
            } else {
                assert(r.deep_view() =~= pre + Seq::<(Seq<char>, Seq<char>)>::empty());
            }
        }
        i = i + 1;
    }
    proof {
        assert(q.deep_view().subrange(0, q@.len() as int) =~= q.deep_view());
    }
    r
}

} // verus!
