//! Cache configuration: the root directory, whether the host becomes the
//! first key segment, and which query parameters partition the cache key.

use crate::text::lemma_seq_char_le_refl;
use crate::text::seq_char_le;
use crate::text::str_eq;
use crate::text::str_le;
use vstd::prelude::*;

verus! {

/// Which query parameters contribute to the cache key.
#[derive(Debug, Clone)]
pub enum QueryInPath {
    /// No query parameter affects the key.
    NoQuery,
    /// Every query parameter affects the key.
    All,
    /// Only the named parameters affect the key. Kept sorted and without
    /// duplicates.
    Selected(Vec<String>),
}

impl Default for QueryInPath {
    /// By default every query parameter partitions the key.
    fn default() -> (r: Self)
        ensures
            r is All,
    {
        QueryInPath::All
    }
}

/// The name set of a `Selected` policy; empty for the other policies.
pub open spec fn selected_names(q: QueryInPath) -> Seq<Seq<char>> {
    match q {
        QueryInPath::Selected(v) => v.deep_view(),
        _ => Seq::empty(),
    }
}

/// Whether the policy selects a query parameter of the given name.
pub open spec fn query_selected(q: QueryInPath, name: Seq<char>) -> bool {
    match q {
        QueryInPath::NoQuery => false,
        QueryInPath::All => true,
        QueryInPath::Selected(v) => v.deep_view().contains(name),
    }
}

/// `x` inserted into a sorted, duplicate-free sequence, keeping it so.
pub open spec fn insert_unique_sorted(s: Seq<Seq<char>>, x: Seq<char>) -> Seq<Seq<char>>
    decreases s.len(),
{
    if s.len() == 0 {
        seq![x]
    } else if x == s[0] {
        s
    } else if seq_char_le(x, s[0]) {
        seq![x] + s
    } else {
        seq![s[0]] + insert_unique_sorted(s.drop_first(), x)
    }
}

proof fn lemma_insert_unique_at(s: Seq<Seq<char>>, x: Seq<char>, i: int)
    requires
        0 <= i <= s.len(),
        forall|j: int| 0 <= j < i ==> !seq_char_le(x, s[j]),
        i < s.len() ==> seq_char_le(x, s[i]),
    ensures
        insert_unique_sorted(s, x) == if i < s.len() && x == s[i] {
            s
        } else {
            s.subrange(0, i) + seq![x] + s.subrange(i, s.len() as int)
        },
    decreases i,
{
    if i == 0 {
        if s.len() == 0 {
            assert(insert_unique_sorted(s, x) =~= s.subrange(0, 0) + seq![x] + s.subrange(
                0,
                s.len() as int,
            ));
        } else if x != s[0] {
            assert(insert_unique_sorted(s, x) == seq![x] + s);
            assert(seq![x] + s =~= s.subrange(0, 0) + seq![x] + s.subrange(0, s.len() as int));
        }
    } else {
        lemma_seq_char_le_refl(x);
        assert(x != s[0]);
        assert(!seq_char_le(x, s[0]));
        let t = s.drop_first();
        assert(forall|j: int| 0 <= j < i - 1 ==> t[j] == s[j + 1] && !seq_char_le(x, #[trigger] t[j]));
        if i - 1 < t.len() {
            assert(t[i - 1] == s[i]);
        }
        lemma_insert_unique_at(t, x, i - 1);
        if i < s.len() && x == s[i] {
            assert(insert_unique_sorted(t, x) == t);
            assert(seq![s[0]] + t =~= s);
        } else {
            assert(insert_unique_sorted(s, x) == seq![s[0]] + (t.subrange(0, i - 1) + seq![x]
                + t.subrange(i - 1, t.len() as int)));
            assert(seq![s[0]] + (t.subrange(0, i - 1) + seq![x] + t.subrange(i - 1, t.len() as int))
                =~= s.subrange(0, i) + seq![x] + s.subrange(i, s.len() as int));
        }
    }
}

/// Copies a vector of strings; the copy denotes the same sequence.
pub fn clone_string_vec(v: &Vec<String>) -> (r: Vec<String>)
    ensures
        r@ =~= v@,
        r.deep_view() =~= v.deep_view(),
{
    let mut r: Vec<String> = Vec::new();
    let mut i: usize = 0;
    while i < v.len()
        invariant
            i <= v.len(),
            r@ =~= v@.subrange(0, i as int),
        decreases v.len() - i,
    {
        r.push(v[i].clone());
        proof {
            assert(r@ =~= v@.subrange(0, i as int + 1));
        }
        i = i + 1;
    }
    proof {
        assert(v@.subrange(0, v@.len() as int) =~= v@);
        assert(r.deep_view() =~= v.deep_view());
    }
    r
}

/// Decides `query_selected`.
pub fn policy_selects(policy: &QueryInPath, query: &str) -> (r: bool)
    ensures
        r == query_selected(*policy, query@),
{
    match policy {
        QueryInPath::NoQuery => false,
        QueryInPath::All => true,
        QueryInPath::Selected(v) => {
            proof {
                assert(query_selected(*policy, query@) == v.deep_view().contains(query@));
            }
            let mut i: usize = 0;
            while i < v.len()
                invariant
                    i <= v.len(),
                    query_selected(*policy, query@) == v.deep_view().contains(query@),
                    forall|j: int| 0 <= j < i ==> v.deep_view()[j] != query@,
                decreases v.len() - i,
            {
                if str_eq(query, v[i].as_str()) {
                    proof {
                        assert(v.deep_view()[i as int] == v@[i as int]@);
                        assert(v.deep_view()[i as int] == query@);
                        assert(v.deep_view().contains(query@));
                    }
                    return true;
                }
                proof {
                    assert(v.deep_view()[i as int] == v@[i as int]@);
                }
                i = i + 1;
            }
            proof {
                assert(!v.deep_view().contains(query@));
            }
            false
        },
    }
}

/// Configuration of the cache: built once at startup, immutable afterwards.
#[derive(Debug, Clone)]
pub struct Config {
    /// Which query parameters partition the cache key.
    pub query_in_path: QueryInPath,
    /// Base directory under which all entries live; empty means the current
    /// working directory.
    pub root_dir: String,
    /// Whether the URL host (or `:NO-HOST`) becomes the first key segment.
    pub host_in_path: bool,
}

impl Default for Config {
    /// All query parameters in the key, empty root, host in the key.
    fn default() -> (r: Self)
        ensures
            r.query_in_path is All,
            r.root_dir@ == Seq::<char>::empty(),
            r.host_in_path,
    {
        Config { query_in_path: QueryInPath::All, root_dir: String::new(), host_in_path: true }
    }
}

impl Config {
    /// Copies the configuration; the copy denotes the same policy.
    pub fn duplicate(&self) -> (r: Config)
        ensures
            r.root_dir@ == self.root_dir@,
            r.host_in_path == self.host_in_path,
            r.query_in_path is All <==> self.query_in_path is All,
            r.query_in_path is NoQuery <==> self.query_in_path is NoQuery,
            r.query_in_path is Selected <==> self.query_in_path is Selected,
            selected_names(r.query_in_path) == selected_names(self.query_in_path),
    {
        let query_in_path = match &self.query_in_path {
            QueryInPath::NoQuery => QueryInPath::NoQuery,
            QueryInPath::All => QueryInPath::All,
            QueryInPath::Selected(v) => QueryInPath::Selected(clone_string_vec(v)),
        };
        Config {
            query_in_path,
            root_dir: self.root_dir.clone(),
            host_in_path: self.host_in_path,
        }
    }

    /// Replaces the root directory.
    pub fn set_root_dir(&mut self, root_dir: String)
        ensures
            final(self).root_dir == root_dir,
            final(self).query_in_path == old(self).query_in_path,
            final(self).host_in_path == old(self).host_in_path,
    {
        self.root_dir = root_dir;
    }

    /// The root directory replaced, builder style.
    pub fn with_root_dir(self, root_dir: String) -> (r: Self)
        ensures
            r.root_dir == root_dir,
            r.query_in_path == self.query_in_path,
            r.host_in_path == self.host_in_path,
    {
        Config { root_dir, ..self }
    }

    /// No query parameter affects the key any more.
    pub fn use_no_query_path(&mut self)
        ensures
            final(self).query_in_path is NoQuery,
            final(self).root_dir == old(self).root_dir,
            final(self).host_in_path == old(self).host_in_path,
    {
        self.query_in_path = QueryInPath::NoQuery;
    }

    /// The no-query policy, builder style.
    pub fn with_no_query_path(self) -> (r: Self)
        ensures
            r.query_in_path is NoQuery,
            r.root_dir == self.root_dir,
            r.host_in_path == self.host_in_path,
    {
        let mut c = self;
        c.use_no_query_path();
        c
    }

    /// Every query parameter affects the key again.
    pub fn use_all_query_path(&mut self)
        ensures
            final(self).query_in_path is All,
            final(self).root_dir == old(self).root_dir,
            final(self).host_in_path == old(self).host_in_path,
    {
        self.query_in_path = QueryInPath::All;
    }

    /// The all-query policy, builder style.
    pub fn with_all_query_path(self) -> (r: Self)
        ensures
            r.query_in_path is All,
            r.root_dir == self.root_dir,
            r.host_in_path == self.host_in_path,
    {
        let mut c = self;
        c.use_all_query_path();
        c
    }

    /// Selects one more query parameter name. A `Selected` set grows by the
    /// name, kept sorted and duplicate-free; any other policy is replaced by
    /// the singleton selection.
    pub fn use_query_path(&mut self, query: &str)
        ensures
            final(self).root_dir == old(self).root_dir,
            final(self).host_in_path == old(self).host_in_path,
            final(self).query_in_path is Selected,
            selected_names(final(self).query_in_path) == insert_unique_sorted(
                selected_names(old(self).query_in_path),
                query@,
            ),
    {
        let mut v: Vec<String> = match &self.query_in_path {
            QueryInPath::Selected(v0) => clone_string_vec(v0),
            _ => Vec::new(),
        };
        let ghost s = v.deep_view();
        let mut i: usize = 0;
        while i < v.len() && !str_le(query, v[i].as_str())
            invariant
                i <= v.len(),
                s == v.deep_view(),
                forall|j: int| 0 <= j < i ==> !seq_char_le(query@, s[j]),
            decreases v.len() - i,
        {
            proof {
                assert(s[i as int] == v@[i as int]@);
            }
            i = i + 1;
        }
        proof {
            if i < v.len() {
                assert(s[i as int] == v@[i as int]@);
            }
            lemma_insert_unique_at(s, query@, i as int);
        }
        if i < v.len() && str_eq(query, v[i].as_str()) {
            // already selected
            self.query_in_path = QueryInPath::Selected(v);
        } else {
            v.insert(i, query.to_owned());
            proof {
                assert(v.deep_view() =~= s.subrange(0, i as int) + seq![query@] + s.subrange(
                    i as int,
                    s.len() as int,
                ));
            }
            self.query_in_path = QueryInPath::Selected(v);
        }
    }

    /// One more selected query parameter name, builder style.
    pub fn with_query_path(self, query: &str) -> (r: Self)
        ensures
            r.root_dir == self.root_dir,
            r.host_in_path == self.host_in_path,
            r.query_in_path is Selected,
            selected_names(r.query_in_path) == insert_unique_sorted(
                selected_names(self.query_in_path),
                query@,
            ),
    {
        let mut c = self;
        c.use_query_path(query);
        c
    }

    /// Whether the host (or `:NO-HOST`) opens the key, builder style.
    pub fn with_host_in_path(self, host_in_path: bool) -> (r: Self)
        ensures
            r.root_dir == self.root_dir,
            r.query_in_path == self.query_in_path,
            r.host_in_path == host_in_path,
    {
        Config { host_in_path, ..self }
    }

    /// Whether the policy selects the given query parameter name.
    pub fn is_query_in_path(&self, query: &str) -> (r: bool)
        ensures
            r == query_selected(self.query_in_path, query@),
    {
        policy_selects(&self.query_in_path, query)
    }

    /// The configured root directory.
    pub fn get_root_dir(&self) -> (r: &String)
        ensures
            r@ == self.root_dir@,
    {
        &self.root_dir
    }
}

} // verus!
