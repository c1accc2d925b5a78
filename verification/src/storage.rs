//! The file-backed response cache: where an entry lives, what its three
//! files hold, and the exact decision between hit, miss and error.
//!
//! All filesystem work stays with the embedder: it hands `lookup` the file
//! contents it found and performs the writes `store_plan` lays out, in
//! order. The status file comes last, so a reader never takes an unfinished
//! entry for present.

use crate::config::Config;
use crate::error::CommonError;
use crate::error::Error;
use crate::key::encode_key;
use crate::key::encode_key_spec;
use crate::request::ParodyRequest;
use crate::response::ParodyResponse;
use crate::text::dec_bytes;
use crate::text::lemma_status_roundtrip;
use crate::text::parse_status;
use crate::text::parse_status_spec;
use crate::text::u16_to_dec_bytes;
use vstd::prelude::*;

verus! {

// ---------------------------------------------------------------------------
// Cache entries
// ---------------------------------------------------------------------------

/// The model of a cache entry: status, ordered headers, body bytes.
pub struct EntryModel {
    pub status: u16,
    pub headers: Seq<(Seq<char>, Seq<char>)>,
    pub body: Seq<u8>,
}

/// One cache entry: the triple persisted as three files.
#[derive(Debug)]
pub struct CacheEntry {
    /// The HTTP status code.
    pub status: u16,
    /// Header (name, value) pairs, order and duplicates preserved.
    pub headers: Vec<(String, String)>,
    /// The raw body bytes.
    pub body: Vec<u8>,
}

impl View for CacheEntry {
    type V = EntryModel;

    open spec fn view(&self) -> EntryModel {
        EntryModel {
            status: self.status,
            headers: self.headers.deep_view(),
            body: self.body@,
        }
    }
}

impl ParodyResponse for CacheEntry {
    open spec fn status_spec(&self) -> u16 {
        self.status
    }

    open spec fn headers_spec(&self) -> Seq<(Seq<char>, Seq<char>)> {
        self.headers.deep_view()
    }

    open spec fn body_spec(&self) -> Seq<u8> {
        self.body@
    }

    fn get_status(&self) -> (s: u16)
        ensures
            s == self.status_spec(),
    {
        self.status
    }

    fn get_headers(&self) -> (h: Vec<(String, String)>)
        ensures
            h.deep_view() == self.headers_spec(),
    {
        let h = crate::pairs::clone_pair_vec(&self.headers);
        h
    }

    fn get_body(&self) -> (b: Vec<u8>)
        ensures
            b@ == self.body_spec(),
    {
        let mut b: Vec<u8> = Vec::new();
        let mut i: usize = 0;
        while i < self.body.len()
            invariant
                i <= self.body.len(),
                b@ =~= self.body@.subrange(0, i as int),
            decreases self.body.len() - i,
        {
            b.push(self.body[i]);
            proof {
                assert(b@ =~= self.body@.subrange(0, i as int + 1));
            }
            i = i + 1;
        }
        proof {
            assert(self.body@.subrange(0, self.body@.len() as int) =~= self.body@);
        }
        b
    }
}

// ---------------------------------------------------------------------------
// The headers file format, through serde_yaml
// ---------------------------------------------------------------------------

/// What parsing a headers file yields: `None` when the bytes are not UTF-8
/// or not a YAML sequence of [name, value] pairs, otherwise the pairs.
/// Parsing is a pure function of the bytes.
pub uninterp spec fn yaml_headers_of(bytes: Seq<u8>) -> Option<Seq<(Seq<char>, Seq<char>)>>;

/// What rendering a header list as YAML yields: `None` when serialization
/// fails, otherwise the bytes of the headers file. Rendering is a pure
/// function of the list.
pub uninterp spec fn yaml_render_of(h: Seq<(Seq<char>, Seq<char>)>) -> Option<Seq<u8>>;

/// Relies on `serde_yaml::to_string` for `Vec<(String, String)>`: it either
/// fails or renders the list as a YAML sequence of [name, value] pairs,
/// a pure function of the list, which `serde_yaml::from_slice` parses back
/// to the same list.
#[verifier::external_body]
fn headers_to_yaml(h: &Vec<(String, String)>) -> (r: Option<Vec<u8>>)
    ensures
        r is Some <==> yaml_render_of(h.deep_view()) is Some,
        r matches Some(bytes) ==> yaml_render_of(h.deep_view()) == Some(bytes@),
        r matches Some(bytes) ==> yaml_headers_of(bytes@) == Some(h.deep_view()),
{
    match serde_yaml::to_string(h) {
        Ok(s) => Some(s.into_bytes()),
        Err(_) => None,
    }
}

/// Relies on `serde_yaml::from_slice` for `Vec<(String, String)>`: parsing
/// fails on bytes that are not UTF-8 or not a YAML sequence of pairs, and
/// otherwise yields the pairs the text denotes, order and duplicates kept.
#[verifier::external_body]
fn headers_from_yaml(bytes: &Vec<u8>) -> (r: Option<Vec<(String, String)>>)
    ensures
        r is Some <==> yaml_headers_of(bytes@) is Some,
        r matches Some(h) ==> yaml_headers_of(bytes@) == Some(h.deep_view()),
{
    serde_yaml::from_slice(bytes).ok()
}

// ---------------------------------------------------------------------------
// The status file format
// ---------------------------------------------------------------------------

/// The contents of a status file: the decimal status and a newline.
pub open spec fn status_line_spec(status: u16) -> Seq<u8> {
    dec_bytes(status as nat) + seq![10u8]
}

/// Renders the contents of a status file.
pub fn status_line(status: u16) -> (r: Vec<u8>)
    ensures
        r@ == status_line_spec(status),
{
    let mut r = u16_to_dec_bytes(status);
    r.push(10);
    proof {
        assert(r@ =~= status_line_spec(status));
    }
    r
}

// ---------------------------------------------------------------------------
// The store itself
// ---------------------------------------------------------------------------

/// A cache store scoped to one request: it knows the entry's relative
/// directory and the request method that names the entry's files.
pub struct DirectoryStorage {
    config: Config,
    /// The cache key: the entry's directory relative to the root directory.
    storage_path_relative: Vec<String>,
    method: String,
}

/// The bytes of an optional file's contents.
pub open spec fn opt_bytes(b: Option<Vec<u8>>) -> Option<Seq<u8>> {
    match b {
        Option::Some(v) => Option::Some(v@),
        Option::None => Option::None,
    }
}

/// The body bytes an entry yields: absent file means empty body.
pub open spec fn body_or_empty(b: Option<Seq<u8>>) -> Seq<u8> {
    match b {
        Option::Some(x) => x,
        Option::None => Seq::empty(),
    }
}

/// The exact outcome of a lookup, from what the filesystem held: a miss
/// when the directory or the status file is absent; a malformed-status or
/// malformed-headers failure when a file exists but does not parse; the
/// entry otherwise, with absent headers or body files read as empty.
pub open spec fn lookup_spec(
    dir_exists: bool,
    status: Option<Seq<u8>>,
    headers: Option<Seq<u8>>,
    body: Option<Seq<u8>>,
) -> Result<EntryModel, Error> {
    if !dir_exists {
        Result::Err(Error::CacheMiss)
    } else {
        match status {
            Option::None => Result::Err(Error::CacheMiss),
            Option::Some(sb) => match parse_status_spec(sb) {
                Option::None => Result::Err(Error::Common(CommonError::MalformedStatus)),
                Option::Some(code) => match headers {
                    Option::None => Result::Ok(
                        EntryModel { status: code, headers: Seq::empty(), body: body_or_empty(body) },
                    ),
                    Option::Some(hb) => match yaml_headers_of(hb) {
                        Option::None => Result::Err(Error::Common(CommonError::MalformedHeaders)),
                        Option::Some(h) => Result::Ok(
                            EntryModel { status: code, headers: h, body: body_or_empty(body) },
                        ),
                    },
                },
            },
        }
    }
}

impl DirectoryStorage {
    /// The request method this store serves.
    pub closed spec fn method_spec(&self) -> Seq<char> {
        self.method@
    }

    /// The cache key: the entry directory relative to the root.
    pub closed spec fn relative_key(&self) -> Seq<Seq<char>> {
        self.storage_path_relative.deep_view()
    }

    /// The configuration the store was built with.
    pub closed spec fn config_spec(&self) -> Config {
        self.config
    }

    /// A store for the request under the default configuration.
    pub fn new<T: ParodyRequest>(req: &T) -> (r: Result<Self, Error>)
        ensures
            r matches Ok(s) ==> {
                &&& encode_key_spec(req.url_spec(), s.config_spec()) == Some(s.relative_key())
                &&& s.method_spec() == req.method_spec()
                &&& s.config_spec().query_in_path is All
                &&& s.config_spec().root_dir@ == Seq::<char>::empty()
                &&& s.config_spec().host_in_path
            },
            r is Err <==> crate::key::decoded_segments(req.url_spec().path_segments) is None,
            r matches Err(e) ==> e == Error::Common(CommonError::EncodingError),
    {
        let config = Config {
            query_in_path: crate::config::QueryInPath::All,
            root_dir: String::new(),
            host_in_path: true,
        };
        Self::new_with_config(req, config)
    }

    /// A store for the request under the given configuration. Fails with
    /// `EncodingError` exactly when the key cannot be encoded.
    pub fn new_with_config<T: ParodyRequest>(req: &T, config: Config) -> (r: Result<Self, Error>)
        ensures
            r matches Ok(s) ==> {
                &&& encode_key_spec(req.url_spec(), config) == Some(s.relative_key())
                &&& s.method_spec() == req.method_spec()
                &&& s.config_spec() == config
            },
            r is Err <==> encode_key_spec(req.url_spec(), config) is None,
            r matches Err(e) ==> e == Error::Common(CommonError::EncodingError),
    {
        let url = req.get_url();
        let storage_path_relative = match encode_key(&url, &config) {
            Ok(k) => k,
            Err(e) => {
                return Err(e);
            },
        };
        Ok(DirectoryStorage { config, storage_path_relative, method: req.get_method() })
    }

    /// The entry directory, one path segment per element, relative to the
    /// configured root directory.
    pub fn relative_segments(&self) -> (r: &Vec<String>)
        ensures
            r.deep_view() == self.relative_key(),
    {
        &self.storage_path_relative
    }

    /// The configuration the store was built with.
    pub fn get_config(&self) -> (r: &Config)
        ensures
            *r == self.config_spec(),
    {
        &self.config
    }

    /// The name of the entry's status file: `<METHOD>.status`.
    pub fn status_file_name(&self) -> (r: String)
        ensures
            r@ == self.method_spec() + ".status"@,
    {
        self.method.clone().concat(".status")
    }

    /// The name of the entry's headers file: `<METHOD>.headers.yaml`.
    pub fn headers_file_name(&self) -> (r: String)
        ensures
            r@ == self.method_spec() + ".headers.yaml"@,
    {
        self.method.clone().concat(".headers.yaml")
    }

    /// The name of the entry's body file: `<METHOD>.body`.
    pub fn body_file_name(&self) -> (r: String)
        ensures
            r@ == self.method_spec() + ".body"@,
    {
        self.method.clone().concat(".body")
    }

    /// Decides hit, miss or error from what the filesystem held for this
    /// entry: whether its directory exists and the contents of its three
    /// files, each `None` when absent.
    pub fn lookup(
        &self,
        dir_exists: bool,
        status_file: Option<Vec<u8>>,
        headers_file: Option<Vec<u8>>,
        body_file: Option<Vec<u8>>,
    ) -> (r: Result<CacheEntry, Error>)
        ensures
            r matches Ok(e) ==> lookup_spec(
                dir_exists,
                opt_bytes(status_file),
                opt_bytes(headers_file),
                opt_bytes(body_file),
            ) == Result::<EntryModel, Error>::Ok(e@),
            r matches Err(er) ==> lookup_spec(
                dir_exists,
                opt_bytes(status_file),
                opt_bytes(headers_file),
                opt_bytes(body_file),
            ) == Result::<EntryModel, Error>::Err(er),
    {
        if !dir_exists {
            return Err(Error::CacheMiss);
        }
        let sb = match status_file {
            Option::Some(sb) => sb,
            Option::None => {
                return Err(Error::CacheMiss);
            },
        };
        let code = match parse_status(&sb) {
            Option::Some(c) => c,
            Option::None => {
                return Err(Error::Common(CommonError::MalformedStatus));
            },
        };
        let headers = match headers_file {
            Option::Some(hb) => match headers_from_yaml(&hb) {
                Option::Some(h) => h,
                Option::None => {
                    return Err(Error::Common(CommonError::MalformedHeaders));
                },
            },
            Option::None => {
                let empty_headers: Vec<(String, String)> = Vec::new();
                proof {
                    assert(empty_headers.deep_view() =~= Seq::<(Seq<char>, Seq<char>)>::empty());
                }
                empty_headers
            },
        };
        let body = match body_file {
            Option::Some(b) => b,
            Option::None => {
                let empty_body: Vec<u8> = Vec::new();
                proof {
                    assert(empty_body@ =~= Seq::<u8>::empty());
                }
                empty_body
            },
        };
        let entry = CacheEntry { status: code, headers, body };
        proof {
            assert(entry@ == EntryModel {
                status: code,
                headers: entry.headers.deep_view(),
                body: entry.body@,
            });
        }
        Ok(entry)
    }

    /// Lays out the writes that persist a response as this entry: the body
    /// file, then the headers file, then — last, as the existence marker —
    /// the status file. The embedder creates the entry directory and writes
    /// the files in this order.
    pub fn store_plan<T: ParodyResponse>(&self, resp: &T) -> (r: Result<Vec<(String, Vec<u8>)>, Error>)
        ensures
            r is Ok <==> yaml_render_of(resp.headers_spec()) is Some,
            r matches Ok(w) ==> {
                &&& w@.len() == 3
                &&& w@[0].0@ == self.method_spec() + ".body"@
                &&& w@[0].1@ == resp.body_spec()
                &&& w@[1].0@ == self.method_spec() + ".headers.yaml"@
                &&& yaml_render_of(resp.headers_spec()) == Some(w@[1].1@)
                &&& yaml_headers_of(w@[1].1@) == Some(resp.headers_spec())
                &&& w@[2].0@ == self.method_spec() + ".status"@
                &&& w@[2].1@ == status_line_spec(resp.status_spec())
            },
            r matches Err(e) ==> e == Error::Common(CommonError::MalformedHeaders),
    {
        let headers = resp.get_headers();
        let yaml = match headers_to_yaml(&headers) {
            Option::Some(y) => y,
            Option::None => {
                return Err(Error::Common(CommonError::MalformedHeaders));
            },
        };
        let mut writes: Vec<(String, Vec<u8>)> = Vec::new();
        writes.push((self.body_file_name(), resp.get_body()));
        writes.push((self.headers_file_name(), yaml));
        writes.push((self.status_file_name(), status_line(resp.get_status())));
        Ok(writes)
    }
}

// ---------------------------------------------------------------------------
// Laws of the store
// ---------------------------------------------------------------------------

/// Law: lookup reports a cache miss exactly when the entry directory does
/// not exist or the status file for the method is absent.
pub proof fn lemma_miss_iff_no_status(
    dir_exists: bool,
    status: Option<Seq<u8>>,
    headers: Option<Seq<u8>>,
    body: Option<Seq<u8>>,
)
    ensures
        (lookup_spec(dir_exists, status, headers, body) == Result::<EntryModel, Error>::Err(
            Error::CacheMiss,
        )) <==> (!dir_exists || status is None),
{
}

/// Law: storing an entry and looking it up returns the entry: the status
/// round-trips through its decimal file, the headers through their YAML
/// file, and the body byte for byte.
pub proof fn lemma_store_then_lookup(e: EntryModel, yaml: Seq<u8>)
    requires
        100 <= e.status <= 599,
        yaml_headers_of(yaml) == Some(e.headers),
    ensures
        lookup_spec(true, Some(status_line_spec(e.status)), Some(yaml), Some(e.body))
            == Result::<EntryModel, Error>::Ok(e),
{
    lemma_status_roundtrip(e.status);
}

} // verus!
