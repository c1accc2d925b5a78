//! A record-and-replay HTTP proxy core: a deterministic mapping from requests
//! to filesystem cache keys, a file-backed cache entry layout, an upstream
//! request rewriter, and the per-request pipeline that glues them together.
//!
//! All I/O (filesystem, network, the hosting HTTP server) lives outside this
//! crate; the functions here compute on plain values and are verified.

pub mod config;
pub mod error;
pub mod forward;
pub mod key;
pub mod middleware;
pub mod pairs;
pub mod pipeline;
pub mod request;
pub mod response;
pub mod storage;
pub mod text;
pub mod web;

pub use crate::error::CommonError;
pub use crate::error::Error;
pub use crate::error::UtilError;
pub use crate::forward::ForwardMiddleware;
pub use crate::forward::ProxyResponse;
pub use crate::middleware::CacheMiddleware;
pub use crate::middleware::ResponseCache;

use vstd::prelude::*;

verus! {

/// The directory part of a file path: everything before the last `/`, or
/// empty when there is none.
pub open spec fn dir_part(f: Seq<char>) -> Seq<char>
    decreases f.len(),
{
    if f.len() == 0 {
        Seq::empty()
    } else if f.last() == '/' {
        f.drop_last()
    } else {
        dir_part(f.drop_last())
    }
}

/// Whether a file path has a parent directory: it does unless it is empty
/// or consists of separators alone.
pub open spec fn has_parent(f: Seq<char>) -> bool {
    exists|i: int| 0 <= i < f.len() && f[i] != '/'
}

/// The parent directory of a file path: the directory part, or `/` when the
/// only separator opens the path.
pub open spec fn parent_part(f: Seq<char>) -> Seq<char> {
    if dir_part(f).len() == 0 && f.len() > 0 && f[0] == '/' {
        seq!['/']
    } else {
        dir_part(f)
    }
}

/// The storage directory inside a parent, named after a host.
pub open spec fn storage_dir_spec(parent: Seq<char>, host: Seq<char>) -> Seq<char> {
    if parent.len() == 0 {
        host
    } else if parent == seq!['/'] {
        seq!['/'] + host
    } else {
        parent + seq!['/'] + host
    }
}

/// Derives a storage directory from an upstream URL and a source file path:
/// the URL's domain, as a directory beside the file. Fails with
/// `ConfigError` when the URL does not parse; with `DomainMissing` when it
/// parses but its host is missing, empty, or an IP address rather than a
/// domain; and with `InvalidCurrentFilePath` when the file path has no
/// parent directory.
pub fn get_storage_directory(upstream_url: &str, file: &str) -> (r: Result<String, Error>)
    ensures
        crate::web::parsed_url(upstream_url@) is None ==> r == Err::<String, Error>(
            Error::Common(CommonError::ConfigError),
        ),
        crate::web::parsed_url(upstream_url@) matches Some(u) ==> if !(u.host matches Some(h)
            && h.len() > 0 && u.host_is_domain) {
            r == Err::<String, Error>(Error::Util(UtilError::DomainMissing))
        } else if !has_parent(file@) {
            r == Err::<String, Error>(Error::Util(UtilError::InvalidCurrentFilePath))
        } else {
            r matches Ok(d) && d@ == storage_dir_spec(parent_part(file@), u.host->0)
        },
{
    let url = match crate::web::parse_url(upstream_url) {
        Option::Some(u) => u,
        Option::None => {
            return Err(Error::Common(CommonError::ConfigError));
        },
    };
    let host: String = match &url.host {
        Option::Some(h) => {
            if h.as_str().unicode_len() == 0 || !url.host_is_domain {
                return Err(Error::Util(UtilError::DomainMissing));
            }
            h.clone()
        },
        Option::None => {
            return Err(Error::Util(UtilError::DomainMissing));
        },
    };
    proof {
        assert(crate::web::parsed_url(upstream_url@) == Some(url@));
        assert(url@.host == Some(host@));
        assert(host@.len() > 0);
        assert(url@.host_is_domain);
    }
    let n = file.unicode_len();
    // a path of separators alone, or an empty one, has no parent
    let mut j: usize = 0;
    while j < n && file.get_char(j) == '/'
        invariant
            j <= n,
            n == file@.len(),
            forall|k: int| 0 <= k < j ==> file@[k] == '/',
        decreases n - j,
    {
        j = j + 1;
    }
    if j == n {
        proof {
            assert(!has_parent(file@));
        }
        return Err(Error::Util(UtilError::InvalidCurrentFilePath));
    }
    proof {
        assert(file@[j as int] != '/');
        assert(has_parent(file@));
    }
    // the directory part of `file`
    let mut i: usize = n;
    proof {
        assert(file@.subrange(0, n as int) =~= file@);
    }
    while i > 0 && file.get_char(i - 1) != '/'
        invariant
            i <= n,
            n == file@.len(),
            dir_part(file@) == dir_part(file@.subrange(0, i as int)),
            forall|k: int| i <= k < n ==> file@[k] != '/',
        decreases i,
    {
        proof {
            let pre = file@.subrange(0, i as int);
            assert(pre.last() == file@[i as int - 1]);
            assert(pre.drop_last() =~= file@.subrange(0, i as int - 1));
        }
        i = i - 1;
    }
    proof {
        reveal_strlit("/");
        assert("/"@ =~= seq!['/']);
    }
    if i == 0 {
        proof {
            assert(file@.subrange(0, 0) =~= Seq::<char>::empty());
            assert(dir_part(file@) == Seq::<char>::empty());
            assert(file@[0] != '/');
            assert(parent_part(file@) == Seq::<char>::empty());
        }
        Ok(host)
    } else if i == 1 {
        proof {
            let pre = file@.subrange(0, 1);
            assert(pre.last() == file@[0]);
            assert(pre.drop_last() =~= Seq::<char>::empty());
            assert(dir_part(file@) == Seq::<char>::empty());
            assert(file@[0] == '/');
            assert(parent_part(file@) =~= seq!['/']);
        }
        let mut d = String::from_str("/");
        d.append(host.as_str());
        proof {
            assert(d@ == seq!['/'] + host@);
        }
        Ok(d)
    } else {
        let parent = file.substring_char(0, i - 1);
        proof {
            let pre = file@.subrange(0, i as int);
            assert(pre.last() == file@[i as int - 1]);
            assert(pre.drop_last() =~= file@.subrange(0, i as int - 1));
            assert(dir_part(file@) == file@.subrange(0, i as int - 1));
            assert(dir_part(file@).len() == i - 1);
            assert(parent_part(file@) == dir_part(file@));
            assert(parent@ == dir_part(file@));
        }
        if crate::text::str_eq(parent, "/") {
            let mut d = String::from_str("/");
            d.append(host.as_str());
            proof {
                assert(parent_part(file@) == seq!['/']);
                assert(d@ == seq!['/'] + host@);
            }
            Ok(d)
        } else {
            let mut d = parent.to_owned();
            d.append("/");
            d.append(host.as_str());
            proof {
                assert(d@ == file@.subrange(0, i as int - 1) + seq!['/'] + host@);
                assert(parent_part(file@) != seq!['/']);
            }
            Ok(d)
        }
    }
}

} // verus!
