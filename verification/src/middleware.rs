//! The cache middleware: it carries the storage configuration and builds a
//! request-scoped `DirectoryStorage` for each inbound request.

use crate::config::Config;
use crate::config::QueryInPath;
use crate::error::Error;
use crate::key::encode_key_spec;
use crate::request::ParodyRequest;
use crate::storage::DirectoryStorage;
use vstd::prelude::*;

verus! {

/// Marker under which the embedder keeps the request's cache store in its
/// per-request environment.
#[derive(Debug, Clone, Copy)]
pub struct ResponseCache;

/// Holds the storage configuration and builds one store per request.
pub struct CacheMiddleware {
    storage_config: Config,
}

impl CacheMiddleware {
    /// The configuration the middleware applies to every request.
    pub closed spec fn config_spec(&self) -> Config {
        self.storage_config
    }

    /// A middleware with the default configuration.
    pub fn new() -> (r: Self)
        ensures
            r.config_spec().query_in_path is All,
            r.config_spec().root_dir@ == Seq::<char>::empty(),
            r.config_spec().host_in_path,
    {
        CacheMiddleware {
            storage_config: Config {
                query_in_path: QueryInPath::All,
                root_dir: String::new(),
                host_in_path: true,
            },
        }
    }

    /// The root directory replaced, builder style.
    pub fn with_root_dir(self, root_dir: String) -> (r: Self)
        ensures
            r.config_spec().root_dir == root_dir,
            r.config_spec().query_in_path == self.config_spec().query_in_path,
            r.config_spec().host_in_path == self.config_spec().host_in_path,
    {
        let mut m = self;
        m.storage_config.set_root_dir(root_dir);
        m
    }

    /// Replaces the root directory.
    pub fn set_root_dir(&mut self, root_dir: String)
        ensures
            final(self).config_spec().root_dir == root_dir,
            final(self).config_spec().query_in_path == old(self).config_spec().query_in_path,
            final(self).config_spec().host_in_path == old(self).config_spec().host_in_path,
    {
        self.storage_config.set_root_dir(root_dir);
    }

    /// The whole storage configuration replaced, builder style.
    pub fn with_storage_config(self, storage_config: Config) -> (r: Self)
        ensures
            r.config_spec() == storage_config,
    {
        CacheMiddleware { storage_config }
    }

    /// The store for one request, under this middleware's configuration.
    /// Fails with `EncodingError` exactly when the request's key cannot be
    /// encoded.
    pub fn storage_for<T: ParodyRequest>(&self, req: &T) -> (r: Result<DirectoryStorage, Error>)
        ensures
            r matches Ok(s) ==> {
                &&& encode_key_spec(req.url_spec(), self.config_spec()) == Some(s.relative_key())
                &&& s.method_spec() == req.method_spec()
                &&& s.config_spec().root_dir@ == self.config_spec().root_dir@
                &&& s.config_spec().host_in_path == self.config_spec().host_in_path
                &&& (s.config_spec().query_in_path is All <==> self.config_spec().query_in_path
                    is All)
                &&& (s.config_spec().query_in_path is NoQuery <==> self.config_spec().query_in_path
                    is NoQuery)
                &&& (s.config_spec().query_in_path is Selected
                    <==> self.config_spec().query_in_path is Selected)
                &&& crate::config::selected_names(s.config_spec().query_in_path)
                    == crate::config::selected_names(self.config_spec().query_in_path)
            },
            r is Err <==> encode_key_spec(req.url_spec(), self.config_spec()) is None,
            r matches Err(e) ==> e == Error::Common(crate::error::CommonError::EncodingError),
    {
        let config = self.storage_config.duplicate();
        proof {
            crate::key::lemma_key_same_policy(req.url_spec(), config, self.config_spec());
        }
        DirectoryStorage::new_with_config(req, config)
    }
}

} // verus!
