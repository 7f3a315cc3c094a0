//! The settings of the server and of its collections.

use vstd::prelude::*;
use crate::collection::collection::kind_of_name;
use crate::collection::collectionrepo::{
    new_collection, text_of, unknown_type_message, CollectionRepo,
};
use crate::collection::collection::CollectionView;
use crate::collection::store::CatalogStore;

verus! {

/// Where the server listens.
#[derive(Debug, Clone)]
pub struct ListenConfig {
    pub address: String,
    pub port: String,
    pub tls_cert: Option<String>,
    pub tls_key: Option<String>,
}

/// The SQLite database.
#[derive(Debug, Clone)]
pub struct SqliteConfig {
    pub filename: Option<String>,
}

/// Where the database lies.
#[derive(Debug, Clone)]
pub struct DatabaseConfig {
    pub sqlite: SqliteConfig,
    pub path: Option<String>,
}

/// One collection as the configuration names it.
#[derive(Debug, Clone)]
pub struct CollectionConfig {
    pub id: String,
    pub name: String,
    /// `movies` or `shows`.
    pub collection_type: String,
    pub directory: String,
    pub base_url: Option<String>,
    pub hls_server: Option<String>,
}

/// How the server presents itself to Jellyfin clients.
#[derive(Debug, Clone)]
pub struct JellyfinConfig {
    pub server_id: Option<String>,
    pub server_name: Option<String>,
    pub auto_register: bool,
    pub image_quality_poster: u32,
}

/// All settings.
#[derive(Debug, Clone)]
pub struct Config {
    pub listen: ListenConfig,
    pub appdir: Option<String>,
    pub cachedir: Option<String>,
    pub dbdir: Option<String>,
    pub database: DatabaseConfig,
    pub logfile: Option<String>,
    pub collections: Vec<CollectionConfig>,
    pub jellyfin: JellyfinConfig,
}

/// The characters of a text that may be missing; the empty text where it is.
pub open spec fn text_or_empty(s: Option<String>) -> Seq<char> {
    match s {
        Some(t) => t@,
        None => Seq::empty(),
    }
}

/// A copy of a text that may be missing.
fn copy_of(s: &Option<String>) -> (r: Option<String>)
    ensures
        text_of(r) == text_of(*s),
{
    match s {
        Some(t) => Some(t.clone()),
        None => None,
    }
}

/// The address on which the server listens where none is configured.
pub fn default_address() -> (r: String)
    ensures
        r@ == "0.0.0.0"@,
{
    "0.0.0.0".to_owned()
}

/// The port on which the server listens where none is configured.
pub fn default_port() -> (r: String)
    ensures
        r@ == "8096"@,
{
    "8096".to_owned()
}

/// The quality of resized posters where none is configured.
pub fn default_image_quality() -> (r: u32)
    ensures
        r == 90,
{
    90
}

impl Config {
    /// The directory of the web application.
    pub fn app_dir(&self) -> (r: Option<String>)
        ensures
            text_of(r) == text_of(self.appdir),
    {
        copy_of(&self.appdir)
    }

    /// The directory of the image cache.
    pub fn cache_dir(&self) -> (r: Option<String>)
        ensures
            text_of(r) == text_of(self.cachedir),
    {
        copy_of(&self.cachedir)
    }

    /// The identifier of the server.
    pub fn server_id(&self) -> (r: Option<String>)
        ensures
            text_of(r) == text_of(self.jellyfin.server_id),
    {
        copy_of(&self.jellyfin.server_id)
    }

    /// The name of the server.
    pub fn server_name(&self) -> (r: Option<String>)
        ensures
            text_of(r) == text_of(self.jellyfin.server_name),
    {
        copy_of(&self.jellyfin.server_name)
    }

    /// Whether automatic registration is switched on.
    pub fn auto_register(&self) -> (r: Option<bool>)
        ensures
            r == Some(self.jellyfin.auto_register),
    {
        Some(self.jellyfin.auto_register)
    }
}

/// The collection that a configuration entry stands for, where its type is
/// known.
pub open spec fn configured(c: CollectionConfig) -> CollectionView {
    new_collection(
        c.name@,
        Some(c.id@),
        kind_of_name(c.collection_type@)->0,
        c.directory@,
        text_or_empty(c.hls_server),
    )
}

/// The index of the first entry at or after `from` whose collection type is
/// not known, or the number of entries where all are known.
pub open spec fn first_unknown(configs: Seq<CollectionConfig>, from: int) -> int
    decreases configs.len() - from,
{
    if from < 0 || from >= configs.len() {
        configs.len() as int
    } else if kind_of_name(configs[from].collection_type@) is None {
        from
    } else {
        first_unknown(configs, from + 1)
    }
}

/// A catalog with the first `n` configured collections added at its end.
pub open spec fn with_configured(c: Seq<CollectionView>, configs: Seq<CollectionConfig>, n: int) -> Seq<
    CollectionView,
> {
    c + Seq::new(n as nat, |i: int| configured(configs[i]))
}

/// Adds the collections of a configuration to a repository, in order. At
/// the first entry whose type is neither `movies` nor `shows` it stops with
/// an error; the entries before it stay added.
pub fn add_configured(repo: &mut CollectionRepo, configs: &Vec<CollectionConfig>) -> (r: Result<
    (),
    String,
>)
    ensures
        final(repo)@ == with_configured(old(repo)@, configs@, first_unknown(configs@, 0)),
        match r {
            Ok(_) => first_unknown(configs@, 0) == configs@.len(),
            Err(e) => first_unknown(configs@, 0) < configs@.len() && e@ == unknown_type_message(
                configs@[first_unknown(configs@, 0)].collection_type@,
            ),
        },
{
    let mut k: usize = 0;
    assert(repo@ =~= with_configured(old(repo)@, configs@, 0));
    while k < configs.len()
        invariant
            k <= configs.len(),
            first_unknown(configs@, 0) == first_unknown(configs@, k as int),
            repo@ == with_configured(old(repo)@, configs@, k as int),
        decreases configs.len() - k,
    {
        let c = &configs[k];
        let hls_server = match &c.hls_server {
            Some(h) => h.clone(),
            None => String::new(),
        };
        let ghost before = repo@;
        match repo.add_collection(
            c.name.clone(),
            Some(c.id.clone()),
            c.collection_type.as_str(),
            c.directory.clone(),
            hls_server,
        ) {
            Ok(_) => {
                assert(repo@ =~= with_configured(old(repo)@, configs@, k + 1));
            },
            Err(e) => {
                return Err(e);
            },
        }
        k = k + 1;
    }
    Ok(())
}

/// Publishes the collections of a configuration in a store, one after the
/// other. At the first entry whose type is neither `movies` nor `shows` it
/// stops with an error; the entries before it stay published.
pub fn configure_store(store: &CatalogStore, configs: &Vec<CollectionConfig>) -> (r: Result<
    (),
    String,
>)
    ensures
        match r {
            Ok(_) => first_unknown(configs@, 0) == configs@.len(),
            Err(e) => first_unknown(configs@, 0) < configs@.len() && e@ == unknown_type_message(
                configs@[first_unknown(configs@, 0)].collection_type@,
            ),
        },
{
    let mut k: usize = 0;
    while k < configs.len()
        invariant
            k <= configs.len(),
            first_unknown(configs@, 0) == first_unknown(configs@, k as int),
        decreases configs.len() - k,
    {
        let c = &configs[k];
        let hls_server = match &c.hls_server {
            Some(h) => h.clone(),
            None => String::new(),
        };
        match store.add_collection(
            c.name.clone(),
            Some(c.id.clone()),
            c.collection_type.as_str(),
            c.directory.clone(),
            hls_server,
        ) {
            Ok(_) => {},
            Err(e) => {
                return Err(e);
            },
        }
        k = k + 1;
    }
    Ok(())
}

} // verus!
