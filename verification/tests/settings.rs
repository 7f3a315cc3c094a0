use jellofin::collection::collectionrepo::CollectionRepo;
use jellofin::collection::store::CatalogStore;
use jellofin::server::config::{
    add_configured, configure_store, default_address, default_image_quality, default_port, CollectionConfig, Config,
    DatabaseConfig, JellyfinConfig, ListenConfig, SqliteConfig,
};

fn entry(id: &str, kind: &str, hls: Option<&str>) -> CollectionConfig {
    CollectionConfig {
        id: id.to_string(),
        name: format!("Name of {}", id),
        collection_type: kind.to_string(),
        directory: format!("/media/{}", id),
        base_url: None,
        hls_server: hls.map(|h| h.to_string()),
    }
}

fn config() -> Config {
    Config {
        listen: ListenConfig {
            address: default_address(),
            port: default_port(),
            tls_cert: None,
            tls_key: None,
        },
        appdir: Some("/app".to_string()),
        cachedir: None,
        dbdir: None,
        database: DatabaseConfig { sqlite: SqliteConfig { filename: None }, path: None },
        logfile: None,
        collections: vec![entry("a", "movies", None), entry("b", "shows", Some("http://hls/"))],
        jellyfin: JellyfinConfig {
            server_id: Some("sid".to_string()),
            server_name: None,
            auto_register: true,
            image_quality_poster: default_image_quality(),
        },
    }
}

#[test]
fn defaults() {
    assert_eq!(default_address(), "0.0.0.0");
    assert_eq!(default_port(), "8096");
    assert_eq!(default_image_quality(), 90);
}

#[test]
fn accessors_give_the_settings() {
    let c = config();
    assert_eq!(c.app_dir(), Some("/app".to_string()));
    assert_eq!(c.cache_dir(), None);
    assert_eq!(c.server_id(), Some("sid".to_string()));
    assert_eq!(c.server_name(), None);
    assert_eq!(c.auto_register(), Some(true));
}

#[test]
fn configured_collections_are_added_in_order() {
    let mut repo = CollectionRepo::new();
    assert_eq!(add_configured(&mut repo, &config().collections), Ok(()));
    let cols = repo.get_collections();
    assert_eq!(cols.len(), 2);
    assert_eq!(cols[0].id, "a");
    assert_eq!(cols[0].name, "Name of a");
    assert_eq!(cols[0].hls_server, "");
    assert_eq!(cols[1].id, "b");
    assert_eq!(cols[1].directory, "/media/b");
    assert_eq!(cols[1].hls_server, "http://hls/");
}

#[test]
fn an_unknown_collection_type_stops_the_configuration() {
    let mut repo = CollectionRepo::new();
    let entries = vec![entry("a", "movies", None), entry("b", "music", None), entry("c", "shows", None)];
    assert_eq!(
        add_configured(&mut repo, &entries),
        Err("Unknown collection type: music".to_string())
    );
    assert_eq!(repo.get_collections().len(), 1);
    assert_eq!(repo.get_collections()[0].id, "a");
}

#[test]
fn a_store_is_configured_like_a_repository() {
    let store = CatalogStore::new();
    assert_eq!(configure_store(&store, &config().collections), Ok(()));
    let snapshot = store.snapshot();
    assert_eq!(snapshot.get_collections().len(), 2);
    assert_eq!(snapshot.get_collections()[1].hls_server, "http://hls/");
    let entries = vec![entry("c", "shows", None), entry("d", "", None)];
    assert_eq!(configure_store(&store, &entries), Err("Unknown collection type: ".to_string()));
    assert_eq!(store.snapshot().get_collections().len(), 3);
    assert_eq!(snapshot.get_collections().len(), 2);
}
