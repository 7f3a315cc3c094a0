use jellofin::collection::collection::CollectionType;
use jellofin::collection::collectionrepo::CollectionRepo;
use jellofin::collection::item::{Item, ItemRef};
use jellofin::collection::kodifs::{Branch, DirTree, FileEntry, Folder};
use jellofin::collection::store::CatalogStore;
use jellofin::idhash::id_hash;
use jellofin::jellyfin::image::find_image_path;

fn file(name: &str) -> FileEntry {
    FileEntry { name: name.to_string(), is_file: true, size: 1 }
}

fn folder(name: &str, path: &str, files: &[&str]) -> Folder {
    Folder {
        name: name.to_string(),
        path: path.to_string(),
        entries: files.iter().map(|f| file(f)).collect(),
    }
}

/// A show with seasons [[e1, e2], [e1]].
fn show_tree(name: &str) -> DirTree {
    DirTree {
        branches: vec![Branch {
            folder: folder(name, name, &[]),
            subfolders: vec![
                folder("Season 2", "", &["x.s02e01.mkv"]),
                folder("Season 1", "", &["x.s01e02.mkv", "x.s01e01.mkv"]),
            ],
        }],
    }
}

fn movie_tree() -> DirTree {
    DirTree {
        branches: vec![
            Branch { folder: folder("Casablanca (1942)", "Casablanca (1942)", &["c.mkv"]), subfolders: vec![] },
            Branch { folder: folder("Alien", "Alien", &["a.mkv"]), subfolders: vec![] },
        ],
    }
}

fn catalog() -> CollectionRepo {
    let mut repo = CollectionRepo::new();
    repo.add_collection(
        "Movies".to_string(),
        Some("movies-id".to_string()),
        "movies",
        "/movies".to_string(),
        "".to_string(),
    )
    .unwrap();
    repo.add_collection(
        "Shows".to_string(),
        Some("shows-id".to_string()),
        "shows",
        "/shows".to_string(),
        "".to_string(),
    )
    .unwrap();
    repo.init(&vec![movie_tree(), show_tree("Casablanca Returns")], 1);
    repo
}

fn episode_id(show: &str, season: i32, episode: i32) -> String {
    id_hash(&format!("{}-s{}e{}", show, season, episode))
}

#[test]
fn test_new_repo() {
    let repo = CollectionRepo::new();
    assert_eq!(repo.get_collections().len(), 0);
}

#[test]
fn test_add_collection() {
    let mut repo = CollectionRepo::new();

    let result = repo.add_collection(
        "Test Movies".to_string(),
        None,
        "movies",
        "/test/movies".to_string(),
        "".to_string(),
    );

    assert!(result.is_ok());
    assert_eq!(repo.get_collections().len(), 1);
}

#[test]
fn test_add_invalid_collection_type() {
    let mut repo = CollectionRepo::new();

    let result = repo.add_collection(
        "Test".to_string(),
        None,
        "invalid",
        "/test".to_string(),
        "".to_string(),
    );

    assert!(result.is_err());
}

#[test]
fn test_get_collection() {
    let mut repo = CollectionRepo::new();

    repo.add_collection(
        "Test Movies".to_string(),
        Some("test-id".to_string()),
        "movies",
        "/test/movies".to_string(),
        "".to_string(),
    )
    .unwrap();

    let collection = repo.get_collection("test-id");
    assert!(collection.is_some());
    assert_eq!(collection.unwrap().name, "Test Movies");
}

#[test]
fn add_collection_without_id_hashes_the_name() {
    let mut repo = CollectionRepo::new();
    repo.add_collection("My Shows".to_string(), None, "shows", "/s".to_string(), "http://h/".to_string())
        .unwrap();
    let c = &repo.get_collections()[0];
    assert_eq!(c.id, id_hash("My Shows"));
    assert_eq!(c.collection_type, CollectionType::Shows);
    assert_eq!(c.directory, "/s");
    assert_eq!(c.hls_server, "http://h/");
    assert!(c.items.is_empty());
}

#[test]
fn an_unknown_type_leaves_the_repository_as_it_is() {
    let mut repo = CollectionRepo::new();
    repo.add_collection("A".to_string(), None, "movies", "/a".to_string(), "".to_string()).unwrap();
    let err = repo
        .add_collection("B".to_string(), None, "Movies", "/b".to_string(), "".to_string())
        .unwrap_err();
    assert_eq!(err, "Unknown collection type: Movies");
    assert_eq!(repo.get_collections().len(), 1);
    assert!(repo.get_collection(&id_hash("B")).is_none());
}

#[test]
fn get_item_finds_items_at_every_level() {
    let repo = catalog();
    let show = "Casablanca Returns";
    match repo.get_item("movies-id", &id_hash("Alien")) {
        Some(ItemRef::Movie(m)) => assert_eq!(m.name, "Alien"),
        _ => panic!("no movie"),
    }
    match repo.get_item("shows-id", &id_hash(show)) {
        Some(ItemRef::Show(s)) => assert_eq!(s.seasons.len(), 2),
        _ => panic!("no show"),
    }
    match repo.get_item("shows-id", &id_hash(&format!("{}-2", show))) {
        Some(ItemRef::Season(s)) => assert_eq!(s.season_no, 2),
        _ => panic!("no season"),
    }
    match repo.get_item("shows-id", &episode_id(show, 1, 2)) {
        Some(ItemRef::Episode(e)) => assert_eq!((e.season_no, e.episode_no), (1, 2)),
        _ => panic!("no episode"),
    }
    assert!(repo.get_item("movies-id", &id_hash(show)).is_none());
    assert!(repo.get_item("nowhere", &id_hash("Alien")).is_none());
    assert!(repo.get_item("shows-id", "missing").is_none());
}

#[test]
fn look_ups_by_id_search_all_collections() {
    let repo = catalog();
    let show = "Casablanca Returns";
    let (c, item) = repo.get_item_by_id(&episode_id(show, 2, 1)).unwrap();
    assert_eq!(c.id, "shows-id");
    assert!(matches!(item, ItemRef::Episode(_)));
    let (c, item) = repo.get_item_by_id(&id_hash("Alien")).unwrap();
    assert_eq!(c.id, "movies-id");
    assert!(matches!(item, ItemRef::Movie(_)));
    assert!(repo.get_item_by_id("missing").is_none());

    let (c, sh, se) = repo.get_season_by_id(&id_hash(&format!("{}-1", show))).unwrap();
    assert_eq!((c.id.as_str(), sh.name.as_str(), se.season_no), ("shows-id", show, 1));
    assert!(repo.get_season_by_id(&id_hash(show)).is_none());

    let (c, sh, se, ep) = repo.get_episode_by_id(&episode_id(show, 1, 1)).unwrap();
    assert_eq!(c.id, "shows-id");
    assert_eq!(sh.id, id_hash(show));
    assert_eq!(se.season_no, 1);
    assert_eq!(ep.episode_no, 1);
    assert!(repo.get_episode_by_id(&id_hash("Alien")).is_none());
}

#[test]
fn next_up_follows_the_last_watched_episode() {
    let repo = catalog();
    let show = "Casablanca Returns";
    let s1e1 = episode_id(show, 1, 1);
    let s1e2 = episode_id(show, 1, 2);
    let s2e1 = episode_id(show, 2, 1);
    assert_eq!(repo.next_up(&[s1e1.clone()]), vec![s1e2.clone()]);
    assert_eq!(repo.next_up(&[s1e2.clone()]), vec![s2e1.clone()]);
    assert_eq!(repo.next_up(&[s2e1.clone()]), Vec::<String>::new());
    // the highest watched episode counts, in whatever order they come
    assert_eq!(repo.next_up(&[s1e2.clone(), s1e1.clone()]), vec![s2e1.clone()]);
    assert_eq!(repo.next_up(&[s1e1.clone(), s1e2.clone()]), vec![s2e1.clone()]);
    assert_eq!(repo.next_up(&[s1e1.clone(), s2e1.clone(), s1e2.clone()]), Vec::<String>::new());
    assert_eq!(repo.next_up(&[]), Vec::<String>::new());
    assert_eq!(repo.next_up(&["missing".to_string(), id_hash("Alien")]), Vec::<String>::new());
}

#[test]
fn next_up_gives_one_episode_for_each_show() {
    let mut repo = CollectionRepo::new();
    repo.add_collection("A".to_string(), Some("a".to_string()), "shows", "/a".to_string(), "".to_string())
        .unwrap();
    repo.add_collection("B".to_string(), Some("b".to_string()), "shows", "/b".to_string(), "".to_string())
        .unwrap();
    repo.update_collections(&vec![show_tree("One"), show_tree("Two")], 1);
    let got = repo.next_up(&[
        episode_id("Two", 1, 1),
        episode_id("One", 1, 2),
        episode_id("Two", 1, 2),
    ]);
    assert_eq!(got, vec![episode_id("Two", 2, 1), episode_id("One", 2, 1)]);
}

#[test]
fn next_up_skips_a_next_season_without_episodes() {
    let mut repo = CollectionRepo::new();
    repo.add_collection("A".to_string(), Some("a".to_string()), "shows", "/a".to_string(), "".to_string())
        .unwrap();
    let tree = DirTree {
        branches: vec![Branch {
            folder: folder("One", "One", &[]),
            subfolders: vec![
                folder("Season 1", "", &["x.s01e01.mkv"]),
                folder("Season 2", "", &[]),
                folder("Season 3", "", &["x.s03e01.mkv"]),
            ],
        }],
    };
    repo.init(&vec![tree], 1);
    assert_eq!(repo.next_up(&[episode_id("One", 1, 1)]), Vec::<String>::new());
}

#[test]
fn search_matches_names_in_any_case() {
    let repo = catalog();
    let show = "Casablanca Returns";
    assert_eq!(repo.search("cas"), vec![id_hash("Casablanca (1942)"), id_hash(show)]);
    assert_eq!(repo.search("CASABLANCA R"), vec![id_hash(show)]);
    assert_eq!(repo.search("alien"), vec![id_hash("Alien")]);
    assert_eq!(repo.search("zzz"), Vec::<String>::new());
    assert_eq!(repo.search("01x02"), vec![episode_id(show, 1, 2)]);
    assert_eq!(repo.search("season 2"), vec![id_hash(&format!("{}-2", show))]);
    assert_eq!(repo.search_lowered("CAS"), Vec::<String>::new());
}

#[test]
fn search_finds_an_episode_by_its_name() {
    let mut collections = catalog().get_collections().clone();
    let wanted = episode_id("Casablanca Returns", 1, 1);
    if let Item::Show(show) = &mut collections[1].items[0] {
        show.name = "Other".to_string();
        assert_eq!(show.seasons[0].episodes[0].id, wanted);
        show.seasons[0].episodes[0].name = "Casablanca Returns".to_string();
    }
    let repo = CollectionRepo::with_collections(collections);
    assert_eq!(repo.search("cas"), vec![id_hash("Casablanca (1942)"), wanted.clone()]);
    assert_eq!(repo.search("CAS"), repo.search("cas"));
    assert_eq!(repo.search("returns"), vec![wanted]);
    assert!(!repo.search("cas").contains(&id_hash("Alien")));
    assert_eq!(repo.search(""), repo.search_lowered(""));
    assert_eq!(repo.search("").len(), 2 + 1 + 2 + 3);
}

#[test]
fn a_snapshot_taken_before_a_rebuild_keeps_its_items() {
    let mut repo = catalog();
    let before = repo.clone();
    let count = |r: &CollectionRepo| -> usize { r.get_collections().iter().map(|c| c.items.len()).sum() };
    assert_eq!(count(&before), 3);
    let bigger = DirTree {
        branches: vec![
            Branch { folder: folder("Casablanca (1942)", "Casablanca (1942)", &["c.mkv"]), subfolders: vec![] },
            Branch { folder: folder("Alien", "Alien", &["a.mkv"]), subfolders: vec![] },
            Branch { folder: folder("Brazil", "Brazil", &["b.mkv"]), subfolders: vec![] },
        ],
    };
    repo.update_collections(&vec![bigger, show_tree("Casablanca Returns")], 2);
    assert_eq!(count(&before), 3);
    assert_eq!(count(&repo), 4);
    assert_eq!(count(&repo.clone()), 4);
    assert!(before.get_item_by_id(&id_hash("Brazil")).is_none());
    assert!(repo.get_item_by_id(&id_hash("Brazil")).is_some());
}

#[test]
fn a_rebuild_keeps_collections_without_a_listing() {
    let mut repo = catalog();
    repo.update_collections(&vec![DirTree { branches: Vec::new() }], 3);
    assert_eq!(repo.get_collections()[0].items.len(), 0);
    assert_eq!(repo.get_collections()[1].items.len(), 1);
    assert_eq!(repo.get_collections()[1].id, "shows-id");
}

#[test]
fn details_count_the_whole_catalog() {
    let repo = catalog();
    let d = repo.details();
    assert_eq!(d.movie_count, 2);
    assert_eq!(d.show_count, 1);
    assert_eq!(d.episode_count, 3);
    assert!(d.genres.is_empty());
    assert!(d.years.is_empty());
    assert!(repo.similar("shows-id", "x").is_empty());
}

fn item_count(repo: &CollectionRepo) -> usize {
    repo.get_collections().iter().map(|c| c.items.len()).sum()
}

#[test]
fn a_reader_keeps_the_catalog_it_took() {
    let store = CatalogStore::new();
    assert_eq!(store.snapshot().get_collections().len(), 0);
    store
        .add_collection("Movies".to_string(), Some("m".to_string()), "movies", "/m".to_string(), "".to_string())
        .unwrap();
    store
        .add_collection("Shows".to_string(), None, "shows", "/s".to_string(), "".to_string())
        .unwrap();
    let empty = store.snapshot();
    store.init(vec![movie_tree(), show_tree("Casablanca Returns")], 1);
    let before = store.snapshot();
    assert_eq!(item_count(&empty), 0);
    assert_eq!(item_count(&before), 3);

    let bigger = DirTree {
        branches: vec![
            Branch { folder: folder("Alien", "Alien", &["a.mkv"]), subfolders: vec![] },
            Branch { folder: folder("Brazil", "Brazil", &["b.mkv"]), subfolders: vec![] },
            Branch { folder: folder("Casablanca (1942)", "Casablanca (1942)", &["c.mkv"]), subfolders: vec![] },
        ],
    };
    store.update_collections(vec![bigger, show_tree("Casablanca Returns")], 2);
    // the reader that took its snapshot before the rebuild still sees the old catalog, in full
    assert_eq!(item_count(&before), 3);
    assert!(before.get_item_by_id(&id_hash("Brazil")).is_none());
    assert_eq!(before.get_collections()[0].items[0].name(), "Casablanca (1942)");
    // a snapshot taken now is the new catalog
    let after = store.snapshot();
    assert_eq!(item_count(&after), 4);
    assert!(after.get_item_by_id(&id_hash("Brazil")).is_some());
    assert_eq!(after.get_collections()[1].id, id_hash("Shows"));
    assert_eq!(item_count(&empty), 0);
}

#[test]
fn the_store_refuses_an_unknown_collection_type() {
    let store = CatalogStore::new();
    let r = store.add_collection("X".to_string(), None, "music", "/x".to_string(), "".to_string());
    assert_eq!(r, Err("Unknown collection type: music".to_string()));
    assert_eq!(store.snapshot().get_collections().len(), 0);
}

#[test]
fn images_are_located_by_item_and_kind() {
    let mut collections = catalog().get_collections().clone();
    if let Item::Movie(m) = &mut collections[0].items[1] {
        m.poster = "poster.jpg".to_string();
        m.fanart = "fanart.png".to_string();
    }
    if let Item::Show(show) = &mut collections[1].items[0] {
        show.logo = "logo.png".to_string();
        show.seasons[0].season_all_poster = "season-all-poster.jpg".to_string();
        show.seasons[1].poster = "season02-poster.jpg".to_string();
        show.seasons[1].season_all_poster = "season-all-poster.jpg".to_string();
        show.seasons[0].episodes[0].thumb = "thumb.jpg".to_string();
    }
    let repo = CollectionRepo::with_collections(collections);
    let show = "Casablanca Returns";
    let place = |id: &str, kind: &str| {
        find_image_path(&repo, id, kind).map(|l| (l.directory, l.item_path, l.file_name))
    };
    let at = |d: &str, p: &str, f: &str| Some((d.to_string(), p.to_string(), f.to_string()));
    assert_eq!(place(&id_hash("Alien"), "Primary"), at("/movies", "Alien", "poster.jpg"));
    assert_eq!(place(&id_hash("Alien"), "Poster"), at("/movies", "Alien", "poster.jpg"));
    assert_eq!(place(&id_hash("Alien"), "Backdrop"), at("/movies", "Alien", "fanart.png"));
    assert_eq!(place(&id_hash("Alien"), "Fanart"), at("/movies", "Alien", "fanart.png"));
    assert_eq!(place(&id_hash("Alien"), "Banner"), None);
    assert_eq!(place(&id_hash("Alien"), "Logo"), None);
    assert_eq!(place(&id_hash("Alien"), "poster"), None);
    assert_eq!(place(&id_hash("Casablanca (1942)"), "Primary"), None);
    assert_eq!(place("missing", "Primary"), None);
    assert_eq!(place(&id_hash(show), "Logo"), at("/shows", show, "logo.png"));
    assert_eq!(
        place(&id_hash(&format!("{}-1", show)), "Primary"),
        at("/shows", show, "season-all-poster.jpg")
    );
    assert_eq!(
        place(&id_hash(&format!("{}-2", show)), "Primary"),
        at("/shows", show, "season02-poster.jpg")
    );
    assert_eq!(place(&episode_id(show, 1, 1), "Thumb"), at("/shows", show, "thumb.jpg"));
    assert_eq!(place(&episode_id(show, 1, 1), "Primary"), at("/shows", show, "thumb.jpg"));
    assert_eq!(place(&episode_id(show, 1, 1), "Backdrop"), None);
    assert_eq!(place(&episode_id(show, 1, 2), "Thumb"), None);
}

fn in_order(repo: &CollectionRepo) -> bool {
    repo.get_collections().iter().all(|c| {
        c.items.iter().all(|item| match (c.collection_type, item) {
            (CollectionType::Movies, Item::Movie(_)) => true,
            (CollectionType::Shows, Item::Show(show)) => {
                show.seasons.windows(2).all(|w| w[0].season_no <= w[1].season_no)
                    && show.seasons.iter().all(|s| {
                        s.episodes.windows(2).all(|w| w[0].episode_no <= w[1].episode_no)
                            && s.episodes.iter().all(|e| e.season_no == s.season_no)
                    })
            }
            _ => false,
        })
    })
}

#[test]
fn every_snapshot_is_a_whole_catalog_in_order() {
    let store = CatalogStore::new();
    let mut seen = vec![store.snapshot()];
    store
        .add_collection("Shows".to_string(), Some("s".to_string()), "shows", "/s".to_string(), "".to_string())
        .unwrap();
    seen.push(store.snapshot());
    store
        .add_collection("Movies".to_string(), Some("m".to_string()), "movies", "/m".to_string(), "".to_string())
        .unwrap();
    seen.push(store.snapshot());
    // the listings are swapped: each collection builds what is of its kind
    store.init(vec![movie_tree(), show_tree("One")], 1);
    seen.push(store.snapshot());
    store.update_collections(vec![show_tree("Two"), movie_tree()], 2);
    seen.push(store.snapshot());
    store.update_collections(vec![movie_tree()], 3);
    seen.push(store.snapshot());
    let counts: Vec<usize> = seen.iter().map(|s| item_count(s)).collect();
    // two shows and two movies; one show and two movies; two shows and the two movies kept
    assert_eq!(counts, vec![0, 0, 0, 4, 3, 4]);
    let sizes: Vec<usize> = seen.iter().map(|s| s.get_collections().len()).collect();
    assert_eq!(sizes, vec![0, 1, 2, 2, 2, 2]);
    for snapshot in &seen {
        assert!(in_order(snapshot));
    }
    // the first collection holds shows, whatever the listing was meant for
    let last = &seen[5];
    assert!(matches!(last.get_collections()[0].items[0], Item::Show(_)));
    assert!(matches!(last.get_collections()[1].items[0], Item::Movie(_)));
}
