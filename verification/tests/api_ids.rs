use jellofin::collection::collection::{Collection, CollectionType};
use jellofin::collection::item::{Item, Movie};
use jellofin::collection::metadata::Metadata;
use jellofin::idhash::id_hash;
use jellofin::jellyfin::jfitem::{
    is_jf_collection_favorites_id, is_jf_collection_id, is_jf_collection_playlist_id,
    is_jf_episode_id, is_jf_genre_id, is_jf_person_id, is_jf_playlist_id, is_jf_root_id,
    is_jf_season_id, is_jf_show_id, is_jf_studio_id, item_is_4k, item_is_hd,
    make_jf_collection_favorites_id, make_jf_collection_id, make_jf_collection_playlist_id,
    make_jf_episode_id, make_jf_genre_id, make_jf_person_id, make_jf_playlist_id,
    make_jf_root_id, make_jf_season_id, make_jf_studio_id, trim_prefix, PLAYLIST_COLLECTION_ID,
};
use jellofin::jellyfin::types::{item_filters, item_filters2, items_counts};

#[test]
fn identifiers_carry_their_prefix() {
    assert_eq!(make_jf_root_id("abc"), "root_abc");
    assert_eq!(make_jf_collection_id("abc"), "collection_abc");
    assert_eq!(make_jf_collection_favorites_id("abc"), "collectionfavorites_abc");
    assert_eq!(make_jf_collection_playlist_id("abc"), "collectionplaylist_abc");
    assert_eq!(make_jf_playlist_id("abc"), "playlist_abc");
    assert_eq!(make_jf_season_id("abc"), "season_abc");
    assert_eq!(make_jf_episode_id("abc"), "episode_abc");
    assert_eq!(make_jf_genre_id("Drama"), format!("genre_{}", id_hash("Drama")));
    assert_eq!(make_jf_studio_id("MGM"), format!("studio_{}", id_hash("MGM")));
    assert_eq!(make_jf_person_id("Ann"), format!("person_{}", id_hash("Ann")));
}

#[test]
fn identifiers_are_told_apart_by_their_prefix() {
    assert!(is_jf_root_id(&make_jf_root_id("x")));
    assert!(is_jf_collection_id(&make_jf_collection_id("x")));
    assert!(is_jf_collection_favorites_id(&make_jf_collection_favorites_id("x")));
    assert!(is_jf_playlist_id(&make_jf_playlist_id("x")));
    assert!(is_jf_show_id("show_x"));
    assert!(is_jf_season_id(&make_jf_season_id("x")));
    assert!(is_jf_episode_id(&make_jf_episode_id("x")));
    assert!(is_jf_genre_id(&make_jf_genre_id("x")));
    assert!(is_jf_studio_id(&make_jf_studio_id("x")));
    assert!(is_jf_person_id(&make_jf_person_id("x")));
    assert!(!is_jf_root_id("roo"));
    assert!(!is_jf_root_id(""));
    assert!(!is_jf_collection_id("collectionfavorites_x"));
    assert!(!is_jf_season_id("episode_x"));
    assert!(!is_jf_show_id("Show_x"));
    assert!(is_jf_collection_playlist_id(&make_jf_collection_playlist_id(PLAYLIST_COLLECTION_ID)));
    assert!(!is_jf_collection_playlist_id(&make_jf_collection_playlist_id("x")));
    assert!(!is_jf_collection_playlist_id("collectionplaylist_"));
}

#[test]
fn trim_prefix_drops_up_to_the_first_separator() {
    assert_eq!(trim_prefix("season_abc"), "abc");
    assert_eq!(trim_prefix("abc"), "abc");
    assert_eq!(trim_prefix("a_b_c"), "b_c");
    assert_eq!(trim_prefix("_"), "");
    assert_eq!(trim_prefix(""), "");
    assert_eq!(trim_prefix(&make_jf_episode_id("é_x")), "é_x");
}

#[test]
fn picture_heights() {
    assert!(item_is_hd(720));
    assert!(!item_is_hd(719));
    assert!(item_is_4k(1500));
    assert!(!item_is_4k(1499));
    assert!(!item_is_hd(-1));
}

fn movie(genres: &[&str], year: i32) -> Item {
    let mut metadata = Metadata::default();
    metadata.genres = genres.iter().map(|g| g.to_string()).collect();
    metadata.year = year;
    Item::Movie(Movie {
        id: "m".to_string(),
        name: "M".to_string(),
        sort_name: "m".to_string(),
        path: "m".to_string(),
        base_url: "".to_string(),
        created: 0,
        banner: "".to_string(),
        fanart: "".to_string(),
        folder: "".to_string(),
        poster: "".to_string(),
        file_name: "m.mkv".to_string(),
        file_size: 0,
        metadata,
        srt_subs: Vec::new(),
        vtt_subs: Vec::new(),
    })
}

#[test]
fn answers_are_made_from_the_details() {
    let mut c = Collection::new(
        "c".to_string(),
        "C".to_string(),
        CollectionType::Movies,
        "/c".to_string(),
        "".to_string(),
    );
    c.items.push(movie(&["Drama", "War"], 1942));
    c.items.push(movie(&["War"], 0));
    let d = c.details();
    let counts = items_counts(&d);
    assert_eq!(counts.movie_count, 2);
    assert_eq!(counts.series_count, 0);
    assert_eq!(counts.episode_count, 0);
    assert_eq!(counts.item_count, 2);
    assert_eq!(counts.book_count, 0);
    let f = item_filters(&d);
    assert_eq!(f.genres, vec!["Drama", "War"]);
    assert_eq!(f.years, vec![1942]);
    assert!(f.tags.is_empty());
    assert!(f.official_ratings.is_empty());
    let f2 = item_filters2(&d);
    assert_eq!(f2.genres.len(), 2);
    assert_eq!(f2.genres[1].name, "War");
    assert_eq!(f2.genres[1].id, id_hash("War"));
    assert!(f2.tags.is_empty());
}
