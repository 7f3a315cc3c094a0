use jellofin::collection::collection::{Collection, CollectionType};
use jellofin::collection::item::{Item, Movie};
use jellofin::collection::metadata::Metadata;
use jellofin::collection::sortname::{make_sort_name, remove_year_suffix};

#[test]
fn test_collection_type_from_str() {
    assert_eq!(CollectionType::from_str("movies"), Some(CollectionType::Movies));
    assert_eq!(CollectionType::from_str("shows"), Some(CollectionType::Shows));
    assert_eq!(CollectionType::from_str("invalid"), None);
}

#[test]
fn test_collection_type_as_str() {
    assert_eq!(CollectionType::Movies.as_str(), "movies");
    assert_eq!(CollectionType::Shows.as_str(), "shows");
}

#[test]
fn test_collection_new() {
    let collection = Collection::new(
        "test-id".to_string(),
        "Test Collection".to_string(),
        CollectionType::Movies,
        "/media/movies".to_string(),
        "".to_string(),
    );

    assert_eq!(collection.id, "test-id");
    assert_eq!(collection.name, "Test Collection");
    assert_eq!(collection.collection_type, CollectionType::Movies);
    assert_eq!(collection.items.len(), 0);
}

fn plain_movie(id: &str, name: &str) -> Movie {
    Movie {
        id: id.to_string(),
        name: name.to_string(),
        sort_name: name.to_lowercase(),
        path: "movie1".to_string(),
        base_url: "".to_string(),
        created: 1_700_000_000,
        banner: "".to_string(),
        fanart: "".to_string(),
        folder: "".to_string(),
        poster: "".to_string(),
        file_name: "movie1.mkv".to_string(),
        file_size: 0,
        metadata: Metadata::default(),
        srt_subs: Vec::new(),
        vtt_subs: Vec::new(),
    }
}

#[test]
fn test_genre_count() {
    let mut collection = Collection::new(
        "test".to_string(),
        "Test".to_string(),
        CollectionType::Movies,
        "/test".to_string(),
        "".to_string(),
    );

    let movie = plain_movie("m1", "Movie 1");

    collection.items.push(Item::Movie(movie));

    let genre_count = collection.genre_count();
    assert!(genre_count.is_empty()); // Default metadata has no genres
}

#[test]
fn genre_count_counts_each_genre_once_per_occurrence() {
    let mut collection = Collection::new(
        "test".to_string(),
        "Test".to_string(),
        CollectionType::Movies,
        "/test".to_string(),
        "".to_string(),
    );
    let mut a = plain_movie("m1", "Movie 1");
    a.metadata.genres = vec!["Drama".to_string(), "".to_string(), "War".to_string()];
    let mut b = plain_movie("m2", "Movie 2");
    b.metadata.genres = vec!["War".to_string(), "Drama".to_string(), "War".to_string()];
    collection.items.push(Item::Movie(a));
    collection.items.push(Item::Movie(b));
    assert_eq!(
        collection.genre_count(),
        vec![("Drama".to_string(), 2usize), ("War".to_string(), 3usize)]
    );
}

#[test]
fn details_list_each_value_once() {
    let mut collection = Collection::new(
        "test".to_string(),
        "Test".to_string(),
        CollectionType::Movies,
        "/test".to_string(),
        "".to_string(),
    );
    let mut a = plain_movie("m1", "Movie 1");
    a.metadata.genres = vec!["Drama".to_string(), "".to_string(), "War".to_string()];
    a.metadata.studios = vec!["Warner".to_string()];
    a.metadata.year = 1942;
    a.metadata.official_rating = "PG".to_string();
    let mut b = plain_movie("m2", "Movie 2");
    b.metadata.genres = vec!["War".to_string(), "Comedy".to_string()];
    b.metadata.studios = vec!["Warner".to_string(), "MGM".to_string()];
    b.metadata.year = 1942;
    let c = plain_movie("m3", "Movie 3");
    collection.items.push(Item::Movie(a));
    collection.items.push(Item::Movie(b));
    collection.items.push(Item::Movie(c));
    let d = collection.details();
    assert_eq!(d.movie_count, 3);
    assert_eq!(d.show_count, 0);
    assert_eq!(d.episode_count, 0);
    assert_eq!(d.genres, vec!["Drama", "War", "Comedy"]);
    assert_eq!(d.studios, vec!["Warner", "MGM"]);
    assert_eq!(d.official_ratings, vec!["PG"]);
    assert_eq!(d.years, vec![1942]);
    assert!(d.tags.is_empty());
}

#[test]
fn test_make_sort_name() {
    assert_eq!(make_sort_name("The Matrix (1999)"), "matrix");
    assert_eq!(make_sort_name("A Beautiful Mind"), "beautiful mind");
    assert_eq!(make_sort_name("An American Tail"), "american tail");
    assert_eq!(make_sort_name("Casablanca (1942)"), "casablanca");
}

#[test]
fn test_remove_year_suffix() {
    assert_eq!(remove_year_suffix("Movie (2020)"), "Movie");
    assert_eq!(remove_year_suffix("Movie"), "Movie");
    assert_eq!(remove_year_suffix("Movie (2020) Extra"), "Movie (2020) Extra");
}

#[test]
fn make_sort_name_edge_cases() {
    assert_eq!(make_sort_name(""), "");
    assert_eq!(make_sort_name("   The   Thing  "), "thing");
    assert_eq!(make_sort_name("THE"), "the");
    assert_eq!(make_sort_name("Theatre"), "theatre");
    assert_eq!(make_sort_name("A"), "a");
    assert_eq!(make_sort_name("An  (1999)"), "1999)");
    assert_eq!(make_sort_name("...And Justice for All"), "and justice for all");
    assert_eq!(make_sort_name("The A-Team"), "a-team");
    assert_eq!(make_sort_name("The The (2001)  "), "the");
    assert_eq!(make_sort_name("(1999)"), "1999)");
    assert_eq!(make_sort_name("x (1999)"), "x");
    assert_eq!(make_sort_name("Blade Runner (1982) (2007)"), "blade runner (1982)");
    assert_eq!(make_sort_name("Movie (19999)"), "movie (19999)");
    assert_eq!(make_sort_name("Movie(1999)"), "movie");
    assert_eq!(make_sort_name("ÉCOLE (1999)"), "école");
}

#[test]
fn remove_year_suffix_edge_cases() {
    assert_eq!(remove_year_suffix(""), "");
    assert_eq!(remove_year_suffix("  Movie \t (2020) \n"), "Movie");
    assert_eq!(remove_year_suffix("  Movie  "), "  Movie  ");
    assert_eq!(remove_year_suffix("(2020)"), "");
    assert_eq!(remove_year_suffix("Movie (202)"), "Movie (202)");
    assert_eq!(remove_year_suffix("Movie (2020"), "Movie (2020");
    assert_eq!(remove_year_suffix("Movie 2020)"), "Movie 2020)");
}
