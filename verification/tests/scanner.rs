use jellofin::collection::collection::{Collection, CollectionType};
use jellofin::collection::item::Item;
use jellofin::collection::kodifs::{
    build_movies, build_shows, find_image, find_video_file, is_video_file, parse_season_number,
    scan_movie_directory, scan_season_directory, scan_show_directory, Branch, DirTree, FileEntry,
    Folder,
};
use jellofin::idhash::id_hash;

fn file(name: &str, size: i64) -> FileEntry {
    FileEntry { name: name.to_string(), is_file: true, size }
}

fn dir(name: &str) -> FileEntry {
    FileEntry { name: name.to_string(), is_file: false, size: 0 }
}

fn folder(name: &str, path: &str, entries: Vec<FileEntry>) -> Folder {
    Folder { name: name.to_string(), path: path.to_string(), entries }
}

#[test]
fn test_is_video_file() {
    assert!(is_video_file("movie.mkv"));
    assert!(is_video_file("movie.mp4"));
    assert!(!is_video_file("image.jpg"));
    assert!(!is_video_file("subtitle.srt"));
}

#[test]
fn is_video_file_looks_at_the_last_extension_in_any_case() {
    for ext in ["mkv", "mp4", "avi", "m4v", "mov", "wmv", "flv", "webm"] {
        assert!(is_video_file(&format!("a.{}", ext)));
        assert!(is_video_file(&format!("a.b.{}", ext.to_uppercase())));
    }
    assert!(!is_video_file("mkv"));
    assert!(!is_video_file(".mkv"));
    assert!(is_video_file("..mkv"));
    assert!(!is_video_file("a.mkv."));
    assert!(!is_video_file("a.mkv.txt"));
    assert!(!is_video_file("a.mkvx"));
    assert!(!is_video_file(""));
    // the Kelvin sign is a capital letter whose lower case is `k`
    assert!(is_video_file("a.m\u{212a}v"));
}

#[test]
fn test_parse_season_number() {
    assert_eq!(parse_season_number("Season 01"), Some(1));
    assert_eq!(parse_season_number("Season 10"), Some(10));
    assert_eq!(parse_season_number("S01"), Some(1));
    assert_eq!(parse_season_number("S10"), Some(10));
    assert_eq!(parse_season_number("Invalid"), None);
}

#[test]
fn parse_season_number_edge_cases() {
    assert_eq!(parse_season_number("season0"), Some(0));
    assert_eq!(parse_season_number("SEASON   7  "), Some(7));
    assert_eq!(parse_season_number("Season"), None);
    assert_eq!(parse_season_number("S"), None);
    assert_eq!(parse_season_number("Specials"), None);
    assert_eq!(parse_season_number("seasonseason 3"), Some(3));
    assert_eq!(parse_season_number("sss4"), Some(4));
    assert_eq!(parse_season_number("Season -2"), Some(-2));
    assert_eq!(parse_season_number("Season +2"), Some(2));
    assert_eq!(parse_season_number("Season -"), None);
    assert_eq!(parse_season_number("Season 1a"), None);
    assert_eq!(parse_season_number("Season 2147483647"), Some(2147483647));
    assert_eq!(parse_season_number("Season 2147483648"), None);
    assert_eq!(parse_season_number("Season -2147483648"), Some(-2147483648));
    assert_eq!(parse_season_number("Season -2147483649"), None);
    assert_eq!(parse_season_number(" Season 1"), None);
    assert_eq!(parse_season_number("Season 1 2"), None);
}

#[test]
fn find_image_takes_the_first_extension_that_exists() {
    let entries = vec![file("poster.webp", 1), file("poster.png", 1), dir("banner.jpeg")];
    assert_eq!(find_image(&entries, "poster"), "poster.png");
    assert_eq!(find_image(&entries, "banner"), "banner.jpeg");
    assert_eq!(find_image(&entries, "fanart"), "");
    let all = vec![file("x.webp", 1), file("x.png", 1), file("x.jpeg", 1), file("x.jpg", 1)];
    assert_eq!(find_image(&all, "x"), "x.jpg");
    assert_eq!(find_image(&Vec::new(), "x"), "");
}

#[test]
fn find_video_file_takes_the_first_video_that_is_a_file() {
    let entries = vec![dir("clip.mkv"), file("notes.txt", 3), file("b.avi", 5), file("a.mkv", 7)];
    assert_eq!(find_video_file(&entries), Some(2));
    assert_eq!(find_video_file(&vec![file("notes.txt", 3)]), None);
    assert_eq!(find_video_file(&Vec::new()), None);
}

#[test]
fn scan_movie_directory_builds_a_movie() {
    let f = folder(
        "The Matrix (1999)",
        "scifi/The Matrix (1999)",
        vec![file("poster.jpg", 10), file("fanart.png", 10), file("matrix.mkv", 1234)],
    );
    let m = scan_movie_directory(&f, 42).unwrap();
    assert_eq!(m.id, id_hash("The Matrix (1999)"));
    assert_eq!(m.name, "The Matrix (1999)");
    assert_eq!(m.sort_name, "matrix");
    assert_eq!(m.path, "scifi/The Matrix (1999)");
    assert_eq!(m.file_name, "matrix.mkv");
    assert_eq!(m.file_size, 1234);
    assert_eq!(m.created, 42);
    assert_eq!(m.poster, "poster.jpg");
    assert_eq!(m.fanart, "fanart.png");
    assert_eq!(m.banner, "");
    assert_eq!(m.folder, "");
    assert_eq!(m.file_path(), "scifi/The Matrix (1999)/matrix.mkv");
}

#[test]
fn scan_movie_directory_without_video_gives_nothing() {
    let f = folder("Empty", "Empty", vec![file("poster.jpg", 10), dir("movie.mkv")]);
    assert!(scan_movie_directory(&f, 42).is_none());
}

fn season_one() -> Folder {
    folder(
        "Season 01",
        "Show/Season 01",
        vec![
            file("show.s01e03.mkv", 30),
            file("show.s01e01.mkv", 10),
            file("show.s02e05.mkv", 50),
            file("notes.txt", 1),
            file("random_file.mkv", 2),
            dir("show.s01e09.mkv"),
            file("show.s01e02e03.mp4", 20),
            file("season01-poster.png", 5),
        ],
    )
}

#[test]
fn scan_season_directory_keeps_and_sorts_the_episodes_of_the_season() {
    let s = scan_season_directory(&season_one(), "Show", 1, 7);
    assert_eq!(s.id, id_hash("Show-1"));
    assert_eq!(s.name, "Season 1");
    assert_eq!(s.path, "Show");
    assert_eq!(s.season_no, 1);
    assert_eq!(s.poster, "season01-poster.png");
    let numbers: Vec<i32> = s.episodes.iter().map(|e| e.episode_no).collect();
    assert_eq!(numbers, vec![1, 2, 3]);
    let e = &s.episodes[1];
    assert_eq!(e.id, id_hash("Show-s1e2"));
    assert_eq!(e.name, "01x02-03");
    assert_eq!(e.sort_name, "01x02-03");
    assert!(e.double);
    assert_eq!(e.season_no, 1);
    assert_eq!(e.base_name, "show.s01e02e03.mp4");
    assert_eq!(e.file_name, "Season 01/show.s01e02e03.mp4");
    assert_eq!(e.file_size, 20);
    assert_eq!(e.created, 7);
    assert_eq!(e.path, "Show");
    for e in &s.episodes {
        assert_eq!(e.season_no, s.season_no);
    }
}

#[test]
fn episodes_of_equal_number_keep_their_order() {
    let f = folder(
        "S02",
        "Show/S02",
        vec![file("b.s02e01.mkv", 1), file("a.s02e01.mkv", 2), file("c.s02e00.mkv", 3)],
    );
    let s = scan_season_directory(&f, "Show", 2, 0);
    let names: Vec<&str> = s.episodes.iter().map(|e| e.base_name.as_str()).collect();
    assert_eq!(names, vec!["c.s02e00.mkv", "b.s02e01.mkv", "a.s02e01.mkv"]);
}

#[test]
fn a_season_without_episodes_is_still_a_season() {
    let f = folder("Season 3", "Show/Season 3", vec![file("notes.txt", 1)]);
    let s = scan_season_directory(&f, "Show", 3, 0);
    assert_eq!(s.season_no, 3);
    assert!(s.episodes.is_empty());
    assert_eq!(s.poster, "");
}

fn show_branch() -> Branch {
    Branch {
        folder: folder(
            "The Show (2001)",
            "The Show (2001)",
            vec![
                dir("Season 02"),
                dir("Extras"),
                dir("S01"),
                dir("season 0"),
                file("banner.jpg", 1),
                file("logo.png", 1),
                file("season-all-poster.webp", 1),
            ],
        ),
        subfolders: vec![
            folder("Season 02", "The Show (2001)/Season 02", vec![file("x.s02e01.mkv", 1)]),
            folder("Extras", "The Show (2001)/Extras", vec![file("x.s01e01.mkv", 1)]),
            folder(
                "S01",
                "The Show (2001)/S01",
                vec![file("x.s01e02.mkv", 1), file("x.s01e01.mkv", 1)],
            ),
            folder("season 0", "The Show (2001)/season 0", vec![]),
        ],
    }
}

#[test]
fn scan_show_directory_builds_sorted_seasons() {
    let show = scan_show_directory(&show_branch(), 9);
    assert_eq!(show.id, id_hash("The Show (2001)"));
    assert_eq!(show.name, "The Show (2001)");
    assert_eq!(show.sort_name, "show");
    assert_eq!(show.path, "The Show (2001)");
    assert_eq!(show.banner, "banner.jpg");
    assert_eq!(show.logo, "logo.png");
    assert_eq!(show.season_all_poster, "season-all-poster.webp");
    assert_eq!(show.season_all_banner, "");
    assert_eq!(show.first_video, 9);
    let numbers: Vec<i32> = show.seasons.iter().map(|s| s.season_no).collect();
    assert_eq!(numbers, vec![0, 1, 2]);
    assert_eq!(show.seasons[1].id, id_hash("The Show (2001)-1"));
    assert_eq!(show.seasons[1].episodes.len(), 2);
    assert_eq!(show.seasons[1].episodes[0].id, id_hash("The Show (2001)-s1e1"));
    assert_eq!(show.seasons[1].episodes[0].file_name, "Season 01/x.s01e01.mkv");
    assert_eq!(show.seasons[0].episodes.len(), 0);
}

fn ids_of(items: &[Item]) -> Vec<String> {
    let mut out = Vec::new();
    for item in items {
        out.push(item.id());
        if let Item::Show(show) = item {
            for season in &show.seasons {
                out.push(season.id.clone());
                for episode in &season.episodes {
                    out.push(episode.id.clone());
                }
            }
        }
    }
    out
}

#[test]
fn scanning_twice_gives_the_same_ids_in_the_same_order() {
    let tree = DirTree { branches: vec![show_branch()] };
    let mut first = Collection::new(
        "c".to_string(),
        "C".to_string(),
        CollectionType::Shows,
        "/shows".to_string(),
        "".to_string(),
    );
    let mut second = first.clone();
    build_shows(&mut first, &tree, 100);
    build_shows(&mut second, &tree, 200);
    assert_eq!(ids_of(&first.items), ids_of(&second.items));
    assert_eq!(ids_of(&first.items).len(), 7);
    // a second scan of the same collection replaces the items
    build_shows(&mut first, &tree, 300);
    assert_eq!(ids_of(&first.items), ids_of(&second.items));
}

#[test]
fn same_numbers_in_different_shows_get_different_ids() {
    let a = scan_season_directory(&season_one(), "Show A", 1, 0);
    let b = scan_season_directory(&season_one(), "Show B", 1, 0);
    assert_ne!(a.id, b.id);
    assert_ne!(a.episodes[0].id, b.episodes[0].id);
}

#[test]
fn build_movies_walks_two_levels_and_skips_empty_directories() {
    let tree = DirTree {
        branches: vec![
            Branch {
                folder: folder("A", "A", vec![file("a.mkv", 1)]),
                subfolders: vec![
                    folder("extras", "A/extras", vec![file("notes.txt", 1)]),
                    folder("B", "A/B", vec![file("b.mp4", 2)]),
                ],
            },
            Branch {
                folder: folder("genre", "genre", vec![dir("C")]),
                subfolders: vec![folder("C", "genre/C", vec![file("c.avi", 3)])],
            },
        ],
    };
    let mut c = Collection::new(
        "m".to_string(),
        "M".to_string(),
        CollectionType::Movies,
        "/movies".to_string(),
        "".to_string(),
    );
    build_movies(&mut c, &tree, 5);
    let names: Vec<String> = c.items.iter().map(|i| i.name()).collect();
    assert_eq!(names, vec!["A", "B", "C"]);
    assert_eq!(c.id, "m");
    assert_eq!(c.directory, "/movies");
    match &c.items[2] {
        Item::Movie(m) => {
            assert_eq!(m.path, "genre/C");
            assert_eq!(m.file_size, 3);
        }
        _ => panic!("not a movie"),
    }
    build_movies(&mut c, &DirTree { branches: Vec::new() }, 6);
    assert!(c.items.is_empty());
}
