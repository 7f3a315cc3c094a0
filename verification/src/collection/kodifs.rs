//! Building the entities of a collection from a listing of its directory.
//!
//! Reading the file system is left to the caller, who hands over what it
//! found as a `DirTree`: the directories below the collection root, two
//! levels deep, each with the names of its entries.

use vstd::prelude::*;
use crate::text::{
    chars_of, decimal, lowercase, pad2, parse_i32, parse_signed, push_decimal, push_pad2, push_range,
    push_str, same_chars, skip_repeated, starts_with_at, string_of, strip_repeated, views,
};
use crate::idhash::{id_hash, id_hash_spec};
use crate::parsefilename::{parse_episode_name, parse_episode_spec};
use crate::collection::collection::{Collection, CollectionView};
use crate::collection::item::{
    episode_at, items_at, movie_at, season_at, season_in_order, show_at, show_in_order,
    Episode, EpisodeView, Item, ItemView, Movie, MovieView, Season, SeasonView, Show, ShowView,
};
use crate::collection::metadata::{empty_metadata, Metadata};
use crate::collection::ranked::{
    episode_rank, lemma_sorted_by, lemma_sorted_by_contains, lemma_sorted_by_map,
    season_rank, sort_episodes, sort_episodes_by_number, sort_seasons, sort_seasons_by_number,
};
use crate::collection::sortname::{make_sort_name, sort_name_spec, trim, trim_bounds};

verus! {

/// One entry of a directory.
#[derive(Debug, Clone)]
pub struct FileEntry {
    /// The name of the entry, without any directory.
    pub name: String,
    /// Whether the entry is a regular file.
    pub is_file: bool,
    /// The size of the file in bytes.
    pub size: i64,
}

/// A directory and what it holds.
#[derive(Debug, Clone)]
pub struct Folder {
    /// The name of the directory itself.
    pub name: String,
    /// The directory, relative to the collection root.
    pub path: String,
    /// The entries of the directory, in the order in which they were read.
    pub entries: Vec<FileEntry>,
}

/// A directory directly below the collection root, with the directories
/// directly below it.
#[derive(Debug, Clone)]
pub struct Branch {
    pub folder: Folder,
    pub subfolders: Vec<Folder>,
}

/// What lies below a collection root, two levels deep.
#[derive(Debug, Clone)]
pub struct DirTree {
    pub branches: Vec<Branch>,
}

/// The index of the last dot in `s`, or -1 where it has none.
pub open spec fn last_dot(s: Seq<char>) -> int
    decreases s.len(),
{
    if s.len() == 0 {
        -1
    } else if s.last() == '.' {
        s.len() - 1
    } else {
        last_dot(s.drop_last())
    }
}

/// The extension of a file name: what follows its last dot. A name without a
/// dot, or with its only dot in front, has none.
pub open spec fn extension(name: Seq<char>) -> Option<Seq<char>> {
    if last_dot(name) <= 0 {
        None
    } else {
        Some(name.subrange(last_dot(name) + 1, name.len() as int))
    }
}

/// Whether a lower-case extension is one of a video file.
pub open spec fn is_video_extension(lowered: Seq<char>) -> bool {
    lowered == "mkv"@ || lowered == "mp4"@ || lowered == "avi"@ || lowered == "m4v"@ || lowered
        == "mov"@ || lowered == "wmv"@ || lowered == "flv"@ || lowered == "webm"@
}

/// Whether a file name is that of a video file.
pub open spec fn is_video_name(name: Seq<char>) -> bool {
    extension(name) is Some && is_video_extension(lowercase(extension(name)->0))
}

/// The index of the first entry that is a video file, or -1.
pub open spec fn first_video(entries: Seq<FileEntry>, from: int) -> int
    decreases entries.len() - from,
{
    if from < 0 || from >= entries.len() {
        -1
    } else if entries[from].is_file && is_video_name(entries[from].name@) {
        from
    } else {
        first_video(entries, from + 1)
    }
}

/// Whether the directory has an entry of this name.
pub open spec fn has_entry(entries: Seq<FileEntry>, name: Seq<char>) -> bool {
    exists|i: int| 0 <= i < entries.len() && (#[trigger] entries[i]).name@ == name
}

/// The name of an image file with the stem `stem` and the extension `ext`.
pub open spec fn image_name(stem: Seq<char>, ext: Seq<char>) -> Seq<char> {
    stem + seq!['.'] + ext
}

/// The image file of a directory for the stem `stem`: the first of
/// `stem.jpg`, `stem.jpeg`, `stem.png` and `stem.webp` that the directory
/// holds, or the empty text.
pub open spec fn image_of(entries: Seq<FileEntry>, stem: Seq<char>) -> Seq<char> {
    if has_entry(entries, image_name(stem, "jpg"@)) {
        image_name(stem, "jpg"@)
    } else if has_entry(entries, image_name(stem, "jpeg"@)) {
        image_name(stem, "jpeg"@)
    } else if has_entry(entries, image_name(stem, "png"@)) {
        image_name(stem, "png"@)
    } else if has_entry(entries, image_name(stem, "webp"@)) {
        image_name(stem, "webp"@)
    } else {
        Seq::empty()
    }
}

/// The season number in the lower-case name of a directory: the name starts
/// with `season` or with `s`, and what follows, trimmed, is a number.
pub open spec fn season_number_of_lowered(lowered: Seq<char>) -> Option<int> {
    if "season"@.is_prefix_of(lowered) {
        parse_signed(trim(strip_repeated(lowered, "season"@)))
    } else if "s"@.is_prefix_of(lowered) {
        parse_signed(trim(strip_repeated(lowered, "s"@)))
    } else {
        None
    }
}

/// The season number in the name of a directory, such as `Season 01` or
/// `S01`, whatever the case of its letters.
pub open spec fn season_number_spec(name: Seq<char>) -> Option<int> {
    season_number_of_lowered(lowercase(name))
}

/// Whether a lower-case extension is one of a video file: `mkv`, `mp4`,
/// `avi`, `m4v`, `mov`, `wmv`, `flv` or `webm`.
pub fn is_video_extension_lowered(lowered: &str) -> (b: bool)
    ensures
        b == is_video_extension(lowered@),
{
    let e = chars_of(lowered);
    same_chars(&e, &chars_of("mkv")) || same_chars(&e, &chars_of("mp4")) || same_chars(
        &e,
        &chars_of("avi"),
    ) || same_chars(&e, &chars_of("m4v")) || same_chars(&e, &chars_of("mov")) || same_chars(
        &e,
        &chars_of("wmv"),
    ) || same_chars(&e, &chars_of("flv")) || same_chars(&e, &chars_of("webm"))
}

/// The index of the last dot of `s`, if it has one.
fn find_last_dot(s: &Vec<char>) -> (r: Option<usize>)
    ensures
        match r {
            Some(k) => k == last_dot(s@) && k < s@.len(),
            None => last_dot(s@) == -1,
        },
{
    let mut k: usize = s.len();
    assert(s@.take(k as int) == s@);
    while k > 0
        invariant
            k <= s.len(),
            last_dot(s@) == last_dot(s@.take(k as int)),
        decreases k,
    {
        if s[k - 1] == '.' {
            return Some(k - 1);
        }
        assert(s@.take(k as int).drop_last() == s@.take(k - 1));
        k = k - 1;
    }
    None
}

/// Whether a file name is that of a video file: its extension, in lower
/// case, is one of `mkv`, `mp4`, `avi`, `m4v`, `mov`, `wmv`, `flv`, `webm`.
pub fn is_video_file(name: &str) -> (b: bool)
    ensures
        b == is_video_name(name@),
{
    let s = chars_of(name);
    match find_last_dot(&s) {
        Some(k) => {
            if k == 0 {
                return false;
            }
            let n = s.len();
            let mut ext: Vec<char> = Vec::new();
            push_range(&mut ext, &s, k + 1, n);
            let ext = string_of(&ext);
            let lowered = ext.as_str().to_lowercase();
            is_video_extension_lowered(lowered.as_str())
        },
        None => false,
    }
}

/// The first entry of a directory that is a video file.
pub fn find_video_file(entries: &Vec<FileEntry>) -> (r: Option<usize>)
    ensures
        match r {
            Some(k) => k == first_video(entries@, 0) && k < entries@.len(),
            None => first_video(entries@, 0) == -1,
        },
{
    let mut k: usize = 0;
    while k < entries.len()
        invariant
            k <= entries.len(),
            first_video(entries@, 0) == first_video(entries@, k as int),
        decreases entries.len() - k,
    {
        if entries[k].is_file && is_video_file(entries[k].name.as_str()) {
            return Some(k);
        }
        k = k + 1;
    }
    None
}

/// Whether the directory has an entry with the name held in `name`.
fn entry_exists(entries: &Vec<FileEntry>, name: &Vec<char>) -> (b: bool)
    ensures
        b == has_entry(entries@, name@),
{
    let mut k: usize = 0;
    while k < entries.len()
        invariant
            k <= entries.len(),
            forall|j: int| 0 <= j < k ==> (#[trigger] entries@[j]).name@ != name@,
        decreases entries.len() - k,
    {
        let n = chars_of(entries[k].name.as_str());
        if same_chars(&n, name) {
            return true;
        }
        k = k + 1;
    }
    false
}

/// The image with the stem `stem` and the extension `ext`, where the
/// directory holds it.
fn probe_image(entries: &Vec<FileEntry>, stem: &str, ext: &str) -> (r: Option<String>)
    ensures
        match r {
            Some(n) => n@ == image_name(stem@, ext@) && has_entry(entries@, n@),
            None => !has_entry(entries@, image_name(stem@, ext@)),
        },
{
    let mut name: Vec<char> = Vec::new();
    push_str(&mut name, stem);
    name.push('.');
    push_str(&mut name, ext);
    assert(name@ == image_name(stem@, ext@));
    if entry_exists(entries, &name) {
        Some(string_of(&name))
    } else {
        None
    }
}

/// The image file of a directory for a stem such as `poster`: the first of
/// `stem.jpg`, `stem.jpeg`, `stem.png` and `stem.webp` that the directory
/// holds, or the empty text where it holds none.
pub fn find_image(entries: &Vec<FileEntry>, stem: &str) -> (r: String)
    ensures
        r@ == image_of(entries@, stem@),
{
    if let Some(n) = probe_image(entries, stem, "jpg") {
        return n;
    }
    if let Some(n) = probe_image(entries, stem, "jpeg") {
        return n;
    }
    if let Some(n) = probe_image(entries, stem, "png") {
        return n;
    }
    if let Some(n) = probe_image(entries, stem, "webp") {
        return n;
    }
    String::new()
}

/// The season number in the lower-case name of a directory.
pub fn season_number_from_lowered(lowered: &str) -> (r: Option<i32>)
    ensures
        match r {
            Some(n) => season_number_of_lowered(lowered@) == Some(n as int),
            None => season_number_of_lowered(lowered@) is None,
        },
{
    let s = chars_of(lowered);
    assert(s@.subrange(0, s@.len() as int) == s@);
    let long = chars_of("season");
    let short = chars_of("s");
    if starts_with_at(&s, 0, &long) {
        let k = skip_repeated(&s, &long);
        let b = trim_bounds(&s, k, s.len());
        parse_i32(&s, b.0, b.1)
    } else if starts_with_at(&s, 0, &short) {
        let k = skip_repeated(&s, &short);
        let b = trim_bounds(&s, k, s.len());
        parse_i32(&s, b.0, b.1)
    } else {
        None
    }
}

/// The season number in the name of a directory, such as `Season 01` or
/// `S01`, whatever the case of its letters; `None` where the name is of
/// another form.
pub fn parse_season_number(name: &str) -> (r: Option<i32>)
    ensures
        match r {
            Some(n) => season_number_spec(name@) == Some(n as int),
            None => season_number_spec(name@) is None,
        },
{
    let lowered = name.to_lowercase();
    season_number_from_lowered(lowered.as_str())
}

/// The display name of a season.
pub open spec fn season_name(n: int) -> Seq<char> {
    "Season "@ + decimal(n)
}

/// The text whose hash identifies a season: the path of the show and the
/// season number.
pub open spec fn season_key(show_path: Seq<char>, n: int) -> Seq<char> {
    show_path + seq!['-'] + decimal(n)
}

/// The text whose hash identifies an episode: the path of the show, the
/// season number and the episode number.
pub open spec fn episode_key(show_path: Seq<char>, season: int, episode: int) -> Seq<char> {
    show_path + "-s"@ + decimal(season) + seq!['e'] + decimal(episode)
}

/// The video file of an episode, relative to the show directory.
pub open spec fn episode_file_name(season_no: int, file_name: Seq<char>) -> Seq<char> {
    "Season "@ + pad2(season_no) + seq!['/'] + file_name
}

/// The stem of the poster of a season.
pub open spec fn season_poster_stem(n: int) -> Seq<char> {
    "season"@ + pad2(n) + "-poster"@
}

/// The episode that an entry of a season directory gives: the entry is a
/// video file whose name says an episode of this very season.
pub open spec fn episode_of(file: FileEntry, show_path: Seq<char>, season_no: int, now: int) -> Option<
    EpisodeView,
> {
    let parsed = parse_episode_spec(file.name@, season_no);
    let (season, episode, double, name) = parsed->0;
    if file.is_file && is_video_name(file.name@) && parsed is Some && season == season_no {
        Some(
            EpisodeView {
                id: id_hash_spec(episode_key(show_path, season, episode)),
                name: name,
                path: show_path,
                sort_name: name,
                season_no: season,
                episode_no: episode,
                double: double,
                base_name: file.name@,
                created: now,
                file_name: episode_file_name(season_no, file.name@),
                file_size: file.size as int,
                thumb: Seq::empty(),
                metadata: empty_metadata(),
                srt_subs: Seq::empty(),
                vtt_subs: Seq::empty(),
            },
        )
    } else {
        None
    }
}

/// The episodes that the entries of a season directory give, in the order
/// of the entries.
pub open spec fn raw_episodes(
    entries: Seq<FileEntry>,
    show_path: Seq<char>,
    season_no: int,
    now: int,
) -> Seq<EpisodeView>
    decreases entries.len(),
{
    if entries.len() == 0 {
        Seq::empty()
    } else {
        let rest = raw_episodes(entries.drop_last(), show_path, season_no, now);
        match episode_of(entries.last(), show_path, season_no, now) {
            Some(e) => rest.push(e),
            None => rest,
        }
    }
}

/// The season that a season directory gives: its episodes in ascending
/// order of their number.
pub open spec fn season_of(folder: Folder, show_path: Seq<char>, season_no: int, now: int) -> SeasonView {
    SeasonView {
        id: id_hash_spec(season_key(show_path, season_no)),
        name: season_name(season_no),
        path: show_path,
        season_no: season_no,
        banner: Seq::empty(),
        fanart: Seq::empty(),
        poster: image_of(folder.entries@, season_poster_stem(season_no)),
        season_all_banner: Seq::empty(),
        season_all_poster: Seq::empty(),
        episodes: sort_episodes(raw_episodes(folder.entries@, show_path, season_no, now)),
    }
}

/// The season that a directory below a show gives, where its name is that
/// of a season.
pub open spec fn season_in(folder: Folder, show_path: Seq<char>, now: int) -> Option<SeasonView> {
    match season_number_spec(folder.name@) {
        Some(n) => Some(season_of(folder, show_path, n, now)),
        None => None,
    }
}

/// The seasons that the directories below a show give, in the order of the
/// directories.
pub open spec fn raw_seasons(subfolders: Seq<Folder>, show_path: Seq<char>, now: int) -> Seq<
    SeasonView,
>
    decreases subfolders.len(),
{
    if subfolders.len() == 0 {
        Seq::empty()
    } else {
        let rest = raw_seasons(subfolders.drop_last(), show_path, now);
        match season_in(subfolders.last(), show_path, now) {
            Some(s) => rest.push(s),
            None => rest,
        }
    }
}

/// The show that a directory below the collection root gives: its seasons
/// in ascending order of their number.
pub open spec fn show_of(branch: Branch, now: int) -> ShowView {
    let entries = branch.folder.entries@;
    ShowView {
        id: id_hash_spec(branch.folder.name@),
        name: branch.folder.name@,
        sort_name: sort_name_spec(branch.folder.name@),
        path: branch.folder.path@,
        base_url: Seq::empty(),
        first_video: now,
        last_video: now,
        banner: image_of(entries, "banner"@),
        fanart: image_of(entries, "fanart"@),
        folder: image_of(entries, "folder"@),
        poster: image_of(entries, "poster"@),
        logo: image_of(entries, "logo"@),
        season_all_banner: image_of(entries, "season-all-banner"@),
        season_all_poster: image_of(entries, "season-all-poster"@),
        file_name: Seq::empty(),
        file_size: 0,
        metadata: empty_metadata(),
        srt_subs: Seq::empty(),
        vtt_subs: Seq::empty(),
        seasons: sort_seasons(raw_seasons(branch.subfolders@, branch.folder.path@, now)),
    }
}

/// The shows of a collection: one for each directory below the root, in the
/// order of the directories.
pub open spec fn shows_below(branches: Seq<Branch>, now: int) -> Seq<ItemView> {
    Seq::new(branches.len(), |i: int| ItemView::Show(show_of(branches[i], now)))
}

/// The movie that a directory gives: none where it holds no video file.
pub open spec fn movie_of(folder: Folder, now: int) -> Option<MovieView> {
    let entries = folder.entries@;
    let k = first_video(entries, 0);
    if k < 0 {
        None
    } else {
        Some(
            MovieView {
                id: id_hash_spec(folder.name@),
                name: folder.name@,
                sort_name: sort_name_spec(folder.name@),
                path: folder.path@,
                base_url: Seq::empty(),
                created: now,
                banner: image_of(entries, "banner"@),
                fanart: image_of(entries, "fanart"@),
                folder: image_of(entries, "folder"@),
                poster: image_of(entries, "poster"@),
                file_name: entries[k].name@,
                file_size: entries[k].size as int,
                metadata: empty_metadata(),
                srt_subs: Seq::empty(),
                vtt_subs: Seq::empty(),
            },
        )
    }
}

/// The movies that a list of directories gives, in the order of the
/// directories.
pub open spec fn movies_in(folders: Seq<Folder>, now: int) -> Seq<ItemView>
    decreases folders.len(),
{
    if folders.len() == 0 {
        Seq::empty()
    } else {
        let rest = movies_in(folders.drop_last(), now);
        match movie_of(folders.last(), now) {
            Some(m) => rest.push(ItemView::Movie(m)),
            None => rest,
        }
    }
}

/// The movie of one directory as a list: one item, or none.
pub open spec fn movie_item(folder: Folder, now: int) -> Seq<ItemView> {
    match movie_of(folder, now) {
        Some(m) => seq![ItemView::Movie(m)],
        None => Seq::empty(),
    }
}

/// The movies of a collection: for each directory below the root, in order,
/// the movie of that directory and then the movies of the directories
/// below it.
pub open spec fn movies_below(branches: Seq<Branch>, now: int) -> Seq<ItemView>
    decreases branches.len(),
{
    if branches.len() == 0 {
        Seq::empty()
    } else {
        movies_below(branches.drop_last(), now) + movie_item(branches.last().folder, now)
            + movies_in(branches.last().subfolders@, now)
    }
}

/// The episode that an entry of a season directory gives.
fn scan_episode(file: &FileEntry, show_path: &str, season_no: i32, now: i64) -> (r: Option<Episode>)
    ensures
        match r {
            Some(e) => episode_of(*file, show_path@, season_no as int, now as int) == Some(e@),
            None => episode_of(*file, show_path@, season_no as int, now as int) is None,
        },
{
    if !file.is_file || !is_video_file(file.name.as_str()) {
        return None;
    }
    match parse_episode_name(file.name.as_str(), season_no) {
        Some((parsed_season, episode_no, double, name)) => {
            if parsed_season != season_no {
                return None;
            }
            let mut key: Vec<char> = Vec::new();
            push_str(&mut key, show_path);
            push_str(&mut key, "-s");
            push_decimal(&mut key, parsed_season as i64);
            key.push('e');
            push_decimal(&mut key, episode_no as i64);
            assert(key@ == episode_key(show_path@, parsed_season as int, episode_no as int));
            let key = string_of(&key);
            let mut file_name: Vec<char> = Vec::new();
            push_str(&mut file_name, "Season ");
            push_pad2(&mut file_name, season_no);
            file_name.push('/');
            push_str(&mut file_name, file.name.as_str());
            assert(file_name@ == episode_file_name(season_no as int, file.name@));
            let e = Episode {
                id: id_hash(key.as_str()),
                name: name.clone(),
                path: string_of(&chars_of(show_path)),
                sort_name: name,
                season_no: parsed_season,
                episode_no,
                double,
                base_name: file.name.clone(),
                created: now,
                file_name: string_of(&file_name),
                file_size: file.size,
                thumb: String::new(),
                metadata: Metadata::default(),
                srt_subs: Vec::new(),
                vtt_subs: Vec::new(),
            };
            assert(e@.srt_subs =~= Seq::empty());
            assert(e@.vtt_subs =~= Seq::empty());
            Some(e)
        },
        None => None,
    }
}

/// Builds a season from its directory: every video file whose name says an
/// episode of season `season_no` becomes an episode, and the episodes stand
/// in ascending order of their number.
pub fn scan_season_directory(folder: &Folder, show_path: &str, season_no: i32, now: i64) -> (season:
    Season)
    ensures
        season@ == season_of(*folder, show_path@, season_no as int, now as int),
{
    let mut episodes: Vec<Episode> = Vec::new();
    let mut k: usize = 0;
    assert(views(episodes@) =~= Seq::empty());
    while k < folder.entries.len()
        invariant
            k <= folder.entries.len(),
            views(episodes@) == raw_episodes(
                folder.entries@.take(k as int),
                show_path@,
                season_no as int,
                now as int,
            ),
        decreases folder.entries.len() - k,
    {
        let ghost before = episodes@;
        proof {
            assert(folder.entries@.take(k + 1).drop_last() == folder.entries@.take(k as int));
            assert(folder.entries@.take(k + 1).last() == folder.entries@[k as int]);
        }
        if let Some(e) = scan_episode(&folder.entries[k], show_path, season_no, now) {
            episodes.push(e);
            assert(views(episodes@) =~= views(before).push(e@));
        }
        k = k + 1;
    }
    assert(folder.entries@.take(k as int) == folder.entries@);
    sort_episodes_by_number(&mut episodes);
    let mut name: Vec<char> = Vec::new();
    push_str(&mut name, "Season ");
    push_decimal(&mut name, season_no as i64);
    assert(name@ == season_name(season_no as int));
    let mut key: Vec<char> = Vec::new();
    push_str(&mut key, show_path);
    key.push('-');
    push_decimal(&mut key, season_no as i64);
    assert(key@ == season_key(show_path@, season_no as int));
    let key = string_of(&key);
    let mut stem: Vec<char> = Vec::new();
    push_str(&mut stem, "season");
    push_pad2(&mut stem, season_no);
    push_str(&mut stem, "-poster");
    assert(stem@ == season_poster_stem(season_no as int));
    let stem = string_of(&stem);
    Season {
        id: id_hash(key.as_str()),
        name: string_of(&name),
        path: string_of(&chars_of(show_path)),
        season_no,
        banner: String::new(),
        fanart: String::new(),
        poster: find_image(&folder.entries, stem.as_str()),
        season_all_banner: String::new(),
        season_all_poster: String::new(),
        episodes,
    }
}

/// Builds a show from its directory: every directory below it whose name is
/// that of a season becomes a season, and the seasons stand in ascending
/// order of their number.
pub fn scan_show_directory(branch: &Branch, now: i64) -> (show: Show)
    ensures
        show@ == show_of(*branch, now as int),
{
    let show_path = branch.folder.path.as_str();
    let mut seasons: Vec<Season> = Vec::new();
    let mut k: usize = 0;
    assert(views(seasons@) =~= Seq::empty());
    while k < branch.subfolders.len()
        invariant
            k <= branch.subfolders.len(),
            show_path@ == branch.folder.path@,
            views(seasons@) == raw_seasons(branch.subfolders@.take(k as int), show_path@, now as int),
        decreases branch.subfolders.len() - k,
    {
        let ghost before = seasons@;
        proof {
            assert(branch.subfolders@.take(k + 1).drop_last() == branch.subfolders@.take(k as int));
            assert(branch.subfolders@.take(k + 1).last() == branch.subfolders@[k as int]);
        }
        let sub = &branch.subfolders[k];
        if let Some(n) = parse_season_number(sub.name.as_str()) {
            let season = scan_season_directory(sub, show_path, n, now);
            seasons.push(season);
            assert(views(seasons@) =~= views(before).push(season@));
        }
        k = k + 1;
    }
    assert(branch.subfolders@.take(k as int) == branch.subfolders@);
    sort_seasons_by_number(&mut seasons);
    let entries = &branch.folder.entries;
    let name = branch.folder.name.as_str();
    let show = Show {
        id: id_hash(name),
        name: branch.folder.name.clone(),
        sort_name: make_sort_name(name),
        path: branch.folder.path.clone(),
        base_url: String::new(),
        first_video: now,
        last_video: now,
        banner: find_image(entries, "banner"),
        fanart: find_image(entries, "fanart"),
        folder: find_image(entries, "folder"),
        poster: find_image(entries, "poster"),
        logo: find_image(entries, "logo"),
        season_all_banner: find_image(entries, "season-all-banner"),
        season_all_poster: find_image(entries, "season-all-poster"),
        file_name: String::new(),
        file_size: 0,
        metadata: Metadata::default(),
        srt_subs: Vec::new(),
        vtt_subs: Vec::new(),
        seasons,
    };
    assert(show@.srt_subs =~= Seq::empty());
    assert(show@.vtt_subs =~= Seq::empty());
    show
}

/// Builds a movie from its directory: `None` where the directory holds no
/// video file.
pub fn scan_movie_directory(folder: &Folder, now: i64) -> (r: Option<Movie>)
    ensures
        match r {
            Some(m) => movie_of(*folder, now as int) == Some(m@),
            None => movie_of(*folder, now as int) is None,
        },
{
    let entries = &folder.entries;
    match find_video_file(entries) {
        Some(k) => {
            let name = folder.name.as_str();
            let m = Movie {
                id: id_hash(name),
                name: folder.name.clone(),
                sort_name: make_sort_name(name),
                path: folder.path.clone(),
                base_url: String::new(),
                created: now,
                banner: find_image(entries, "banner"),
                fanart: find_image(entries, "fanart"),
                folder: find_image(entries, "folder"),
                poster: find_image(entries, "poster"),
                file_name: entries[k].name.clone(),
                file_size: entries[k].size,
                metadata: Metadata::default(),
                srt_subs: Vec::new(),
                vtt_subs: Vec::new(),
            };
            assert(m@.srt_subs =~= Seq::empty());
            assert(m@.vtt_subs =~= Seq::empty());
            Some(m)
        },
        None => None,
    }
}

/// Appends the movies that a list of directories gives.
fn push_movies(out: &mut Vec<Item>, folders: &Vec<Folder>, now: i64)
    ensures
        views(final(out)@) == views(old(out)@) + movies_in(folders@, now as int),
{
    let mut k: usize = 0;
    assert(views(out@) =~= views(old(out)@) + movies_in(folders@.take(0), now as int));
    while k < folders.len()
        invariant
            k <= folders.len(),
            views(out@) == views(old(out)@) + movies_in(folders@.take(k as int), now as int),
        decreases folders.len() - k,
    {
        let ghost before = out@;
        proof {
            assert(folders@.take(k + 1).drop_last() == folders@.take(k as int));
            assert(folders@.take(k + 1).last() == folders@[k as int]);
        }
        if let Some(m) = scan_movie_directory(&folders[k], now) {
            let item = Item::Movie(m);
            out.push(item);
            assert(views(out@) =~= views(before).push(item@));
            assert(views(out@) =~= views(old(out)@) + movies_in(
                folders@.take(k + 1),
                now as int,
            ));
        }
        k = k + 1;
    }
    assert(folders@.take(k as int) == folders@);
}

/// Fills a collection of movies from a listing of its directory. Each
/// directory below the root, and each directory below one of those, that
/// holds a video file becomes a movie; the others are passed over. The
/// items that the collection held before are replaced.
pub fn build_movies(collection: &mut Collection, tree: &DirTree, now: i64)
    ensures
        final(collection)@ == (CollectionView {
            items: movies_below(tree.branches@, now as int),
            ..old(collection)@
        }),
{
    let mut movies: Vec<Item> = Vec::new();
    let mut k: usize = 0;
    assert(views(movies@) =~= movies_below(tree.branches@.take(0), now as int));
    while k < tree.branches.len()
        invariant
            k <= tree.branches.len(),
            views(movies@) == movies_below(tree.branches@.take(k as int), now as int),
        decreases tree.branches.len() - k,
    {
        let ghost before = movies@;
        let branch = &tree.branches[k];
        proof {
            assert(tree.branches@.take(k + 1).drop_last() == tree.branches@.take(k as int));
            assert(tree.branches@.take(k + 1).last() == tree.branches@[k as int]);
        }
        if let Some(m) = scan_movie_directory(&branch.folder, now) {
            let item = Item::Movie(m);
            movies.push(item);
            assert(views(movies@) =~= views(before) + movie_item(branch.folder, now as int));
        }
        push_movies(&mut movies, &branch.subfolders, now);
        k = k + 1;
    }
    assert(tree.branches@.take(k as int) == tree.branches@);
    collection.items = movies;
}

/// Fills a collection of shows from a listing of its directory. Each
/// directory below the root becomes a show, in the order of the listing.
/// The items that the collection held before are replaced.
pub fn build_shows(collection: &mut Collection, tree: &DirTree, now: i64)
    ensures
        final(collection)@ == (CollectionView {
            items: shows_below(tree.branches@, now as int),
            ..old(collection)@
        }),
{
    let mut shows: Vec<Item> = Vec::new();
    let mut k: usize = 0;
    while k < tree.branches.len()
        invariant
            k <= tree.branches.len(),
            shows@.len() == k,
            forall|i: int| 0 <= i < k ==> (#[trigger] shows@[i])@ == ItemView::Show(
                show_of(tree.branches@[i], now as int),
            ),
        decreases tree.branches.len() - k,
    {
        let show = scan_show_directory(&tree.branches[k], now);
        shows.push(Item::Show(show));
        k = k + 1;
    }
    assert(views(shows@) =~= shows_below(tree.branches@, now as int));
    collection.items = shows;
}

proof fn lemma_raw_episodes_at(
    entries: Seq<FileEntry>,
    show_path: Seq<char>,
    season_no: int,
    now: int,
    later: int,
)
    ensures
        raw_episodes(entries, show_path, season_no, later) == raw_episodes(
            entries,
            show_path,
            season_no,
            now,
        ).map_values(|e: EpisodeView| episode_at(e, later)),
    decreases entries.len(),
{
    let f = |e: EpisodeView| episode_at(e, later);
    let a = raw_episodes(entries, show_path, season_no, now);
    if entries.len() == 0 {
        assert(raw_episodes(entries, show_path, season_no, later) =~= a.map_values(f));
    } else {
        lemma_raw_episodes_at(entries.drop_last(), show_path, season_no, now, later);
        let rest = raw_episodes(entries.drop_last(), show_path, season_no, now);
        match episode_of(entries.last(), show_path, season_no, now) {
            Some(e) => {
                assert(episode_of(entries.last(), show_path, season_no, later) == Some(
                    episode_at(e, later),
                ));
                assert(rest.map_values(f).push(f(e)) =~= rest.push(e).map_values(f));
            },
            None => {},
        }
    }
}

proof fn lemma_raw_episodes_season(
    entries: Seq<FileEntry>,
    show_path: Seq<char>,
    season_no: int,
    now: int,
)
    ensures
        forall|i: int|
            0 <= i < raw_episodes(entries, show_path, season_no, now).len() ==> (
            #[trigger] raw_episodes(entries, show_path, season_no, now)[i]).season_no == season_no,
    decreases entries.len(),
{
    if entries.len() > 0 {
        lemma_raw_episodes_season(entries.drop_last(), show_path, season_no, now);
    }
}

/// A season built from a directory is in order: its episodes stand in
/// ascending order of their number, and each carries the number of the
/// season.
pub proof fn lemma_season_in_order(folder: Folder, show_path: Seq<char>, season_no: int, now: int)
    ensures
        season_in_order(season_of(folder, show_path, season_no, now)),
        season_of(folder, show_path, season_no, now).season_no == season_no,
{
    let raw = raw_episodes(folder.entries@, show_path, season_no, now);
    let sorted = sort_episodes(raw);
    lemma_sorted_by(raw, episode_rank());
    lemma_raw_episodes_season(folder.entries@, show_path, season_no, now);
    assert forall|i: int| 0 <= i < sorted.len() implies (#[trigger] sorted[i]).season_no
        == season_no by {
        lemma_sorted_by_contains(raw, episode_rank(), i);
        let k = choose|k: int| 0 <= k < raw.len() && raw[k] == sorted[i];
        assert(raw[k].season_no == season_no);
    }
    assert forall|i: int, j: int| 0 <= i < j < sorted.len() implies (
    #[trigger] sorted[i]).episode_no <= (#[trigger] sorted[j]).episode_no by {
        assert(episode_rank()(sorted[i]) <= episode_rank()(sorted[j]));
    }
}

proof fn lemma_raw_seasons_in_order(subfolders: Seq<Folder>, show_path: Seq<char>, now: int)
    ensures
        forall|i: int|
            0 <= i < raw_seasons(subfolders, show_path, now).len() ==> season_in_order(
                #[trigger] raw_seasons(subfolders, show_path, now)[i],
            ),
    decreases subfolders.len(),
{
    if subfolders.len() > 0 {
        lemma_raw_seasons_in_order(subfolders.drop_last(), show_path, now);
        let rest = raw_seasons(subfolders.drop_last(), show_path, now);
        let all = raw_seasons(subfolders, show_path, now);
        match season_number_spec(subfolders.last().name@) {
            Some(n) => {
                lemma_season_in_order(subfolders.last(), show_path, n, now);
                assert(all == rest.push(season_of(subfolders.last(), show_path, n, now)));
                assert forall|i: int| 0 <= i < all.len() implies season_in_order(
                    #[trigger] all[i],
                ) by {
                    if i < rest.len() {
                        assert(all[i] == rest[i]);
                    }
                }
            },
            None => {
                assert(all == rest);
            },
        }
    }
}

/// A show built from a directory is in order: its seasons stand in
/// ascending order of their number, the episodes of each season in
/// ascending order of theirs, and each episode carries the number of its
/// season.
pub proof fn lemma_show_in_order(branch: Branch, now: int)
    ensures
        show_in_order(show_of(branch, now)),
{
    let raw = raw_seasons(branch.subfolders@, branch.folder.path@, now);
    let sorted = sort_seasons(raw);
    lemma_sorted_by(raw, season_rank());
    lemma_raw_seasons_in_order(branch.subfolders@, branch.folder.path@, now);
    assert forall|i: int| 0 <= i < sorted.len() implies season_in_order(#[trigger] sorted[i]) by {
        lemma_sorted_by_contains(raw, season_rank(), i);
        let k = choose|k: int| 0 <= k < raw.len() && raw[k] == sorted[i];
        assert(season_in_order(raw[k]));
    }
    assert forall|i: int, j: int| 0 <= i < j < sorted.len() implies (
    #[trigger] sorted[i]).season_no <= (#[trigger] sorted[j]).season_no by {
        assert(season_rank()(sorted[i]) <= season_rank()(sorted[j]));
    }
}

proof fn lemma_season_at(folder: Folder, show_path: Seq<char>, season_no: int, now: int, later: int)
    ensures
        season_of(folder, show_path, season_no, later) == season_at(
            season_of(folder, show_path, season_no, now),
            later,
        ),
{
    let f = |e: EpisodeView| episode_at(e, later);
    let raw = raw_episodes(folder.entries@, show_path, season_no, now);
    lemma_raw_episodes_at(folder.entries@, show_path, season_no, now, later);
    assert forall|v: EpisodeView| episode_rank()(#[trigger] f(v)) == episode_rank()(v) by {}
    lemma_sorted_by_map(raw, episode_rank(), f);
    let a = season_of(folder, show_path, season_no, now);
    assert(a.episodes.map_values(f) =~= season_at(a, later).episodes);
}

proof fn lemma_raw_seasons_at(subfolders: Seq<Folder>, show_path: Seq<char>, now: int, later: int)
    ensures
        raw_seasons(subfolders, show_path, later) == raw_seasons(
            subfolders,
            show_path,
            now,
        ).map_values(|s: SeasonView| season_at(s, later)),
    decreases subfolders.len(),
{
    let f = |s: SeasonView| season_at(s, later);
    let a = raw_seasons(subfolders, show_path, now);
    if subfolders.len() == 0 {
        assert(raw_seasons(subfolders, show_path, later) =~= a.map_values(f));
    } else {
        lemma_raw_seasons_at(subfolders.drop_last(), show_path, now, later);
        let rest = raw_seasons(subfolders.drop_last(), show_path, now);
        match season_number_spec(subfolders.last().name@) {
            Some(n) => {
                lemma_season_at(subfolders.last(), show_path, n, now, later);
                let s = season_of(subfolders.last(), show_path, n, now);
                assert(rest.map_values(f).push(f(s)) =~= rest.push(s).map_values(f));
            },
            None => {},
        }
    }
}

proof fn lemma_show_at(branch: Branch, now: int, later: int)
    ensures
        show_of(branch, later) == show_at(show_of(branch, now), later),
{
    let f = |s: SeasonView| season_at(s, later);
    let raw = raw_seasons(branch.subfolders@, branch.folder.path@, now);
    lemma_raw_seasons_at(branch.subfolders@, branch.folder.path@, now, later);
    assert forall|v: SeasonView| season_rank()(#[trigger] f(v)) == season_rank()(v) by {}
    lemma_sorted_by_map(raw, season_rank(), f);
    let a = show_of(branch, now);
    assert(a.seasons.map_values(f) =~= show_at(a, later).seasons);
}

proof fn lemma_movies_in_at(folders: Seq<Folder>, now: int, later: int)
    ensures
        movies_in(folders, later) == items_at(movies_in(folders, now), later),
    decreases folders.len(),
{
    if folders.len() == 0 {
        assert(movies_in(folders, later) =~= items_at(movies_in(folders, now), later));
    } else {
        lemma_movies_in_at(folders.drop_last(), now, later);
        let rest = movies_in(folders.drop_last(), now);
        match movie_of(folders.last(), now) {
            Some(m) => {
                assert(movie_of(folders.last(), later) == Some(movie_at(m, later)));
                assert(items_at(rest, later).push(ItemView::Movie(movie_at(m, later))) =~= items_at(
                    rest.push(ItemView::Movie(m)),
                    later,
                ));
            },
            None => {},
        }
    }
}

/// Two scans of the same listing give the same shows, with the same
/// identifiers and with seasons and episodes in the same order, whatever
/// the times of the scans: the results differ in their time stamps alone.
pub proof fn lemma_shows_scan_is_stable(branches: Seq<Branch>, now: int, later: int)
    ensures
        shows_below(branches, later) == items_at(shows_below(branches, now), later),
{
    assert forall|i: int| 0 <= i < branches.len() implies shows_below(branches, later)[i]
        == items_at(shows_below(branches, now), later)[i] by {
        lemma_show_at(branches[i], now, later);
    }
    assert(shows_below(branches, later) =~= items_at(shows_below(branches, now), later));
}

/// Two scans of the same listing give the same movies, with the same
/// identifiers and in the same order, whatever the times of the scans: the
/// results differ in their time stamps alone.
pub proof fn lemma_movies_scan_is_stable(branches: Seq<Branch>, now: int, later: int)
    ensures
        movies_below(branches, later) == items_at(movies_below(branches, now), later),
    decreases branches.len(),
{
    if branches.len() == 0 {
        assert(movies_below(branches, later) =~= items_at(movies_below(branches, now), later));
    } else {
        lemma_movies_scan_is_stable(branches.drop_last(), now, later);
        lemma_movies_in_at(branches.last().subfolders@, now, later);
        let a = movies_below(branches.drop_last(), now);
        let b = movie_item(branches.last().folder, now);
        let c = movies_in(branches.last().subfolders@, now);
        assert(movie_item(branches.last().folder, later) =~= items_at(b, later));
        assert(items_at(a, later) + items_at(b, later) + items_at(c, later) =~= items_at(
            a + b + c,
            later,
        ));
    }
}

/// Every item that a scan for movies gives is a movie.
pub proof fn lemma_movies_in_are_movies(folders: Seq<Folder>, now: int)
    ensures
        forall|i: int|
            0 <= i < movies_in(folders, now).len() ==> (#[trigger] movies_in(folders, now)[i])
                is Movie,
    decreases folders.len(),
{
    if folders.len() > 0 {
        lemma_movies_in_are_movies(folders.drop_last(), now);
    }
}

/// Every item of a collection of movies that was built from a listing is a
/// movie.
pub proof fn lemma_movies_below_are_movies(branches: Seq<Branch>, now: int)
    ensures
        forall|i: int|
            0 <= i < movies_below(branches, now).len() ==> (#[trigger] movies_below(
                branches,
                now,
            )[i]) is Movie,
    decreases branches.len(),
{
    if branches.len() > 0 {
        lemma_movies_below_are_movies(branches.drop_last(), now);
        lemma_movies_in_are_movies(branches.last().subfolders@, now);
        let a = movies_below(branches.drop_last(), now);
        let b = movie_item(branches.last().folder, now);
        let c = movies_in(branches.last().subfolders@, now);
        let all = movies_below(branches, now);
        assert(all == a + b + c);
        assert forall|i: int| 0 <= i < all.len() implies (#[trigger] all[i]) is Movie by {
            if i < a.len() {
                assert(all[i] == a[i]);
            } else if i < a.len() + b.len() {
                assert(all[i] == b[i - a.len()]);
            } else {
                assert(all[i] == c[i - a.len() - b.len()]);
            }
        }
    }
}

} // verus!
