//! Answers of the Jellyfin API that are made from the details of the
//! catalog.

use vstd::prelude::*;
use crate::collection::collection::{CollectionDetails, DetailsView};
use crate::idhash::{id_hash, id_hash_spec};
use crate::text::views;

verus! {

/// How many items of each kind the catalog holds.
#[derive(Debug, Clone)]
pub struct ItemCountResponse {
    pub movie_count: i32,
    pub series_count: i32,
    pub episode_count: i32,
    pub artist_count: i32,
    pub program_count: i32,
    pub trailer_count: i32,
    pub song_count: i32,
    pub album_count: i32,
    pub music_video_count: i32,
    pub box_set_count: i32,
    pub book_count: i32,
    pub item_count: i32,
}

/// The values by which items can be filtered.
#[derive(Debug, Clone)]
pub struct ItemFilterResponse {
    pub genres: Vec<String>,
    pub tags: Vec<String>,
    pub official_ratings: Vec<String>,
    pub years: Vec<i32>,
}

/// A genre with its identifier.
#[derive(Debug, Clone)]
pub struct GenreItem {
    pub name: String,
    pub id: String,
}

/// The genres and tags by which items can be filtered.
#[derive(Debug, Clone)]
pub struct ItemFilter2Response {
    pub genres: Vec<GenreItem>,
    pub tags: Vec<String>,
}

impl View for GenreItem {
    type V = (Seq<char>, Seq<char>);

    open spec fn view(&self) -> (Seq<char>, Seq<char>) {
        (self.name@, self.id@)
    }
}

/// The counts of the catalog as the API gives them: as 32-bit numbers, with
/// the kinds that the catalog does not hold at zero.
pub open spec fn counts_of(d: DetailsView) -> ItemCountResponse {
    ItemCountResponse {
        movie_count: d.movie_count as i32,
        series_count: d.show_count as i32,
        episode_count: d.episode_count as i32,
        artist_count: 0,
        program_count: 0,
        trailer_count: 0,
        song_count: 0,
        album_count: 0,
        music_video_count: 0,
        box_set_count: 0,
        book_count: 0,
        item_count: (d.movie_count + d.show_count + d.episode_count) as i32,
    }
}

/// The genres of the catalog, each with the hash of its name as identifier.
pub open spec fn genre_items(genres: Seq<Seq<char>>) -> Seq<(Seq<char>, Seq<char>)> {
    Seq::new(genres.len(), |i: int| (genres[i], id_hash_spec(genres[i])))
}

/// A copy of a list of texts.
fn copy_texts(texts: &Vec<String>) -> (r: Vec<String>)
    ensures
        views(r@) == views(texts@),
{
    let mut out: Vec<String> = Vec::new();
    let mut k: usize = 0;
    while k < texts.len()
        invariant
            k <= texts.len(),
            out@.len() == k,
            forall|i: int| 0 <= i < k ==> (#[trigger] out@[i])@ == texts@[i]@,
        decreases texts.len() - k,
    {
        out.push(texts[k].clone());
        k = k + 1;
    }
    assert(views(out@) =~= views(texts@));
    out
}

/// The counts of the catalog as the API gives them.
pub fn items_counts(details: &CollectionDetails) -> (r: ItemCountResponse)
    ensures
        r == counts_of(details@),
{
    let total = details.movie_count as u128 + details.show_count as u128
        + details.episode_count as u128;
    ItemCountResponse {
        movie_count: #[verifier::truncate]
        (details.movie_count as i32),
        series_count: #[verifier::truncate]
        (details.show_count as i32),
        episode_count: #[verifier::truncate]
        (details.episode_count as i32),
        artist_count: 0,
        program_count: 0,
        trailer_count: 0,
        song_count: 0,
        album_count: 0,
        music_video_count: 0,
        box_set_count: 0,
        book_count: 0,
        item_count: #[verifier::truncate]
        (total as i32),
    }
}

/// The values by which items can be filtered: the genres, tags, official
/// ratings and years of the catalog.
pub fn item_filters(details: &CollectionDetails) -> (r: ItemFilterResponse)
    ensures
        views(r.genres@) == details@.genres,
        views(r.tags@) == details@.tags,
        views(r.official_ratings@) == details@.official_ratings,
        r.years@ == details@.years,
{
    let mut years: Vec<i32> = Vec::new();
    let mut k: usize = 0;
    while k < details.years.len()
        invariant
            k <= details.years.len(),
            years@ == details.years@.take(k as int),
        decreases details.years.len() - k,
    {
        years.push(details.years[k]);
        assert(years@ =~= details.years@.take(k + 1));
        k = k + 1;
    }
    assert(details.years@.take(k as int) == details.years@);
    ItemFilterResponse {
        genres: copy_texts(&details.genres),
        tags: copy_texts(&details.tags),
        official_ratings: copy_texts(&details.official_ratings),
        years,
    }
}

/// The genres and tags by which items can be filtered: each genre with the
/// hash of its name as identifier.
pub fn item_filters2(details: &CollectionDetails) -> (r: ItemFilter2Response)
    ensures
        views(r.genres@) == genre_items(details@.genres),
        views(r.tags@) == details@.tags,
{
    let mut genres: Vec<GenreItem> = Vec::new();
    let mut k: usize = 0;
    while k < details.genres.len()
        invariant
            k <= details.genres.len(),
            genres@.len() == k,
            forall|i: int|
                0 <= i < k ==> (#[trigger] genres@[i])@ == (
                    details.genres@[i]@,
                    id_hash_spec(details.genres@[i]@),
                ),
        decreases details.genres.len() - k,
    {
        let g = &details.genres[k];
        genres.push(GenreItem { name: g.clone(), id: id_hash(g.as_str()) });
        k = k + 1;
    }
    assert(views(genres@) =~= genre_items(details@.genres));
    ItemFilter2Response { genres, tags: copy_texts(&details.tags) }
}

} // verus!
