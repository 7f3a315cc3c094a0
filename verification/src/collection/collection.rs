//! A collection: a named directory of movies or of shows.

use vstd::prelude::*;
use crate::collection::item::{Item, ItemView, Season, SeasonView};
use crate::collection::metadata::{Metadata, MetadataView};
use crate::text::{same_text, views};

verus! {

/// What a collection holds.
#[derive(Debug, Clone, Copy, PartialEq, Eq)]
pub enum CollectionType {
    Movies,
    Shows,
}

/// The name of a collection type, as configuration files write it.
pub open spec fn kind_name(t: CollectionType) -> Seq<char> {
    match t {
        CollectionType::Movies => "movies"@,
        CollectionType::Shows => "shows"@,
    }
}

/// The collection type that a name stands for, if any.
pub open spec fn kind_of_name(s: Seq<char>) -> Option<CollectionType> {
    if s == "movies"@ {
        Some(CollectionType::Movies)
    } else if s == "shows"@ {
        Some(CollectionType::Shows)
    } else {
        None
    }
}

/// The name of a collection type stands for that type.
pub proof fn lemma_kind_name_round_trip(t: CollectionType)
    ensures
        kind_of_name(kind_name(t)) == Some(t),
{
    reveal_strlit("movies");
    reveal_strlit("shows");
    assert("movies"@.len() != "shows"@.len());
}

impl CollectionType {
    /// The collection type that `s` names: `movies` or `shows`.
    pub fn from_str(s: &str) -> (r: Option<Self>)
        ensures
            r == kind_of_name(s@),
    {
        if same_text(s, "movies") {
            Some(CollectionType::Movies)
        } else if same_text(s, "shows") {
            Some(CollectionType::Shows)
        } else {
            None
        }
    }

    /// The name of the collection type.
    pub fn as_str(&self) -> (r: &'static str)
        ensures
            r@ == kind_name(*self),
    {
        match self {
            CollectionType::Movies => "movies",
            CollectionType::Shows => "shows",
        }
    }
}

/// A media collection: movies or TV shows below one directory.
#[derive(Debug)]
pub struct Collection {
    /// The identifier: given, or the hash of the name.
    pub id: String,
    /// The display name.
    pub name: String,
    pub collection_type: CollectionType,
    /// The items found by the last scan.
    pub items: Vec<Item>,
    /// The directory that is scanned.
    pub directory: String,
    /// The base address of the streaming server, empty where there is none.
    pub hls_server: String,
}

/// The mathematical value of a `Collection`.
pub struct CollectionView {
    pub id: Seq<char>,
    pub name: Seq<char>,
    pub collection_type: CollectionType,
    pub items: Seq<ItemView>,
    pub directory: Seq<char>,
    pub hls_server: Seq<char>,
}

impl Clone for Collection {
    /// A copy with the same value.
    fn clone(&self) -> (r: Self)
        ensures
            r@ == self@,
    {
        let r = Collection {
            id: self.id.clone(),
            name: self.name.clone(),
            collection_type: self.collection_type,
            items: self.items.clone(),
            directory: self.directory.clone(),
            hls_server: self.hls_server.clone(),
        };
        assert(views(r.items@) =~= views(self.items@));
        r
    }
}

impl View for Collection {
    type V = CollectionView;

    open spec fn view(&self) -> CollectionView {
        CollectionView {
            id: self.id@,
            name: self.name@,
            collection_type: self.collection_type,
            items: views(self.items@),
            directory: self.directory@,
            hls_server: self.hls_server@,
        }
    }
}

impl Collection {
    /// A collection without items.
    pub fn new(
        id: String,
        name: String,
        collection_type: CollectionType,
        directory: String,
        hls_server: String,
    ) -> (c: Self)
        ensures
            c@ == (CollectionView {
                id: id@,
                name: name@,
                collection_type,
                items: Seq::empty(),
                directory: directory@,
                hls_server: hls_server@,
            }),
    {
        let c = Collection { id, name, collection_type, items: Vec::new(), directory, hls_server };
        assert(c@.items =~= Seq::<ItemView>::empty());
        c
    }
}

/// What a collection holds, in numbers and in lists of the values that
/// occur.
#[derive(Debug, Clone)]
pub struct CollectionDetails {
    /// Number of movies.
    pub movie_count: usize,
    /// Number of shows.
    pub show_count: usize,
    /// Number of episodes.
    pub episode_count: usize,
    /// The genres that occur, each once.
    pub genres: Vec<String>,
    /// The studios that occur, each once.
    pub studios: Vec<String>,
    /// The tags that occur; none are known.
    pub tags: Vec<String>,
    /// The official ratings that occur, each once.
    pub official_ratings: Vec<String>,
    /// The years that occur, each once.
    pub years: Vec<i32>,
}

/// The mathematical value of a `CollectionDetails`.
pub struct DetailsView {
    pub movie_count: nat,
    pub show_count: nat,
    pub episode_count: nat,
    pub genres: Seq<Seq<char>>,
    pub studios: Seq<Seq<char>>,
    pub tags: Seq<Seq<char>>,
    pub official_ratings: Seq<Seq<char>>,
    pub years: Seq<i32>,
}

impl View for CollectionDetails {
    type V = DetailsView;

    open spec fn view(&self) -> DetailsView {
        DetailsView {
            movie_count: self.movie_count as nat,
            show_count: self.show_count as nat,
            episode_count: self.episode_count as nat,
            genres: views(self.genres@),
            studios: views(self.studios@),
            tags: views(self.tags@),
            official_ratings: views(self.official_ratings@),
            years: self.years@,
        }
    }
}

/// A count as a machine can hold it: counts beyond the largest number stay
/// at the largest number.
pub open spec fn capped(n: nat) -> nat {
    if n > usize::MAX {
        usize::MAX as nat
    } else {
        n
    }
}

/// `s` with `x` at its end, unless `s` holds `x` already.
pub open spec fn add_distinct<T>(s: Seq<T>, x: T) -> Seq<T> {
    if s.contains(x) {
        s
    } else {
        s.push(x)
    }
}

/// `s` with the text `x` at its end, unless `x` is empty or `s` holds it
/// already.
pub open spec fn add_text(s: Seq<Seq<char>>, x: Seq<char>) -> Seq<Seq<char>> {
    if x.len() == 0 {
        s
    } else {
        add_distinct(s, x)
    }
}

/// `s` with each of `texts` added in order: no empty text, and none twice.
pub open spec fn add_texts(s: Seq<Seq<char>>, texts: Seq<Seq<char>>) -> Seq<Seq<char>>
    decreases texts.len(),
{
    if texts.len() == 0 {
        s
    } else {
        add_text(add_texts(s, texts.drop_last()), texts.last())
    }
}

/// `s` with the year `y` at its end, unless `y` is zero or `s` holds it
/// already.
pub open spec fn add_year(s: Seq<i32>, y: i32) -> Seq<i32> {
    if y == 0 {
        s
    } else {
        add_distinct(s, y)
    }
}

/// `s` with each of `years` added in order: no zero, and none twice.
pub open spec fn add_years(s: Seq<i32>, years: Seq<i32>) -> Seq<i32>
    decreases years.len(),
{
    if years.len() == 0 {
        s
    } else {
        add_year(add_years(s, years.drop_last()), years.last())
    }
}

/// The number of episodes in a list of seasons.
pub open spec fn count_episodes(s: Seq<SeasonView>) -> nat
    decreases s.len(),
{
    if s.len() == 0 {
        0
    } else {
        count_episodes(s.drop_last()) + s.last().episodes.len()
    }
}

/// The details of nothing.
pub open spec fn no_details() -> DetailsView {
    DetailsView {
        movie_count: 0,
        show_count: 0,
        episode_count: 0,
        genres: Seq::empty(),
        studios: Seq::empty(),
        tags: Seq::empty(),
        official_ratings: Seq::empty(),
        years: Seq::empty(),
    }
}

/// Details with what a piece of metadata says added to their lists.
pub open spec fn with_metadata(d: DetailsView, m: MetadataView) -> DetailsView {
    DetailsView {
        genres: add_texts(d.genres, m.genres),
        studios: add_texts(d.studios, m.studios),
        official_ratings: add_text(d.official_ratings, m.official_rating),
        years: add_year(d.years, m.year as i32),
        ..d
    }
}

/// Details with one more item counted. Only movies and shows count.
pub open spec fn with_item(d: DetailsView, item: ItemView) -> DetailsView {
    match item {
        ItemView::Movie(m) => with_metadata(
            DetailsView { movie_count: capped(d.movie_count + 1), ..d },
            m.metadata,
        ),
        ItemView::Show(s) => with_metadata(
            DetailsView {
                show_count: capped(d.show_count + 1),
                episode_count: capped(d.episode_count + count_episodes(s.seasons)),
                ..d
            },
            s.metadata,
        ),
        _ => d,
    }
}

/// Details with a list of items counted, one after the other.
pub open spec fn with_items(d: DetailsView, items: Seq<ItemView>) -> DetailsView
    decreases items.len(),
{
    if items.len() == 0 {
        d
    } else {
        with_item(with_items(d, items.drop_last()), items.last())
    }
}

/// How often each genre occurs: pairs of a genre and a number.
pub open spec fn count_genre(counts: Seq<(Seq<char>, nat)>, genre: Seq<char>, from: int) -> Seq<
    (Seq<char>, nat),
>
    decreases counts.len() - from,
{
    if genre.len() == 0 {
        counts
    } else if from < 0 || from >= counts.len() {
        counts.push((genre, 1))
    } else if counts[from].0 == genre {
        counts.update(from, (genre, capped(counts[from].1 + 1)))
    } else {
        count_genre(counts, genre, from + 1)
    }
}

/// The counts with each of `genres` counted.
pub open spec fn count_genres(counts: Seq<(Seq<char>, nat)>, genres: Seq<Seq<char>>) -> Seq<
    (Seq<char>, nat),
>
    decreases genres.len(),
{
    if genres.len() == 0 {
        counts
    } else {
        count_genre(count_genres(counts, genres.drop_last()), genres.last(), 0)
    }
}

/// The genres of an item: those of a movie or a show, none of any other.
pub open spec fn genres_of(item: ItemView) -> Seq<Seq<char>> {
    match item {
        ItemView::Movie(m) => m.metadata.genres,
        ItemView::Show(s) => s.metadata.genres,
        _ => Seq::empty(),
    }
}

/// The counts with the genres of each item counted.
pub open spec fn count_item_genres(counts: Seq<(Seq<char>, nat)>, items: Seq<ItemView>) -> Seq<
    (Seq<char>, nat),
>
    decreases items.len(),
{
    if items.len() == 0 {
        counts
    } else {
        count_genres(count_item_genres(counts, items.drop_last()), genres_of(items.last()))
    }
}

/// The mathematical value of a list of genre counts.
pub open spec fn counts_view(c: Seq<(String, usize)>) -> Seq<(Seq<char>, nat)> {
    Seq::new(c.len(), |i: int| (c[i].0@, c[i].1 as nat))
}

/// Whether `list` holds the text `x`.
fn holds_text(list: &Vec<String>, x: &String) -> (b: bool)
    ensures
        b == views(list@).contains(x@),
{
    let mut k: usize = 0;
    while k < list.len()
        invariant
            k <= list.len(),
            forall|j: int| 0 <= j < k ==> views(list@)[j] != x@,
        decreases list.len() - k,
    {
        if list[k] == *x {
            assert(views(list@)[k as int] == x@);
            return true;
        }
        k = k + 1;
    }
    false
}

/// Adds a text to a list that holds each text once.
pub(crate) fn push_text(list: &mut Vec<String>, x: &String)
    ensures
        views(final(list)@) == add_text(views(old(list)@), x@),
{
    if x.as_str().is_empty() {
        return ;
    }
    if !holds_text(list, x) {
        let copy = x.clone();
        list.push(copy);
        assert(views(list@) =~= views(old(list)@).push(x@));
    }
}

/// Adds texts to a list that holds each text once.
pub(crate) fn push_texts(list: &mut Vec<String>, texts: &Vec<String>)
    ensures
        views(final(list)@) == add_texts(views(old(list)@), views(texts@)),
{
    let ghost all = views(texts@);
    let mut k: usize = 0;
    assert(all.take(0) =~= Seq::empty());
    while k < texts.len()
        invariant
            k <= texts.len(),
            all == views(texts@),
            views(list@) == add_texts(views(old(list)@), all.take(k as int)),
        decreases texts.len() - k,
    {
        proof {
            assert(all.take(k + 1).drop_last() == all.take(k as int));
            assert(all.take(k + 1).last() == texts@[k as int]@);
        }
        push_text(list, &texts[k]);
        k = k + 1;
    }
    assert(all.take(k as int) == all);
}

/// Adds a year to a list that holds each year once.
pub(crate) fn push_year(list: &mut Vec<i32>, year: i32)
    ensures
        final(list)@ == add_year(old(list)@, year),
{
    if year == 0 {
        return ;
    }
    let mut k: usize = 0;
    while k < list.len()
        invariant
            k <= list.len(),
            list@ == old(list)@,
            forall|j: int| 0 <= j < k ==> list@[j] != year,
        decreases list.len() - k,
    {
        if list[k] == year {
            return ;
        }
        k = k + 1;
    }
    list.push(year);
}

/// The number of episodes in a list of seasons.
fn episodes_in(seasons: &Vec<Season>) -> (n: usize)
    ensures
        n == capped(count_episodes(views(seasons@))),
{
    let ghost all = views(seasons@);
    let mut n: usize = 0;
    let mut k: usize = 0;
    assert(all.take(0) =~= Seq::empty());
    while k < seasons.len()
        invariant
            k <= seasons.len(),
            all == views(seasons@),
            n == capped(count_episodes(all.take(k as int))),
        decreases seasons.len() - k,
    {
        proof {
            assert(all.take(k + 1).drop_last() == all.take(k as int));
            assert(all.take(k + 1).last() == seasons@[k as int]@);
            assert(seasons@[k as int]@.episodes.len() == seasons@[k as int].episodes@.len());
        }
        n = n.saturating_add(seasons[k].episodes.len());
        k = k + 1;
    }
    assert(all.take(k as int) == all);
    n
}

/// Adds what a piece of metadata says to the lists of the details.
fn add_metadata(d: &mut CollectionDetails, m: &Metadata)
    ensures
        final(d)@ == with_metadata(old(d)@, m@),
{
    push_texts(&mut d.genres, &m.genres);
    push_texts(&mut d.studios, &m.studios);
    push_text(&mut d.official_ratings, &m.official_rating);
    push_year(&mut d.years, m.year);
}

/// Counts one more item in the details.
pub(crate) fn add_item(d: &mut CollectionDetails, item: &Item)
    ensures
        final(d)@ == with_item(old(d)@, item@),
{
    match item {
        Item::Movie(m) => {
            d.movie_count = d.movie_count.saturating_add(1);
            add_metadata(d, &m.metadata);
        },
        Item::Show(s) => {
            d.show_count = d.show_count.saturating_add(1);
            d.episode_count = d.episode_count.saturating_add(episodes_in(&s.seasons));
            add_metadata(d, &s.metadata);
        },
        _ => {},
    }
}

/// Counts the items of a list in the details.
pub(crate) fn add_items(d: &mut CollectionDetails, items: &Vec<Item>)
    ensures
        final(d)@ == with_items(old(d)@, views(items@)),
{
    let ghost all = views(items@);
    let mut k: usize = 0;
    assert(all.take(0) =~= Seq::empty());
    while k < items.len()
        invariant
            k <= items.len(),
            all == views(items@),
            d@ == with_items(old(d)@, all.take(k as int)),
        decreases items.len() - k,
    {
        proof {
            assert(all.take(k + 1).drop_last() == all.take(k as int));
            assert(all.take(k + 1).last() == items@[k as int]@);
        }
        add_item(d, &items[k]);
        k = k + 1;
    }
    assert(all.take(k as int) == all);
}

impl CollectionDetails {
    /// The details of nothing.
    pub fn new() -> (d: Self)
        ensures
            d@ == no_details(),
    {
        let d = CollectionDetails {
            movie_count: 0,
            show_count: 0,
            episode_count: 0,
            genres: Vec::new(),
            studios: Vec::new(),
            tags: Vec::new(),
            official_ratings: Vec::new(),
            years: Vec::new(),
        };
        assert(d@.genres =~= Seq::empty());
        assert(d@.studios =~= Seq::empty());
        assert(d@.tags =~= Seq::empty());
        assert(d@.official_ratings =~= Seq::empty());
        d
    }
}

/// Counts one genre.
fn tally_genre(counts: &mut Vec<(String, usize)>, genre: &String)
    ensures
        counts_view(final(counts)@) == count_genre(counts_view(old(counts)@), genre@, 0),
{
    if genre.as_str().is_empty() {
        return ;
    }
    let ghost before = counts_view(counts@);
    let mut k: usize = 0;
    while k < counts.len()
        invariant
            k <= counts.len(),
            counts@ == old(counts)@,
            before == counts_view(counts@),
            genre@.len() > 0,
            count_genre(before, genre@, 0) == count_genre(before, genre@, k as int),
        decreases counts.len() - k,
    {
        if counts[k].0 == *genre {
            let n = counts[k].1.saturating_add(1);
            let copy = genre.clone();
            counts.set(k, (copy, n));
            assert(counts_view(counts@) =~= before.update(k as int, (genre@, n as nat)));
            return ;
        }
        assert(before[k as int].0 != genre@);
        k = k + 1;
    }
    let copy = genre.clone();
    counts.push((copy, 1));
    assert(counts_view(counts@) =~= before.push((genre@, 1nat)));
}

/// Counts each genre of a list.
fn tally_genres(counts: &mut Vec<(String, usize)>, genres: &Vec<String>)
    ensures
        counts_view(final(counts)@) == count_genres(counts_view(old(counts)@), views(genres@)),
{
    let ghost all = views(genres@);
    let mut k: usize = 0;
    assert(all.take(0) =~= Seq::empty());
    while k < genres.len()
        invariant
            k <= genres.len(),
            all == views(genres@),
            counts_view(counts@) == count_genres(counts_view(old(counts)@), all.take(k as int)),
        decreases genres.len() - k,
    {
        proof {
            assert(all.take(k + 1).drop_last() == all.take(k as int));
            assert(all.take(k + 1).last() == genres@[k as int]@);
        }
        tally_genre(counts, &genres[k]);
        k = k + 1;
    }
    assert(all.take(k as int) == all);
}

impl Collection {
    /// The details of the collection: how many movies, shows and episodes it
    /// holds, and the genres, studios, official ratings and years of its
    /// movies and shows, each once and in the order in which they first
    /// occur.
    pub fn details(&self) -> (d: CollectionDetails)
        ensures
            d@ == with_items(no_details(), self@.items),
    {
        let mut d = CollectionDetails::new();
        add_items(&mut d, &self.items);
        d
    }

    /// How many times each genre occurs among the movies and shows of the
    /// collection: one pair for each genre, in the order in which the genres
    /// first occur.
    pub fn genre_count(&self) -> (r: Vec<(String, usize)>)
        ensures
            counts_view(r@) == count_item_genres(Seq::empty(), self@.items),
    {
        let ghost all = self@.items;
        let mut counts: Vec<(String, usize)> = Vec::new();
        let mut k: usize = 0;
        assert(all.take(0) =~= Seq::empty());
        assert(counts_view(counts@) =~= Seq::empty());
        while k < self.items.len()
            invariant
                k <= self.items.len(),
                all == views(self.items@),
                counts_view(counts@) == count_item_genres(Seq::empty(), all.take(k as int)),
            decreases self.items.len() - k,
        {
            proof {
                assert(all.take(k + 1).drop_last() == all.take(k as int));
                assert(all.take(k + 1).last() == self.items@[k as int]@);
            }
            match &self.items[k] {
                Item::Movie(m) => tally_genres(&mut counts, &m.metadata.genres),
                Item::Show(s) => tally_genres(&mut counts, &s.metadata.genres),
                _ => {},
            }
            k = k + 1;
        }
        assert(all.take(k as int) == all);
        counts
    }
}

/// Adds years to a list that holds each year once.
pub(crate) fn push_years(list: &mut Vec<i32>, years: &Vec<i32>)
    ensures
        final(list)@ == add_years(old(list)@, years@),
{
    let mut k: usize = 0;
    assert(years@.take(0) =~= Seq::empty());
    while k < years.len()
        invariant
            k <= years.len(),
            list@ == add_years(old(list)@, years@.take(k as int)),
        decreases years.len() - k,
    {
        proof {
            assert(years@.take(k + 1).drop_last() == years@.take(k as int));
            assert(years@.take(k + 1).last() == years@[k as int]);
        }
        push_year(list, years[k]);
        k = k + 1;
    }
    assert(years@.take(k as int) == years@);
}

/// The details of two parts of a catalog taken together: the counts added,
/// and the lists of the second part added to those of the first.
pub open spec fn merged(a: DetailsView, d: DetailsView) -> DetailsView {
    DetailsView {
        movie_count: capped(a.movie_count + d.movie_count),
        show_count: capped(a.show_count + d.show_count),
        episode_count: capped(a.episode_count + d.episode_count),
        genres: add_texts(a.genres, d.genres),
        studios: add_texts(a.studios, d.studios),
        tags: a.tags,
        official_ratings: add_texts(a.official_ratings, d.official_ratings),
        years: add_years(a.years, d.years),
    }
}

/// Adds the details of another part of a catalog.
pub(crate) fn merge_details(a: &mut CollectionDetails, d: &CollectionDetails)
    ensures
        final(a)@ == merged(old(a)@, d@),
{
    a.movie_count = a.movie_count.saturating_add(d.movie_count);
    a.show_count = a.show_count.saturating_add(d.show_count);
    a.episode_count = a.episode_count.saturating_add(d.episode_count);
    push_texts(&mut a.genres, &d.genres);
    push_texts(&mut a.studios, &d.studios);
    push_texts(&mut a.official_ratings, &d.official_ratings);
    push_years(&mut a.years, &d.years);
}

} // verus!
