//! The repository of collections and the queries over it.
//!
//! A repository is one whole catalog. Readers share it unchanged; a rebuild
//! works on a copy of its own and is seen only once that copy takes the
//! place of the old one.

use vstd::prelude::*;
use crate::collection::collection::{
    kind_of_name, merge_details, merged, no_details, with_items, Collection, CollectionDetails,
    CollectionType, CollectionView, DetailsView,
};
use crate::collection::item::{
    Episode, EpisodeView, Item, ItemRef, ItemView, Season, SeasonView, Show, ShowView,
};
use crate::idhash::{id_hash, id_hash_spec};
use crate::collection::item::show_in_order;
use crate::collection::kodifs::{
    build_movies, build_shows, lemma_movies_below_are_movies, lemma_show_in_order, movies_below,
    shows_below, DirTree,
};
use crate::text::{chars_of, contains_chars, contains_text, lowercase, push_str, string_of, views};

verus! {

/// The index of the first episode at or after `from` with this identifier.
pub open spec fn episode_index(e: Seq<EpisodeView>, id: Seq<char>, from: int) -> Option<int>
    decreases e.len() - from,
{
    if from < 0 || from >= e.len() {
        None
    } else if e[from].id == id {
        Some(from)
    } else {
        episode_index(e, id, from + 1)
    }
}

/// The index of the first season at or after `from` with this identifier.
pub open spec fn season_index(s: Seq<SeasonView>, id: Seq<char>, from: int) -> Option<int>
    decreases s.len() - from,
{
    if from < 0 || from >= s.len() {
        None
    } else if s[from].id == id {
        Some(from)
    } else {
        season_index(s, id, from + 1)
    }
}

/// The index of the first collection at or after `from` with this
/// identifier.
pub open spec fn collection_index(c: Seq<CollectionView>, id: Seq<char>, from: int) -> Option<int>
    decreases c.len() - from,
{
    if from < 0 || from >= c.len() {
        None
    } else if c[from].id == id {
        Some(from)
    } else {
        collection_index(c, id, from + 1)
    }
}

/// The first match for an identifier among the seasons at or after `from`
/// and their episodes: each season before its own episodes.
pub open spec fn find_in_seasons(s: Seq<SeasonView>, id: Seq<char>, from: int) -> Option<ItemView>
    decreases s.len() - from,
{
    if from < 0 || from >= s.len() {
        None
    } else if s[from].id == id {
        Some(ItemView::Season(s[from]))
    } else if episode_index(s[from].episodes, id, 0) is Some {
        Some(ItemView::Episode(s[from].episodes[episode_index(s[from].episodes, id, 0)->0]))
    } else {
        find_in_seasons(s, id, from + 1)
    }
}

/// The first match for an identifier in one item of a collection: the item
/// itself or, in a show, one of its seasons or episodes.
pub open spec fn find_in_item(item: ItemView, id: Seq<char>) -> Option<ItemView> {
    match item {
        ItemView::Show(s) => if s.id == id {
            Some(item)
        } else {
            find_in_seasons(s.seasons, id, 0)
        },
        _ => if item.id() == id {
            Some(item)
        } else {
            None
        },
    }
}

/// The first match for an identifier among the items at or after `from`.
pub open spec fn find_item(items: Seq<ItemView>, id: Seq<char>, from: int) -> Option<ItemView>
    decreases items.len() - from,
{
    if from < 0 || from >= items.len() {
        None
    } else if find_in_item(items[from], id) is Some {
        find_in_item(items[from], id)
    } else {
        find_item(items, id, from + 1)
    }
}

/// The item with identifier `item_id` in the first collection with
/// identifier `collection_id`.
pub open spec fn item_in(c: Seq<CollectionView>, collection_id: Seq<char>, item_id: Seq<char>) -> Option<
    ItemView,
> {
    match collection_index(c, collection_id, 0) {
        Some(i) => find_item(c[i].items, item_id, 0),
        None => None,
    }
}

/// The first collection at or after `from` in which a look-up by its
/// identifier finds the item, and the item found.
pub open spec fn item_by_id(c: Seq<CollectionView>, id: Seq<char>, from: int) -> Option<
    (CollectionView, ItemView),
>
    decreases c.len() - from,
{
    if from < 0 || from >= c.len() {
        None
    } else if item_in(c, c[from].id, id) is Some {
        Some((c[from], item_in(c, c[from].id, id)->0))
    } else {
        item_by_id(c, id, from + 1)
    }
}

/// Where an episode stands in a catalog: the indices of its collection, of
/// its show among the items, of its season and of the episode itself.
pub struct EpisodePlace {
    pub collection: int,
    pub item: int,
    pub season: int,
    pub episode: int,
}

/// Where a season stands in a catalog: the indices of its collection, of its
/// show among the items and of the season itself.
pub struct SeasonPlace {
    pub collection: int,
    pub item: int,
    pub season: int,
}

/// The first season at or after `from` that holds an episode with this
/// identifier, and the first such episode in it.
pub open spec fn episode_in_seasons(s: Seq<SeasonView>, id: Seq<char>, from: int) -> Option<
    (int, int),
>
    decreases s.len() - from,
{
    if from < 0 || from >= s.len() {
        None
    } else if episode_index(s[from].episodes, id, 0) is Some {
        Some((from, episode_index(s[from].episodes, id, 0)->0))
    } else {
        episode_in_seasons(s, id, from + 1)
    }
}

/// The seasons of an item: those of a show, none of any other item.
pub open spec fn seasons_of(item: ItemView) -> Seq<SeasonView> {
    match item {
        ItemView::Show(s) => s.seasons,
        _ => Seq::empty(),
    }
}

/// The first show at or after `from` that holds an episode with this
/// identifier, with the place of the episode in it.
pub open spec fn episode_in_items(items: Seq<ItemView>, id: Seq<char>, from: int) -> Option<
    (int, int, int),
>
    decreases items.len() - from,
{
    if from < 0 || from >= items.len() {
        None
    } else if episode_in_seasons(seasons_of(items[from]), id, 0) is Some {
        let (season, episode) = episode_in_seasons(seasons_of(items[from]), id, 0)->0;
        Some((from, season, episode))
    } else {
        episode_in_items(items, id, from + 1)
    }
}

/// The place of the first episode with this identifier in the collections
/// at or after `from`.
pub open spec fn episode_place(c: Seq<CollectionView>, id: Seq<char>, from: int) -> Option<
    EpisodePlace,
>
    decreases c.len() - from,
{
    if from < 0 || from >= c.len() {
        None
    } else if episode_in_items(c[from].items, id, 0) is Some {
        let (item, season, episode) = episode_in_items(c[from].items, id, 0)->0;
        Some(EpisodePlace { collection: from, item, season, episode })
    } else {
        episode_place(c, id, from + 1)
    }
}

/// The first show at or after `from` that holds a season with this
/// identifier, with the index of the season in it.
pub open spec fn season_in_items(items: Seq<ItemView>, id: Seq<char>, from: int) -> Option<
    (int, int),
>
    decreases items.len() - from,
{
    if from < 0 || from >= items.len() {
        None
    } else if season_index(seasons_of(items[from]), id, 0) is Some {
        Some((from, season_index(seasons_of(items[from]), id, 0)->0))
    } else {
        season_in_items(items, id, from + 1)
    }
}

/// The place of the first season with this identifier in the collections at
/// or after `from`.
pub open spec fn season_place(c: Seq<CollectionView>, id: Seq<char>, from: int) -> Option<
    SeasonPlace,
>
    decreases c.len() - from,
{
    if from < 0 || from >= c.len() {
        None
    } else if season_in_items(c[from].items, id, 0) is Some {
        let (item, season) = season_in_items(c[from].items, id, 0)->0;
        Some(SeasonPlace { collection: from, item, season })
    } else {
        season_place(c, id, from + 1)
    }
}

/// How far a show has been watched: the highest season and episode number
/// among its watched episodes, and where that episode stands in the show.
pub struct Progress {
    pub show_id: Seq<char>,
    pub season_no: int,
    pub episode_no: int,
    pub season_idx: int,
    pub ep_idx: int,
}

/// How far a show has been watched, as `next_up` keeps it.
pub struct ShowEntry {
    pub show_id: String,
    pub season_no: i32,
    pub episode_no: i32,
    pub season_idx: usize,
    pub ep_idx: usize,
}

impl View for ShowEntry {
    type V = Progress;

    open spec fn view(&self) -> Progress {
        Progress {
            show_id: self.show_id@,
            season_no: self.season_no as int,
            episode_no: self.episode_no as int,
            season_idx: self.season_idx as int,
            ep_idx: self.ep_idx as int,
        }
    }
}

/// The show of an item that is a show.
pub open spec fn show_of_item(item: ItemView) -> ShowView {
    item->Show_0
}

/// What a watched episode says of its show. Nothing where no episode has
/// this identifier, or where it is found in a collection that is not one of
/// shows.
pub open spec fn locate(c: Seq<CollectionView>, episode_id: Seq<char>) -> Option<Progress> {
    let place = episode_place(c, episode_id, 0);
    let collection = c[place->0.collection];
    let show = show_of_item(collection.items[place->0.item]);
    let season = show.seasons[place->0.season];
    let episode = season.episodes[place->0.episode];
    let si = season_index(show.seasons, season.id, 0);
    let ei = episode_index(show.seasons[si->0].episodes, episode.id, 0);
    if place is Some && collection.collection_type == CollectionType::Shows && si is Some && ei
        is Some {
        Some(
            Progress {
                show_id: show.id,
                season_no: season.season_no,
                episode_no: episode.episode_no,
                season_idx: si->0,
                ep_idx: ei->0,
            },
        )
    } else {
        None
    }
}

/// Whether `p` lies later in its show than `q`: in a higher season, or in
/// the same season at a higher episode number.
pub open spec fn is_later(p: Progress, q: Progress) -> bool {
    p.season_no > q.season_no || (p.season_no == q.season_no && p.episode_no > q.episode_no)
}

/// The index of the first entry at or after `from` for this show.
pub open spec fn entry_index(entries: Seq<Progress>, show_id: Seq<char>, from: int) -> Option<int>
    decreases entries.len() - from,
{
    if from < 0 || from >= entries.len() {
        None
    } else if entries[from].show_id == show_id {
        Some(from)
    } else {
        entry_index(entries, show_id, from + 1)
    }
}

/// The entries once `p` is taken note of: a show seen for the first time
/// gets an entry at the end; the entry of a known show is replaced where
/// `p` lies later.
pub open spec fn record(entries: Seq<Progress>, p: Progress) -> Seq<Progress> {
    match entry_index(entries, p.show_id, 0) {
        Some(k) => if is_later(p, entries[k]) {
            entries.update(k, p)
        } else {
            entries
        },
        None => entries.push(p),
    }
}

/// How far each show has been watched, given the watched episodes: one
/// entry for each show, in the order in which the shows first occur.
pub open spec fn progress(c: Seq<CollectionView>, watched: Seq<Seq<char>>) -> Seq<Progress>
    decreases watched.len(),
{
    if watched.len() == 0 {
        Seq::empty()
    } else {
        let before = progress(c, watched.drop_last());
        match locate(c, watched.last()) {
            Some(p) => record(before, p),
            None => before,
        }
    }
}

/// The episode that follows the one at index `ei` of the season at index
/// `si`: the next one of that season or, after its last, the first one of
/// the next season.
pub open spec fn next_in_show(show: ShowView, si: int, ei: int) -> Option<Seq<char>> {
    if 0 <= si < show.seasons.len() && 0 <= ei {
        if ei + 1 < show.seasons[si].episodes.len() {
            Some(show.seasons[si].episodes[ei + 1].id)
        } else if si + 1 < show.seasons.len() && show.seasons[si + 1].episodes.len() > 0 {
            Some(show.seasons[si + 1].episodes[0].id)
        } else {
            None
        }
    } else {
        None
    }
}

/// The episode to watch next in the show of an entry. Nothing where a
/// look-up of the show's identifier does not give a show.
pub open spec fn continuation(c: Seq<CollectionView>, p: Progress) -> Option<Seq<char>> {
    match item_by_id(c, p.show_id, 0) {
        Some((_, ItemView::Show(show))) => next_in_show(show, p.season_idx, p.ep_idx),
        _ => None,
    }
}

/// The episodes to watch next for a list of entries: one for each entry
/// that has a continuation, in the order of the entries.
pub open spec fn continuations(c: Seq<CollectionView>, entries: Seq<Progress>) -> Seq<Seq<char>>
    decreases entries.len(),
{
    if entries.len() == 0 {
        Seq::empty()
    } else {
        let before = continuations(c, entries.drop_last());
        match continuation(c, entries.last()) {
            Some(id) => before.push(id),
            None => before,
        }
    }
}

/// The episodes to watch next, given the watched episodes.
pub open spec fn next_up_spec(c: Seq<CollectionView>, watched: Seq<Seq<char>>) -> Seq<Seq<char>> {
    continuations(c, progress(c, watched))
}

/// Whether a display name holds the term, whatever the case of its letters.
/// The term is taken in lower case.
pub open spec fn name_matches(name: Seq<char>, lowered_term: Seq<char>) -> bool {
    contains_text(lowercase(name), lowered_term)
}

/// The identifier of an item as a list, where its name holds the term.
pub open spec fn hit(name: Seq<char>, id: Seq<char>, lowered_term: Seq<char>) -> Seq<Seq<char>> {
    if name_matches(name, lowered_term) {
        seq![id]
    } else {
        Seq::empty()
    }
}

/// The identifiers of the episodes whose names hold the term.
pub open spec fn episode_hits(e: Seq<EpisodeView>, lowered_term: Seq<char>) -> Seq<Seq<char>>
    decreases e.len(),
{
    if e.len() == 0 {
        Seq::empty()
    } else {
        episode_hits(e.drop_last(), lowered_term) + hit(e.last().name, e.last().id, lowered_term)
    }
}

/// The identifiers of the seasons and episodes whose names hold the term:
/// each season before its episodes.
pub open spec fn season_hits(s: Seq<SeasonView>, lowered_term: Seq<char>) -> Seq<Seq<char>>
    decreases s.len(),
{
    if s.len() == 0 {
        Seq::empty()
    } else {
        season_hits(s.drop_last(), lowered_term) + hit(s.last().name, s.last().id, lowered_term)
            + episode_hits(s.last().episodes, lowered_term)
    }
}

/// The identifiers that one item of a collection gives: its own where its
/// name holds the term and, for a show, those of its seasons and episodes.
pub open spec fn item_hits(item: ItemView, lowered_term: Seq<char>) -> Seq<Seq<char>> {
    match item {
        ItemView::Show(s) => hit(s.name, s.id, lowered_term) + season_hits(s.seasons, lowered_term),
        _ => hit(item.name(), item.id(), lowered_term),
    }
}

/// The identifiers that a list of items gives, in the order of the items.
pub open spec fn items_hits(items: Seq<ItemView>, lowered_term: Seq<char>) -> Seq<Seq<char>>
    decreases items.len(),
{
    if items.len() == 0 {
        Seq::empty()
    } else {
        items_hits(items.drop_last(), lowered_term) + item_hits(items.last(), lowered_term)
    }
}

/// The identifiers of all items of a catalog whose names hold the term, in
/// the order of the catalog.
pub open spec fn search_hits(c: Seq<CollectionView>, lowered_term: Seq<char>) -> Seq<Seq<char>>
    decreases c.len(),
{
    if c.len() == 0 {
        Seq::empty()
    } else {
        search_hits(c.drop_last(), lowered_term) + items_hits(c.last().items, lowered_term)
    }
}

/// A collection with the items that a listing of its directory gives.
pub open spec fn rescanned(c: CollectionView, tree: DirTree, now: int) -> CollectionView {
    CollectionView {
        items: match c.collection_type {
            CollectionType::Movies => movies_below(tree.branches@, now),
            CollectionType::Shows => shows_below(tree.branches@, now),
        },
        ..c
    }
}

/// A catalog rebuilt from listings: the collection at each index gets the
/// items that the listing at that index gives; a collection without a
/// listing stays as it is.
pub open spec fn rebuilt(c: Seq<CollectionView>, trees: Seq<DirTree>, now: int) -> Seq<
    CollectionView,
> {
    Seq::new(
        c.len(),
        |k: int|
            if k < trees.len() {
                rescanned(c[k], trees[k], now)
            } else {
                c[k]
            },
    )
}

/// The details of a whole catalog: those of its collections taken together,
/// in order.
pub open spec fn catalog_details(c: Seq<CollectionView>) -> DetailsView
    decreases c.len(),
{
    if c.len() == 0 {
        no_details()
    } else {
        merged(catalog_details(c.drop_last()), with_items(no_details(), c.last().items))
    }
}

/// Whether an item or, in a show, one of its seasons or episodes carries
/// the identifier.
pub open spec fn item_holds(item: ItemView, id: Seq<char>) -> bool {
    item.id() == id || (item is Show && exists|j: int|
        0 <= j < seasons_of(item).len() && season_holds(#[trigger] seasons_of(item)[j], id))
}

/// Whether a season or one of its episodes carries the identifier.
pub open spec fn season_holds(s: SeasonView, id: Seq<char>) -> bool {
    s.id == id || exists|k: int| 0 <= k < s.episodes.len() && (#[trigger] s.episodes[k]).id == id
}

proof fn lemma_episode_index_none(e: Seq<EpisodeView>, id: Seq<char>, from: int)
    requires
        0 <= from,
        episode_index(e, id, from) is None,
    ensures
        forall|k: int| from <= k < e.len() ==> (#[trigger] e[k]).id != id,
    decreases e.len() - from,
{
    if from < e.len() {
        lemma_episode_index_none(e, id, from + 1);
    }
}

proof fn lemma_find_in_seasons_none(s: Seq<SeasonView>, id: Seq<char>, from: int)
    requires
        0 <= from,
        find_in_seasons(s, id, from) is None,
    ensures
        forall|j: int| from <= j < s.len() ==> !season_holds(#[trigger] s[j], id),
    decreases s.len() - from,
{
    if from < s.len() {
        lemma_episode_index_none(s[from].episodes, id, 0);
        lemma_find_in_seasons_none(s, id, from + 1);
    }
}

/// A look-up finds nothing only where nothing is to be found: no item of
/// the list, no season and no episode of a show in it carries the
/// identifier.
pub proof fn lemma_not_found_means_absent(items: Seq<ItemView>, id: Seq<char>, from: int)
    requires
        0 <= from,
        find_item(items, id, from) is None,
    ensures
        forall|i: int| from <= i < items.len() ==> !item_holds(#[trigger] items[i], id),
    decreases items.len() - from,
{
    if from < items.len() {
        lemma_not_found_means_absent(items, id, from + 1);
        match items[from] {
            ItemView::Show(s) => {
                lemma_find_in_seasons_none(s.seasons, id, 0);
            },
            _ => {},
        }
    }
}

/// An item found for an identifier carries that identifier.
pub proof fn lemma_found_item_has_id(items: Seq<ItemView>, id: Seq<char>, from: int)
    requires
        find_item(items, id, from) is Some,
    ensures
        find_item(items, id, from)->0.id() == id,
    decreases items.len() - from,
{
    if 0 <= from < items.len() {
        if find_in_item(items[from], id) is Some {
            match items[from] {
                ItemView::Show(s) => {
                    if s.id != id {
                        lemma_found_in_seasons_has_id(s.seasons, id, 0);
                    }
                },
                _ => {},
            }
        } else {
            lemma_found_item_has_id(items, id, from + 1);
        }
    }
}

proof fn lemma_found_episode_has_id(e: Seq<EpisodeView>, id: Seq<char>, from: int)
    requires
        episode_index(e, id, from) is Some,
    ensures
        from <= episode_index(e, id, from)->0 < e.len(),
        e[episode_index(e, id, from)->0].id == id,
    decreases e.len() - from,
{
    if 0 <= from < e.len() && e[from].id != id {
        lemma_found_episode_has_id(e, id, from + 1);
    }
}

proof fn lemma_found_in_seasons_has_id(s: Seq<SeasonView>, id: Seq<char>, from: int)
    requires
        find_in_seasons(s, id, from) is Some,
    ensures
        find_in_seasons(s, id, from)->0.id() == id,
    decreases s.len() - from,
{
    if 0 <= from < s.len() {
        if s[from].id == id {
        } else if episode_index(s[from].episodes, id, 0) is Some {
            lemma_found_episode_has_id(s[from].episodes, id, 0);
        } else {
            lemma_found_in_seasons_has_id(s, id, from + 1);
        }
    }
}

/// A rebuild keeps the collections as they are but for their items: their
/// number, order, identifiers, names, types and directories stay.
pub proof fn lemma_rebuilt_keeps_collections(c: Seq<CollectionView>, trees: Seq<DirTree>, now: int)
    ensures
        rebuilt(c, trees, now).len() == c.len(),
        forall|k: int|
            0 <= k < c.len() ==> #[trigger] rebuilt(c, trees, now)[k] == (CollectionView {
                items: rebuilt(c, trees, now)[k].items,
                ..c[k]
            }),
{
}

/// Whether no two entries are for the same show.
pub open spec fn one_entry_per_show(entries: Seq<Progress>) -> bool {
    forall|i: int, j: int|
        0 <= i < j < entries.len() ==> (#[trigger] entries[i]).show_id != (
        #[trigger] entries[j]).show_id
}

proof fn lemma_entry_index(entries: Seq<Progress>, show_id: Seq<char>, from: int)
    requires
        0 <= from,
    ensures
        match entry_index(entries, show_id, from) {
            Some(k) => from <= k < entries.len() && entries[k].show_id == show_id,
            None => forall|i: int| from <= i < entries.len() ==> (#[trigger] entries[i]).show_id
                != show_id,
        },
    decreases entries.len() - from,
{
    if from < entries.len() && entries[from].show_id != show_id {
        lemma_entry_index(entries, show_id, from + 1);
    }
}

/// However many episodes of a show were watched, the show has one entry, so
/// `next_up` gives at most one episode for it.
pub proof fn lemma_one_entry_per_show(c: Seq<CollectionView>, watched: Seq<Seq<char>>)
    ensures
        one_entry_per_show(progress(c, watched)),
        next_up_spec(c, watched).len() <= progress(c, watched).len(),
    decreases watched.len(),
{
    if watched.len() > 0 {
        lemma_one_entry_per_show(c, watched.drop_last());
        let before = progress(c, watched.drop_last());
        match locate(c, watched.last()) {
            Some(p) => {
                lemma_entry_index(before, p.show_id, 0);
                let after = record(before, p);
                assert forall|i: int, j: int| 0 <= i < j < after.len() implies (
                #[trigger] after[i]).show_id != (#[trigger] after[j]).show_id by {
                    match entry_index(before, p.show_id, 0) {
                        Some(k) => {
                            assert(after[i].show_id == before[i].show_id);
                            assert(after[j].show_id == before[j].show_id);
                        },
                        None => {
                            if j < before.len() {
                                assert(after[i] == before[i] && after[j] == before[j]);
                            } else {
                                assert(after[i] == before[i]);
                            }
                        },
                    }
                }
            },
            None => {},
        }
    }
    lemma_continuations_len(c, progress(c, watched));
}

proof fn lemma_continuations_len(c: Seq<CollectionView>, entries: Seq<Progress>)
    ensures
        continuations(c, entries).len() <= entries.len(),
    decreases entries.len(),
{
    if entries.len() > 0 {
        lemma_continuations_len(c, entries.drop_last());
    }
}

/// Whether the entries take account of a watched episode: its show has an
/// entry, and the episode does not lie later than that entry says.
pub open spec fn covered(entries: Seq<Progress>, p: Progress) -> bool {
    exists|j: int|
        0 <= j < entries.len() && (#[trigger] entries[j]).show_id == p.show_id && !is_later(
            p,
            entries[j],
        )
}

proof fn lemma_record_keeps_covered(entries: Seq<Progress>, q: Progress, p: Progress)
    requires
        covered(entries, p),
    ensures
        covered(record(entries, q), p),
{
    let j = choose|j: int|
        0 <= j < entries.len() && (#[trigger] entries[j]).show_id == p.show_id && !is_later(
            p,
            entries[j],
        );
    let after = record(entries, q);
    lemma_entry_index(entries, q.show_id, 0);
    match entry_index(entries, q.show_id, 0) {
        Some(k) => {
            if is_later(q, entries[k]) && k == j {
                assert(after[j] == q);
                assert(after[j].show_id == p.show_id && !is_later(p, after[j]));
            } else {
                assert(after[j] == entries[j]);
            }
        },
        None => {
            assert(after[j] == entries[j]);
        },
    }
}

proof fn lemma_record_covers(entries: Seq<Progress>, q: Progress)
    ensures
        covered(record(entries, q), q),
{
    let after = record(entries, q);
    lemma_entry_index(entries, q.show_id, 0);
    match entry_index(entries, q.show_id, 0) {
        Some(k) => {
            if is_later(q, entries[k]) {
                assert(after[k] == q);
            } else {
                assert(after[k] == entries[k]);
            }
            assert(after[k].show_id == q.show_id && !is_later(q, after[k]));
        },
        None => {
            let k = entries.len() as int;
            assert(after[k] == q);
            assert(after[k].show_id == q.show_id && !is_later(q, after[k]));
        },
    }
}

/// The entry of a show says the latest of its watched episodes: no watched
/// episode of the show lies later, by season and episode number, than the
/// entry.
pub proof fn lemma_entry_is_latest(c: Seq<CollectionView>, watched: Seq<Seq<char>>, k: int)
    requires
        0 <= k < watched.len(),
        locate(c, watched[k]) is Some,
    ensures
        covered(progress(c, watched), locate(c, watched[k])->0),
    decreases watched.len(),
{
    let before = progress(c, watched.drop_last());
    let p = locate(c, watched[k])->0;
    if k == watched.len() - 1 {
        lemma_record_covers(before, p);
    } else {
        assert(watched.drop_last()[k] == watched[k]);
        lemma_entry_is_latest(c, watched.drop_last(), k);
        match locate(c, watched.last()) {
            Some(q) => {
                lemma_record_keeps_covered(before, q, p);
            },
            None => {},
        }
    }
}

/// Whether an item is of the kind that a collection of this type holds, and
/// in order: a movie in a collection of movies; in a collection of shows a
/// show whose seasons and episodes stand in ascending order, each episode
/// with the number of its season.
pub open spec fn item_fits(kind: CollectionType, item: ItemView) -> bool {
    match kind {
        CollectionType::Movies => item is Movie,
        CollectionType::Shows => item is Show && show_in_order(show_of_item(item)),
    }
}

/// Whether every item of a collection is of the collection's kind and in
/// order.
pub open spec fn collection_in_order(c: CollectionView) -> bool {
    forall|i: int| 0 <= i < c.items.len() ==> item_fits(c.collection_type, #[trigger] c.items[i])
}

/// Whether every collection of a catalog is in order.
pub open spec fn catalog_in_order(c: Seq<CollectionView>) -> bool {
    forall|k: int| 0 <= k < c.len() ==> collection_in_order(#[trigger] c[k])
}

/// A collection that got its items from a listing is in order, whatever it
/// held before.
pub proof fn lemma_rescanned_in_order(c: CollectionView, tree: DirTree, now: int)
    ensures
        collection_in_order(rescanned(c, tree, now)),
{
    let r = rescanned(c, tree, now);
    match c.collection_type {
        CollectionType::Movies => {
            lemma_movies_below_are_movies(tree.branches@, now);
        },
        CollectionType::Shows => {
            assert forall|i: int| 0 <= i < r.items.len() implies item_fits(
                r.collection_type,
                #[trigger] r.items[i],
            ) by {
                lemma_show_in_order(tree.branches@[i], now);
            }
        },
    }
}

/// A rebuild keeps a catalog in order.
pub proof fn lemma_rebuilt_in_order(c: Seq<CollectionView>, trees: Seq<DirTree>, now: int)
    requires
        catalog_in_order(c),
    ensures
        catalog_in_order(rebuilt(c, trees, now)),
{
    let r = rebuilt(c, trees, now);
    assert forall|k: int| 0 <= k < r.len() implies collection_in_order(#[trigger] r[k]) by {
        if k < trees.len() {
            lemma_rescanned_in_order(c[k], trees[k], now);
        } else {
            assert(r[k] == c[k]);
        }
    }
}

/// The mathematical value of an item that may be there.
pub open spec fn item_ref_view(r: Option<ItemRef>) -> Option<ItemView> {
    match r {
        Some(i) => Some(i@),
        None => None,
    }
}

/// A repository of collections: one catalog.
#[derive(Debug)]
pub struct CollectionRepo {
    collections: Vec<Collection>,
}

impl Clone for CollectionRepo {
    /// A copy with the same value.
    fn clone(&self) -> (r: Self)
        ensures
            r@ == self@,
    {
        let r = CollectionRepo { collections: self.collections.clone() };
        assert(views(r.collections@) =~= views(self.collections@));
        r
    }
}

impl Default for CollectionRepo {
    fn default() -> (r: Self)
        ensures
            r@ == Seq::<CollectionView>::empty(),
    {
        CollectionRepo::new()
    }
}

impl View for CollectionRepo {
    type V = Seq<CollectionView>;

    closed spec fn view(&self) -> Seq<CollectionView> {
        views(self.collections@)
    }
}

/// The message for a collection type that is not known.
pub open spec fn unknown_type_message(collection_type: Seq<char>) -> Seq<char> {
    "Unknown collection type: "@ + collection_type
}

/// The collection that `add_collection` makes of its arguments.
pub open spec fn new_collection(
    name: Seq<char>,
    id: Option<Seq<char>>,
    kind: CollectionType,
    directory: Seq<char>,
    hls_server: Seq<char>,
) -> CollectionView {
    CollectionView {
        id: match id {
            Some(i) => i,
            None => id_hash_spec(name),
        },
        name,
        collection_type: kind,
        items: Seq::empty(),
        directory,
        hls_server,
    }
}

/// The characters of a text that may be missing.
pub open spec fn text_of(s: Option<String>) -> Option<Seq<char>> {
    match s {
        Some(t) => Some(t@),
        None => None,
    }
}

/// Makes a collection without items. The identifier is the one given or,
/// where none is given, the hash of the name. A collection type other than
/// `movies` or `shows` is an error.
pub fn make_collection(
    name: String,
    id: Option<String>,
    collection_type: &str,
    directory: String,
    hls_server: String,
) -> (r: Result<Collection, String>)
    ensures
        match r {
            Ok(c) => kind_of_name(collection_type@) is Some && c@ == new_collection(
                name@,
                text_of(id),
                kind_of_name(collection_type@)->0,
                directory@,
                hls_server@,
            ),
            Err(e) => kind_of_name(collection_type@) is None && e@ == unknown_type_message(
                collection_type@,
            ),
        },
{
    match CollectionType::from_str(collection_type) {
        Some(kind) => {
            let collection_id = match id {
                Some(i) => i,
                None => id_hash(name.as_str()),
            };
            Ok(Collection::new(collection_id, name, kind, directory, hls_server))
        },
        None => {
            let mut message: Vec<char> = Vec::new();
            push_str(&mut message, "Unknown collection type: ");
            push_str(&mut message, collection_type);
            Err(string_of(&message))
        },
    }
}

/// The first episode with this identifier at or after `from`.
fn find_episode<'a>(episodes: &'a Vec<Episode>, id: &String) -> (r: Option<usize>)
    ensures
        match r {
            Some(k) => episode_index(views(episodes@), id@, 0) == Some(k as int) && k
                < episodes@.len(),
            None => episode_index(views(episodes@), id@, 0) is None,
        },
{
    let mut k: usize = 0;
    while k < episodes.len()
        invariant
            k <= episodes.len(),
            episode_index(views(episodes@), id@, 0) == episode_index(
                views(episodes@),
                id@,
                k as int,
            ),
        decreases episodes.len() - k,
    {
        if episodes[k].id == *id {
            return Some(k);
        }
        k = k + 1;
    }
    None
}

/// The first match for an identifier among seasons and their episodes.
fn search_seasons<'a>(seasons: &'a Vec<Season>, id: &String) -> (r: Option<ItemRef<'a>>)
    ensures
        item_ref_view(r) == find_in_seasons(views(seasons@), id@, 0),
{
    let mut k: usize = 0;
    while k < seasons.len()
        invariant
            k <= seasons.len(),
            find_in_seasons(views(seasons@), id@, 0) == find_in_seasons(
                views(seasons@),
                id@,
                k as int,
            ),
        decreases seasons.len() - k,
    {
        let season = &seasons[k];
        if season.id == *id {
            return Some(ItemRef::Season(season));
        }
        if let Some(e) = find_episode(&season.episodes, id) {
            return Some(ItemRef::Episode(&season.episodes[e]));
        }
        k = k + 1;
    }
    None
}

/// The first match for an identifier in one item.
fn search_item<'a>(item: &'a Item, id: &String) -> (r: Option<ItemRef<'a>>)
    ensures
        item_ref_view(r) == find_in_item(item@, id@),
{
    match item {
        Item::Movie(m) => if m.id == *id {
            Some(ItemRef::Movie(m))
        } else {
            None
        },
        Item::Show(s) => if s.id == *id {
            Some(ItemRef::Show(s))
        } else {
            search_seasons(&s.seasons, id)
        },
        Item::Season(s) => if s.id == *id {
            Some(ItemRef::Season(s))
        } else {
            None
        },
        Item::Episode(e) => if e.id == *id {
            Some(ItemRef::Episode(e))
        } else {
            None
        },
    }
}

/// The first match for an identifier among the items of a collection.
fn search_items<'a>(items: &'a Vec<Item>, id: &String) -> (r: Option<ItemRef<'a>>)
    ensures
        item_ref_view(r) == find_item(views(items@), id@, 0),
{
    let mut k: usize = 0;
    while k < items.len()
        invariant
            k <= items.len(),
            find_item(views(items@), id@, 0) == find_item(views(items@), id@, k as int),
        decreases items.len() - k,
    {
        let found = search_item(&items[k], id);
        if found.is_some() {
            return found;
        }
        k = k + 1;
    }
    None
}

/// The first season with this identifier.
fn find_season(seasons: &Vec<Season>, id: &String) -> (r: Option<usize>)
    ensures
        match r {
            Some(k) => season_index(views(seasons@), id@, 0) == Some(k as int) && k < seasons@.len(),
            None => season_index(views(seasons@), id@, 0) is None,
        },
{
    let mut k: usize = 0;
    while k < seasons.len()
        invariant
            k <= seasons.len(),
            season_index(views(seasons@), id@, 0) == season_index(views(seasons@), id@, k as int),
        decreases seasons.len() - k,
    {
        if seasons[k].id == *id {
            return Some(k);
        }
        k = k + 1;
    }
    None
}

/// The first season that holds an episode with this identifier, and the
/// first such episode in it.
fn find_episode_in_seasons(seasons: &Vec<Season>, id: &String) -> (r: Option<(usize, usize)>)
    ensures
        match r {
            Some(p) => episode_in_seasons(views(seasons@), id@, 0) == Some((p.0 as int, p.1 as int))
                && p.0 < seasons@.len() && p.1 < seasons@[p.0 as int].episodes@.len(),
            None => episode_in_seasons(views(seasons@), id@, 0) is None,
        },
{
    let mut k: usize = 0;
    while k < seasons.len()
        invariant
            k <= seasons.len(),
            episode_in_seasons(views(seasons@), id@, 0) == episode_in_seasons(
                views(seasons@),
                id@,
                k as int,
            ),
        decreases seasons.len() - k,
    {
        if let Some(e) = find_episode(&seasons[k].episodes, id) {
            return Some((k, e));
        }
        k = k + 1;
    }
    None
}

/// The first show among the items that holds an episode with this
/// identifier, with its season and the episode.
fn find_episode_in_items<'a>(items: &'a Vec<Item>, id: &String) -> (r: Option<
    (&'a Show, &'a Season, &'a Episode),
>)
    ensures
        match r {
            Some((show, season, episode)) => {
                let place = episode_in_items(views(items@), id@, 0);
                let (i, j, k) = place->0;
                &&& place is Some
                &&& views(items@)[i] == ItemView::Show(show@)
                &&& show@.seasons[j] == season@
                &&& season@.episodes[k] == episode@
                &&& 0 <= j < show@.seasons.len()
                &&& 0 <= k < season@.episodes.len()
            },
            None => episode_in_items(views(items@), id@, 0) is None,
        },
{
    let mut k: usize = 0;
    while k < items.len()
        invariant
            k <= items.len(),
            episode_in_items(views(items@), id@, 0) == episode_in_items(
                views(items@),
                id@,
                k as int,
            ),
        decreases items.len() - k,
    {
        match &items[k] {
            Item::Show(show) => {
                assert(seasons_of(views(items@)[k as int]) == views(show.seasons@));
                if let Some(p) = find_episode_in_seasons(&show.seasons, id) {
                    let season = &show.seasons[p.0];
                    return Some((show, season, &season.episodes[p.1]));
                }
            },
            _ => {
                assert(seasons_of(views(items@)[k as int]) == Seq::<SeasonView>::empty());
            },
        }
        k = k + 1;
    }
    None
}

/// The first show among the items that holds a season with this identifier,
/// with the season.
fn find_season_in_items<'a>(items: &'a Vec<Item>, id: &String) -> (r: Option<
    (&'a Show, &'a Season),
>)
    ensures
        match r {
            Some((show, season)) => {
                let place = season_in_items(views(items@), id@, 0);
                let (i, j) = place->0;
                &&& place is Some
                &&& views(items@)[i] == ItemView::Show(show@)
                &&& show@.seasons[j] == season@
                &&& 0 <= j < show@.seasons.len()
            },
            None => season_in_items(views(items@), id@, 0) is None,
        },
{
    let mut k: usize = 0;
    while k < items.len()
        invariant
            k <= items.len(),
            season_in_items(views(items@), id@, 0) == season_in_items(views(items@), id@, k as int),
        decreases items.len() - k,
    {
        match &items[k] {
            Item::Show(show) => {
                assert(seasons_of(views(items@)[k as int]) == views(show.seasons@));
                if let Some(p) = find_season(&show.seasons, id) {
                    return Some((show, &show.seasons[p]));
                }
            },
            _ => {
                assert(seasons_of(views(items@)[k as int]) == Seq::<SeasonView>::empty());
            },
        }
        k = k + 1;
    }
    None
}

/// The index of the entry for this show.
fn find_entry(entries: &Vec<ShowEntry>, show_id: &String) -> (r: Option<usize>)
    ensures
        match r {
            Some(k) => entry_index(views(entries@), show_id@, 0) == Some(k as int) && k
                < entries@.len(),
            None => entry_index(views(entries@), show_id@, 0) is None,
        },
{
    let mut k: usize = 0;
    while k < entries.len()
        invariant
            k <= entries.len(),
            entry_index(views(entries@), show_id@, 0) == entry_index(
                views(entries@),
                show_id@,
                k as int,
            ),
        decreases entries.len() - k,
    {
        if entries[k].show_id == *show_id {
            return Some(k);
        }
        k = k + 1;
    }
    None
}

/// Takes note of a watched episode in the entries.
fn record_entry(entries: &mut Vec<ShowEntry>, e: ShowEntry)
    ensures
        views(final(entries)@) == record(views(old(entries)@), e@),
{
    let ghost before = entries@;
    match find_entry(entries, &e.show_id) {
        Some(k) => {
            let later = e.season_no > entries[k].season_no || (e.season_no == entries[k].season_no
                && e.episode_no > entries[k].episode_no);
            assert(later == is_later(e@, views(before)[k as int]));
            if later {
                entries.set(k, e);
                assert(views(entries@) =~= views(before).update(k as int, e@));
            }
        },
        None => {
            entries.push(e);
            assert(views(entries@) =~= views(before).push(e@));
        },
    }
}

/// The episode that follows the one at index `ei` of the season at index
/// `si` of a show.
fn next_episode<'a>(show: &'a Show, si: usize, ei: usize) -> (r: Option<&'a Episode>)
    ensures
        match r {
            Some(e) => next_in_show(show@, si as int, ei as int) == Some(e@.id),
            None => next_in_show(show@, si as int, ei as int) is None,
        },
{
    if si >= show.seasons.len() {
        return None;
    }
    let season = &show.seasons[si];
    if ei < season.episodes.len() && season.episodes.len() - ei > 1 {
        Some(&season.episodes[ei + 1])
    } else if show.seasons.len() - si > 1 && show.seasons[si + 1].episodes.len() > 0 {
        Some(&show.seasons[si + 1].episodes[0])
    } else {
        None
    }
}

/// Appends `id` where `name` holds the term.
fn push_hit(out: &mut Vec<String>, name: &String, id: &String, term: &Vec<char>)
    ensures
        views(final(out)@) == views(old(out)@) + hit(name@, id@, term@),
{
    let lowered = name.as_str().to_lowercase();
    let hay = chars_of(lowered.as_str());
    if contains_chars(&hay, term) {
        let copy = id.clone();
        out.push(copy);
        assert(views(out@) =~= views(old(out)@) + seq![id@]);
    } else {
        assert(views(out@) =~= views(old(out)@) + Seq::<Seq<char>>::empty());
    }
}

/// Appends the identifiers of the episodes whose names hold the term.
fn push_episode_hits(out: &mut Vec<String>, episodes: &Vec<Episode>, term: &Vec<char>)
    ensures
        views(final(out)@) == views(old(out)@) + episode_hits(views(episodes@), term@),
{
    let ghost all = views(episodes@);
    let mut k: usize = 0;
    assert(views(out@) =~= views(old(out)@) + episode_hits(all.take(0), term@));
    while k < episodes.len()
        invariant
            k <= episodes.len(),
            all == views(episodes@),
            views(out@) == views(old(out)@) + episode_hits(all.take(k as int), term@),
        decreases episodes.len() - k,
    {
        let ghost before = views(out@);
        proof {
            assert(all.take(k + 1).drop_last() == all.take(k as int));
            assert(all.take(k + 1).last() == episodes@[k as int]@);
        }
        push_hit(out, &episodes[k].name, &episodes[k].id, term);
        assert(views(out@) =~= views(old(out)@) + episode_hits(all.take(k + 1), term@));
        k = k + 1;
    }
    assert(all.take(k as int) == all);
}

/// Appends the identifiers of the seasons and episodes whose names hold the
/// term.
fn push_season_hits(out: &mut Vec<String>, seasons: &Vec<Season>, term: &Vec<char>)
    ensures
        views(final(out)@) == views(old(out)@) + season_hits(views(seasons@), term@),
{
    let ghost all = views(seasons@);
    let mut k: usize = 0;
    assert(views(out@) =~= views(old(out)@) + season_hits(all.take(0), term@));
    while k < seasons.len()
        invariant
            k <= seasons.len(),
            all == views(seasons@),
            views(out@) == views(old(out)@) + season_hits(all.take(k as int), term@),
        decreases seasons.len() - k,
    {
        proof {
            assert(all.take(k + 1).drop_last() == all.take(k as int));
            assert(all.take(k + 1).last() == seasons@[k as int]@);
        }
        push_hit(out, &seasons[k].name, &seasons[k].id, term);
        push_episode_hits(out, &seasons[k].episodes, term);
        assert(views(out@) =~= views(old(out)@) + season_hits(all.take(k + 1), term@));
        k = k + 1;
    }
    assert(all.take(k as int) == all);
}

/// Appends the identifiers that one item gives.
fn push_item_hits(out: &mut Vec<String>, item: &Item, term: &Vec<char>)
    ensures
        views(final(out)@) == views(old(out)@) + item_hits(item@, term@),
{
    match item {
        Item::Movie(m) => push_hit(out, &m.name, &m.id, term),
        Item::Show(s) => {
            push_hit(out, &s.name, &s.id, term);
            push_season_hits(out, &s.seasons, term);
            assert(views(out@) =~= views(old(out)@) + item_hits(item@, term@));
        },
        Item::Season(s) => push_hit(out, &s.name, &s.id, term),
        Item::Episode(e) => push_hit(out, &e.name, &e.id, term),
    }
}

/// Appends the identifiers that a list of items gives.
fn push_items_hits(out: &mut Vec<String>, items: &Vec<Item>, term: &Vec<char>)
    ensures
        views(final(out)@) == views(old(out)@) + items_hits(views(items@), term@),
{
    let ghost all = views(items@);
    let mut k: usize = 0;
    assert(views(out@) =~= views(old(out)@) + items_hits(all.take(0), term@));
    while k < items.len()
        invariant
            k <= items.len(),
            all == views(items@),
            views(out@) == views(old(out)@) + items_hits(all.take(k as int), term@),
        decreases items.len() - k,
    {
        proof {
            assert(all.take(k + 1).drop_last() == all.take(k as int));
            assert(all.take(k + 1).last() == items@[k as int]@);
        }
        push_item_hits(out, &items[k], term);
        assert(views(out@) =~= views(old(out)@) + items_hits(all.take(k + 1), term@));
        k = k + 1;
    }
    assert(all.take(k as int) == all);
}

impl CollectionRepo {
    /// A repository without collections.
    pub fn new() -> (r: Self)
        ensures
            r@ == Seq::<CollectionView>::empty(),
    {
        let r = CollectionRepo { collections: Vec::new() };
        assert(r@ =~= Seq::<CollectionView>::empty());
        r
    }

    /// A repository of the given collections.
    pub fn with_collections(collections: Vec<Collection>) -> (r: Self)
        ensures
            r@ == views(collections@),
    {
        CollectionRepo { collections }
    }

    /// Adds a collection at the end.
    pub fn push_collection(&mut self, collection: Collection)
        ensures
            final(self)@ == old(self)@.push(collection@),
    {
        let ghost before = self.collections@;
        self.collections.push(collection);
        assert(views(self.collections@) =~= views(before).push(collection@));
    }

    /// Adds a collection without items at the end. The identifier is the
    /// one given or, where none is given, the hash of the name. A collection
    /// type other than `movies` or `shows` is an error, and the repository
    /// stays as it is.
    pub fn add_collection(
        &mut self,
        name: String,
        id: Option<String>,
        collection_type: &str,
        directory: String,
        hls_server: String,
    ) -> (r: Result<(), String>)
        ensures
            match r {
                Ok(_) => kind_of_name(collection_type@) is Some && final(self)@ == old(self)@.push(
                    new_collection(
                        name@,
                        text_of(id),
                        kind_of_name(collection_type@)->0,
                        directory@,
                        hls_server@,
                    ),
                ),
                Err(e) => kind_of_name(collection_type@) is None && final(self)@ == old(self)@ && e@
                    == unknown_type_message(collection_type@),
            },
    {
        match make_collection(name, id, collection_type, directory, hls_server) {
            Ok(collection) => {
                self.push_collection(collection);
                Ok(())
            },
            Err(e) => Err(e),
        }
    }

    /// All collections, in the order in which they were added.
    pub fn get_collections(&self) -> (r: &Vec<Collection>)
        ensures
            views(r@) == self@,
    {
        &self.collections
    }

    /// The first collection with this identifier.
    pub fn get_collection(&self, collection_id: &str) -> (r: Option<&Collection>)
        ensures
            match r {
                Some(c) => collection_index(self@, collection_id@, 0) is Some && c@
                    == self@[collection_index(self@, collection_id@, 0)->0],
                None => collection_index(self@, collection_id@, 0) is None,
            },
    {
        let id = collection_id.to_owned();
        let mut k: usize = 0;
        while k < self.collections.len()
            invariant
                k <= self.collections.len(),
                id@ == collection_id@,
                collection_index(self@, id@, 0) == collection_index(self@, id@, k as int),
            decreases self.collections.len() - k,
        {
            if self.collections[k].id == id {
                return Some(&self.collections[k]);
            }
            k = k + 1;
        }
        None
    }

    /// The item with identifier `item_id` in the collection with identifier
    /// `collection_id`: the first match when the items are searched in
    /// order, each show before its seasons, each season before its episodes.
    pub fn get_item(&self, collection_id: &str, item_id: &str) -> (r: Option<ItemRef<'_>>)
        ensures
            item_ref_view(r) == item_in(self@, collection_id@, item_id@),
    {
        let id = item_id.to_owned();
        match self.get_collection(collection_id) {
            Some(c) => search_items(&c.items, &id),
            None => None,
        }
    }

    /// The item with this identifier and the collection that holds it: the
    /// first collection, in order, in which a look-up by the collection's
    /// identifier finds the item.
    pub fn get_item_by_id(&self, item_id: &str) -> (r: Option<(&Collection, ItemRef<'_>)>)
        ensures
            match r {
                Some((c, i)) => item_by_id(self@, item_id@, 0) == Some((c@, i@)),
                None => item_by_id(self@, item_id@, 0) is None,
            },
    {
        let mut k: usize = 0;
        while k < self.collections.len()
            invariant
                k <= self.collections.len(),
                item_by_id(self@, item_id@, 0) == item_by_id(self@, item_id@, k as int),
            decreases self.collections.len() - k,
        {
            let c = &self.collections[k];
            if let Some(i) = self.get_item(c.id.as_str(), item_id) {
                return Some((c, i));
            }
            k = k + 1;
        }
        None
    }

    /// The first season with this identifier, with the show and the
    /// collection that hold it. Seasons are looked for in the shows that
    /// stand directly in a collection.
    pub fn get_season_by_id(&self, season_id: &str) -> (r: Option<(&Collection, &Show, &Season)>)
        ensures
            match r {
                Some((c, show, season)) => {
                    let place = season_place(self@, season_id@, 0);
                    &&& place is Some
                    &&& self@[place->0.collection] == c@
                    &&& c@.items[place->0.item] == ItemView::Show(show@)
                    &&& show@.seasons[place->0.season] == season@
                },
                None => season_place(self@, season_id@, 0) is None,
            },
    {
        let id = season_id.to_owned();
        let mut k: usize = 0;
        while k < self.collections.len()
            invariant
                k <= self.collections.len(),
                id@ == season_id@,
                season_place(self@, id@, 0) == season_place(self@, id@, k as int),
            decreases self.collections.len() - k,
        {
            let c = &self.collections[k];
            if let Some((show, season)) = find_season_in_items(&c.items, &id) {
                return Some((c, show, season));
            }
            k = k + 1;
        }
        None
    }

    /// The first episode with this identifier, with the season, the show and
    /// the collection that hold it. Episodes are looked for in the shows
    /// that stand directly in a collection.
    pub fn get_episode_by_id(&self, episode_id: &str) -> (r: Option<
        (&Collection, &Show, &Season, &Episode),
    >)
        ensures
            match r {
                Some((c, show, season, episode)) => {
                    let place = episode_place(self@, episode_id@, 0);
                    &&& place is Some
                    &&& self@[place->0.collection] == c@
                    &&& c@.items[place->0.item] == ItemView::Show(show@)
                    &&& show@.seasons[place->0.season] == season@
                    &&& season@.episodes[place->0.episode] == episode@
                },
                None => episode_place(self@, episode_id@, 0) is None,
            },
    {
        let id = episode_id.to_owned();
        let mut k: usize = 0;
        while k < self.collections.len()
            invariant
                k <= self.collections.len(),
                id@ == episode_id@,
                episode_place(self@, id@, 0) == episode_place(self@, id@, k as int),
            decreases self.collections.len() - k,
        {
            let c = &self.collections[k];
            if let Some((show, season, episode)) = find_episode_in_items(&c.items, &id) {
                return Some((c, show, season, episode));
            }
            k = k + 1;
        }
        None
    }

    /// What a watched episode says of its show.
    fn locate_episode(&self, episode_id: &str) -> (r: Option<ShowEntry>)
        ensures
            match r {
                Some(e) => locate(self@, episode_id@) == Some(e@),
                None => locate(self@, episode_id@) is None,
            },
    {
        match self.get_episode_by_id(episode_id) {
            Some((collection, show, season, episode)) => {
                match collection.collection_type {
                    CollectionType::Shows => {},
                    CollectionType::Movies => {
                        return None;
                    },
                }
                let si = match find_season(&show.seasons, &season.id) {
                    Some(si) => si,
                    None => {
                        return None;
                    },
                };
                let ei = match find_episode(&show.seasons[si].episodes, &episode.id) {
                    Some(ei) => ei,
                    None => {
                        return None;
                    },
                };
                Some(
                    ShowEntry {
                        show_id: show.id.clone(),
                        season_no: season.season_no,
                        episode_no: episode.episode_no,
                        season_idx: si,
                        ep_idx: ei,
                    },
                )
            },
            None => None,
        }
    }

    /// The episodes to watch next, given the identifiers of the episodes
    /// watched. For each show with a watched episode, the watched episode
    /// with the highest season and episode number counts; what follows it
    /// is the next episode of its season or, after the last one, the first
    /// episode of the next season. A show without such an episode gives
    /// nothing. The result holds one identifier for each show that gives one,
    /// in the order in which the shows first occur among the watched
    /// episodes.
    pub fn next_up(&self, watched_episode_ids: &[String]) -> (r: Vec<String>)
        ensures
            views(r@) == next_up_spec(self@, views(watched_episode_ids@)),
    {
        let ghost watched = views(watched_episode_ids@);
        let mut entries: Vec<ShowEntry> = Vec::new();
        let mut k: usize = 0;
        assert(views(entries@) =~= progress(self@, watched.take(0)));
        while k < watched_episode_ids.len()
            invariant
                k <= watched_episode_ids.len(),
                watched == views(watched_episode_ids@),
                views(entries@) == progress(self@, watched.take(k as int)),
            decreases watched_episode_ids.len() - k,
        {
            proof {
                assert(watched.take(k + 1).drop_last() == watched.take(k as int));
                assert(watched.take(k + 1).last() == watched_episode_ids@[k as int]@);
            }
            if let Some(e) = self.locate_episode(watched_episode_ids[k].as_str()) {
                record_entry(&mut entries, e);
            }
            k = k + 1;
        }
        assert(watched.take(k as int) == watched);
        let ghost all = views(entries@);
        let mut ids: Vec<String> = Vec::new();
        let mut j: usize = 0;
        assert(views(ids@) =~= continuations(self@, all.take(0)));
        while j < entries.len()
            invariant
                j <= entries.len(),
                all == views(entries@),
                views(ids@) == continuations(self@, all.take(j as int)),
            decreases entries.len() - j,
        {
            let ghost before = ids@;
            proof {
                assert(all.take(j + 1).drop_last() == all.take(j as int));
                assert(all.take(j + 1).last() == entries@[j as int]@);
            }
            let entry = &entries[j];
            match self.get_item_by_id(entry.show_id.as_str()) {
                Some((_, ItemRef::Show(show))) => {
                    if let Some(e) = next_episode(show, entry.season_idx, entry.ep_idx) {
                        let id = e.id.clone();
                        ids.push(id);
                        assert(views(ids@) =~= views(before).push(id@));
                    }
                },
                _ => {},
            }
            j = j + 1;
        }
        assert(all.take(j as int) == all);
        ids
    }

    /// Items like the given one. None are known.
    pub fn similar(&self, collection_id: &str, item_id: &str) -> (r: Vec<String>)
        ensures
            r@.len() == 0,
    {
        Vec::new()
    }

    /// The identifiers of all items whose display names hold a term that is
    /// already in lower case.
    pub fn search_lowered(&self, lowered_term: &str) -> (r: Vec<String>)
        ensures
            views(r@) == search_hits(self@, lowered_term@),
    {
        let term = chars_of(lowered_term);
        let mut out: Vec<String> = Vec::new();
        let mut k: usize = 0;
        assert(views(out@) =~= search_hits(self@.take(0), term@));
        while k < self.collections.len()
            invariant
                k <= self.collections.len(),
                views(out@) == search_hits(self@.take(k as int), term@),
            decreases self.collections.len() - k,
        {
            proof {
                assert(self@.take(k + 1).drop_last() == self@.take(k as int));
                assert(self@.take(k + 1).last() == self.collections@[k as int]@);
            }
            push_items_hits(&mut out, &self.collections[k].items, &term);
            k = k + 1;
        }
        assert(self@.take(k as int) == self@);
        out
    }

    /// The identifiers of all movies, shows, seasons and episodes whose
    /// display names hold `term`, whatever the case of the letters, in the
    /// order of the catalog.
    pub fn search(&self, term: &str) -> (r: Vec<String>)
        ensures
            views(r@) == search_hits(self@, lowercase(term@)),
    {
        let lowered = term.to_lowercase();
        self.search_lowered(lowered.as_str())
    }

    /// Rebuilds the catalog from listings of the collections' directories,
    /// one listing for each collection, in the order of the collections.
    /// Every collection with a listing gets a new list of items; its
    /// identifier, name, type and directory stay.
    pub fn update_collections(&mut self, trees: &Vec<DirTree>, now: i64)
        ensures
            final(self)@ == rebuilt(old(self)@, trees@, now as int),
    {
        let mut k: usize = 0;
        let n = self.collections.len();
        while k < n && k < trees.len()
            invariant
                k <= n,
                k <= trees.len(),
                n == self.collections.len(),
                self@.len() == old(self)@.len(),
                forall|i: int| 0 <= i < k ==> #[trigger] self@[i] == rescanned(
                    old(self)@[i],
                    trees@[i],
                    now as int,
                ),
                forall|i: int| k <= i < n ==> #[trigger] self@[i] == old(self)@[i],
            decreases n - k,
        {
            let ghost before = self.collections@;
            let c = &mut self.collections[k];
            match c.collection_type {
                CollectionType::Movies => build_movies(c, &trees[k], now),
                CollectionType::Shows => build_shows(c, &trees[k], now),
            }
            assert(self.collections@.len() == n);
            assert(forall|i: int| 0 <= i < n && i != k ==> self.collections@[i] == before[i]);
            assert(self.collections@[k as int]@ == rescanned(
                before[k as int]@,
                trees@[k as int],
                now as int,
            ));
            assert forall|i: int| 0 <= i < n implies #[trigger] self@[i] == (if i == k {
                rescanned(views(before)[i], trees@[i], now as int)
            } else {
                views(before)[i]
            }) by {
                assert(self@[i] == self.collections@[i]@);
            }
            k = k + 1;
        }
        assert(self@ =~= rebuilt(old(self)@, trees@, now as int));
    }

    /// Fills the catalog for the first time: the same as a rebuild.
    pub fn init(&mut self, trees: &Vec<DirTree>, now: i64)
        ensures
            final(self)@ == rebuilt(old(self)@, trees@, now as int),
    {
        self.update_collections(trees, now);
    }

    /// The details of the whole catalog: how many movies, shows and episodes
    /// it holds, and the genres, studios, official ratings and years that
    /// occur, each once.
    pub fn details(&self) -> (d: CollectionDetails)
        ensures
            d@ == catalog_details(self@),
    {
        let mut d = CollectionDetails::new();
        let mut k: usize = 0;
        assert(self@.take(0) =~= Seq::empty());
        while k < self.collections.len()
            invariant
                k <= self.collections.len(),
                d@ == catalog_details(self@.take(k as int)),
            decreases self.collections.len() - k,
        {
            proof {
                assert(self@.take(k + 1).drop_last() == self@.take(k as int));
                assert(self@.take(k + 1).last() == self.collections@[k as int]@);
            }
            let part = self.collections[k].details();
            merge_details(&mut d, &part);
            k = k + 1;
        }
        assert(self@.take(k as int) == self@);
        d
    }
}

} // verus!
