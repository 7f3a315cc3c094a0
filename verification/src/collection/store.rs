//! The catalog behind an atomically swappable snapshot.
//!
//! Readers take the snapshot that is current and keep it for as long as they
//! like: a snapshot never changes. A writer makes the next catalog from the
//! current one and puts it in its place in one step; where another writer
//! was faster, it makes the next catalog anew from what that writer left.

use vstd::prelude::*;
use std::sync::Arc;
use arc_swap::ArcSwap;
use crate::collection::collection::{kind_of_name, Collection, CollectionView};
use crate::collection::collectionrepo::{
    catalog_in_order, collection_in_order, lemma_rebuilt_in_order, make_collection, rebuilt, unknown_type_message,
    CollectionRepo,
};
use crate::collection::kodifs::DirTree;

verus! {

/// The cell that holds the current snapshot: an `ArcSwap` of the `arc_swap`
/// crate. What it holds changes under the hands of whoever shares it, so the
/// contracts speak of what it was made with and of what may have become of
/// that, never of what it holds at one moment.
#[verifier::external_body]
pub struct SnapshotCell {
    inner: ArcSwap<CollectionRepo>,
}

/// The catalog that a cell was made with.
pub uninterp spec fn first_catalog(cell: SnapshotCell) -> Seq<CollectionView>;

/// A change to the catalog.
pub enum Change {
    /// One more collection at the end.
    Add(Collection),
    /// New items for the collections, from listings of their directories
    /// read at the given time.
    Rescan(Vec<DirTree>, i64),
}

/// The catalog that a change makes of a catalog.
pub open spec fn changed(c: Seq<CollectionView>, change: Change) -> Seq<CollectionView> {
    match change {
        Change::Add(collection) => c.push(collection@),
        Change::Rescan(trees, now) => rebuilt(c, trees@, now as int),
    }
}

/// Whether a change is one that the store makes: a collection that is added
/// holds no items yet; a rescan may be any.
pub open spec fn is_store_change(change: Change) -> bool {
    match change {
        Change::Add(collection) => collection@.items.len() == 0,
        Change::Rescan(_, _) => true,
    }
}

/// The catalog that a list of changes makes of a catalog, one change after
/// the other.
pub open spec fn changed_by(c: Seq<CollectionView>, changes: Seq<Change>) -> Seq<CollectionView>
    decreases changes.len(),
{
    if changes.len() == 0 {
        c
    } else {
        changed(changed_by(c, changes.drop_last()), changes.last())
    }
}

/// Whether `c` is a catalog that a store which started with `first` may
/// hold: `first` itself, or what a list of the store's changes, each
/// carried out in full, has made of it.
pub open spec fn published(first: Seq<CollectionView>, c: Seq<CollectionView>) -> bool {
    exists|changes: Seq<Change>|
        c == #[trigger] changed_by(first, changes) && forall|i: int|
            0 <= i < changes.len() ==> is_store_change(#[trigger] changes[i])
}

proof fn lemma_changed_by_in_order(first: Seq<CollectionView>, changes: Seq<Change>)
    requires
        catalog_in_order(first),
        forall|i: int| 0 <= i < changes.len() ==> is_store_change(#[trigger] changes[i]),
    ensures
        catalog_in_order(changed_by(first, changes)),
    decreases changes.len(),
{
    if changes.len() > 0 {
        let before = changed_by(first, changes.drop_last());
        assert forall|i: int| 0 <= i < changes.drop_last().len() implies is_store_change(
            #[trigger] changes.drop_last()[i],
        ) by {
            assert(changes.drop_last()[i] == changes[i]);
        }
        lemma_changed_by_in_order(first, changes.drop_last());
        assert(is_store_change(changes[changes.len() - 1]));
        match changes.last() {
            Change::Add(collection) => {
                let after = before.push(collection@);
                assert forall|k: int| 0 <= k < after.len() implies collection_in_order(
                    #[trigger] after[k],
                ) by {
                    if k < before.len() {
                        assert(after[k] == before[k]);
                    }
                }
            },
            Change::Rescan(trees, now) => {
                lemma_rebuilt_in_order(before, trees@, now as int);
            },
        }
    }
}

/// Every catalog that a store may hold is in order, if the store started
/// with one that is: each item is of the kind of its collection, the seasons
/// of each show and the episodes of each season stand in ascending order,
/// and each episode carries the number of its season.
pub proof fn lemma_published_in_order(first: Seq<CollectionView>, c: Seq<CollectionView>)
    requires
        catalog_in_order(first),
        published(first, c),
    ensures
        catalog_in_order(c),
{
    let changes = choose|changes: Seq<Change>|
        c == #[trigger] changed_by(first, changes) && forall|i: int|
            0 <= i < changes.len() ==> is_store_change(#[trigger] changes[i]);
    lemma_changed_by_in_order(first, changes);
}

/// What a store may hold, it may still hold after one more of its changes.
pub proof fn lemma_published_step(
    first: Seq<CollectionView>,
    c: Seq<CollectionView>,
    change: Change,
)
    requires
        published(first, c),
        is_store_change(change),
    ensures
        published(first, changed(c, change)),
{
    let changes = choose|changes: Seq<Change>|
        c == #[trigger] changed_by(first, changes) && forall|i: int|
            0 <= i < changes.len() ==> is_store_change(#[trigger] changes[i]);
    let more = changes.push(change);
    assert(more.drop_last() == changes);
    assert(changed(c, change) == changed_by(first, more));
    assert forall|i: int| 0 <= i < more.len() implies is_store_change(#[trigger] more[i]) by {
        if i < changes.len() {
            assert(more[i] == changes[i]);
        }
    }
}

/// The catalog that a change makes of the catalog `current`, which stays as
/// it is.
pub fn apply_change(current: &CollectionRepo, change: &Change) -> (next: CollectionRepo)
    ensures
        next@ == changed(current@, *change),
{
    let mut next = current.clone();
    match change {
        Change::Add(collection) => {
            next.push_collection(collection.clone());
        },
        Change::Rescan(trees, now) => {
            next.update_collections(trees, *now);
        },
    }
    next
}

/// `ArcSwap::from_pointee` makes a cell that holds the value given: that
/// value is what the cell was made with.
#[verifier::external_body]
fn new_cell(repo: CollectionRepo) -> (cell: SnapshotCell)
    ensures
        first_catalog(cell) == repo@,
{
    SnapshotCell { inner: ArcSwap::from_pointee(repo) }
}

/// `ArcSwapAny::load_full` gives the value that the cell holds at the
/// moment of the call. Which one that is depends on the writers. Whichever
/// it is, it is a value that was once put into the cell whole: the one that
/// the cell was made with, or one that `update_cell`, the only function
/// that writes to the cell, made of the value before it.
#[verifier::external_body]
fn load_cell(cell: &SnapshotCell) -> (r: Arc<CollectionRepo>)
    ensures
        published(first_catalog(*cell), r@),
{
    cell.inner.load_full()
}

/// `ArcSwapAny::rcu` replaces the value that the cell holds by what the
/// closure makes of it, in one step, and tries again with the new value
/// where the cell changed in between. It returns the value that was
/// replaced, which like every value of the cell was once put into it whole.
#[verifier::external_body]
fn update_cell(cell: &SnapshotCell, change: &Change) -> (replaced: Arc<CollectionRepo>)
    requires
        is_store_change(*change),
    ensures
        published(first_catalog(*cell), replaced@),
{
    cell.inner.rcu(|current| apply_change(current, change))
}

/// The store of the catalog: the snapshot that is current, in a cell that
/// readers and writers share.
pub struct CatalogStore {
    cell: SnapshotCell,
}

impl Default for CatalogStore {
    fn default() -> Self {
        CatalogStore::new()
    }
}

impl CatalogStore {
    /// Every store starts with a catalog without collections.
    #[verifier::type_invariant]
    spec fn starts_empty(self) -> bool {
        first_catalog(self.cell).len() == 0
    }

    /// The catalog that the store started with.
    pub closed spec fn first(&self) -> Seq<CollectionView> {
        first_catalog(self.cell)
    }

    /// A store whose catalog holds no collections.
    pub fn new() -> (r: Self)
        ensures
            r.first() == Seq::<CollectionView>::empty(),
    {
        CatalogStore { cell: new_cell(CollectionRepo::new()) }
    }

    /// The snapshot that is current. It stays as it is whatever is published
    /// later; a reader that wants to see later changes takes a new one.
    /// Which catalog is current depends on the writers; whichever it is, it
    /// is a whole one: the catalog that the store started with, or what
    /// changes carried out in full have made of it. No reader sees a catalog
    /// in the middle of a change. So every snapshot is in order: each item
    /// is of the kind of its collection, seasons and episodes stand in
    /// ascending order, and each episode carries the number of its season.
    pub fn snapshot(&self) -> (r: Arc<CollectionRepo>)
        ensures
            published(self.first(), r@),
            catalog_in_order(r@),
    {
        let r = load_cell(&self.cell);
        proof {
            use_type_invariant(self);
            lemma_published_in_order(self.first(), r@);
        }
        r
    }

    /// Publishes a catalog with one more collection at its end: the
    /// collection that `make_collection` makes of the arguments. A
    /// collection type other than `movies` or `shows` is an error, and
    /// nothing is published.
    pub fn add_collection(
        &self,
        name: String,
        id: Option<String>,
        collection_type: &str,
        directory: String,
        hls_server: String,
    ) -> (r: Result<(), String>)
        ensures
            match r {
                Ok(_) => kind_of_name(collection_type@) is Some,
                Err(e) => kind_of_name(collection_type@) is None && e@ == unknown_type_message(
                    collection_type@,
                ),
            },
    {
        match make_collection(name, id, collection_type, directory, hls_server) {
            Ok(collection) => {
                let change = Change::Add(collection);
                let _ = update_cell(&self.cell, &change);
                Ok(())
            },
            Err(e) => Err(e),
        }
    }

    /// Publishes the catalog rebuilt from listings of the collections'
    /// directories, one listing for each collection, read at the time `now`.
    pub fn update_collections(&self, trees: Vec<DirTree>, now: i64) {
        let change = Change::Rescan(trees, now);
        let _ = update_cell(&self.cell, &change);
    }

    /// Fills the catalog for the first time: the same as a rebuild.
    pub fn init(&self, trees: Vec<DirTree>, now: i64) {
        self.update_collections(trees, now);
    }
}

} // verus!
