//! The catalog: its entities, the scanner that builds them from a directory
//! listing, the repository that holds and queries them, and the store that
//! readers and writers share.

pub mod metadata;
pub mod item;
pub mod sortname;
pub mod kodifs;
pub mod collection;
pub mod ranked;
pub mod collectionrepo;
pub mod store;
pub mod nfo;

pub use crate::parsefilename::parse_episode_name;
pub use collection::{Collection, CollectionDetails, CollectionType};
pub use collectionrepo::CollectionRepo;
pub use item::{Episode, Item, ItemRef, Movie, Season, Show, Subs, Subtitles};
pub use metadata::Metadata;
pub use sortname::make_sort_name;
pub use store::CatalogStore;
