//! An in-memory catalog of movies and TV shows.
//!
//! The catalog is built from listings of the collections' directories:
//! stable identifiers come from `idhash`, season and episode numbers from
//! `parsefilename`, the entities, the scanner, the repository with its
//! queries and the shared store from `collection`. The other modules hold
//! what the programs around the catalog need of it.

pub mod text;
pub mod idhash;
pub mod parsefilename;
pub mod collection;
pub mod jellyfin;
pub mod server;
pub mod notflix;
