//! What the Jellyfin API needs of the catalog.

pub mod image;
pub mod jfitem;
pub mod types;
