//! A directory browser's core: listing, filtering, ordering and navigation
//! over plain values, with the filesystem left to the caller.
pub mod entry;
pub mod listing;
pub mod manager;
pub mod order;
pub mod path;
pub mod props;
pub mod text;
