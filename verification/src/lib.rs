//! Listing and detail extraction for manga sources, with a shared
//! time-bounded cache and the merge that keeps a listing in page order.

pub mod error;
pub mod structs;
pub mod text;
pub mod search;
pub mod dom;
pub mod utils;
pub mod parser;
pub mod detail;
pub mod cache;
pub mod resolver;
pub mod source;
pub mod handler;
pub mod pages;
pub mod rerun;
pub mod preferences;
pub mod library;
pub mod extensions;

pub use resolver::{EntryCache, MangaCache};
