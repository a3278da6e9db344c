//! Lyrics acquisition and normalization library.
//!
//! Given a song title and artist, this crate derives stable cache keys,
//! declutters titles for search, selects the best candidate among search
//! results, extracts raw lyric text from a song page's markup, cleans it,
//! and manages a self-healing lyrics cache. All text processing is pure
//! and verified; network and file I/O stay outside the library and feed
//! the resolution state machine in `resolve` through events.

pub mod cache;
pub mod cleaner;
pub mod declutter;
pub mod errors;
pub mod extract;
pub mod keys;
pub mod openai;
pub mod resolve;
pub mod search;
pub mod shell;
pub mod text;
