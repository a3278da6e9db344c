//! The error kinds a lyrics resolution can end with. All are terminal for
//! the current attempt; none is retried automatically.

use vstd::prelude::*;

verus! {

/// Why a resolution attempt failed.
#[derive(Debug)]
pub enum LyricsError {
    /// A needed credential is missing from the environment and the config
    /// store.
    Configuration,
    /// An external service answered with a non-success status or the
    /// transport failed; carries the status or message text.
    Upstream(String),
    /// The search yielded no admissible, matching candidate.
    NotFound,
    /// The song page was fetched but no lyrics-container text was found.
    Extraction,
}

impl LyricsError {
    /// A user-facing description of the failure.
    pub fn message(&self) -> (r: String)
        ensures
            self is Configuration ==> r@ == "Genius API token not configured. Please add it to config.json in your app data directory."@,
            self matches LyricsError::Upstream(m) ==> r@ == m@,
            self is NotFound ==> r@ == "No results found"@,
            self is Extraction ==> r@ == "Could not extract lyrics from page"@,
    {
        match self {
            LyricsError::Configuration => (
            "Genius API token not configured. Please add it to config.json in your app data directory.").to_owned(),
            LyricsError::Upstream(m) => m.clone(),
            LyricsError::NotFound => ("No results found").to_owned(),
            LyricsError::Extraction => ("Could not extract lyrics from page").to_owned(),
        }
    }
}

} // verus!
