//! The resolution pipeline as a state machine: cache lookup, search,
//! candidate match, page fetch, extraction, cleaning, cache write. The
//! decisions are pure and verified here; the host performs the network
//! step each state asks for and hands the outcome back as an event.

use vstd::prelude::*;


use crate::cache::CachedData;
use crate::cache::looks_like_prose;
use crate::cleaner::clean_spec;
use crate::cleaner::cleaned_choice;
use crate::cleaner::select_cleaned;
use crate::declutter::clean_song_title;
use crate::declutter::declutter_spec;
use crate::errors::LyricsError;
use crate::extract::extract_raw_lyrics_from_html;
use crate::extract::extract_spec;
use crate::keys::cache_key;
use crate::keys::cache_key_spec;
use crate::search::GeniusHit;
use crate::search::is_selected;
use crate::search::none_selected;
use crate::search::select_candidate;

verus! {

/// Where a resolution stands. The waiting states name the outside step the
/// host must perform next; the terminal states carry the outcome.
pub enum ResolveState {
    /// Search the metadata service with the query built from the artist
    /// and the decluttered title.
    AwaitSearch { key: String, artist: String, clean_title: String },
    /// Fetch the matched candidate's page.
    AwaitPage { key: String, url: String },
    /// Ask the AI cleaner to clean the extracted raw text.
    AwaitClean { key: String, raw: String },
    /// Lyrics resolved; `from_cache` tells whether a cache write is still
    /// owed.
    Done { key: String, lyrics: String, from_cache: bool },
    /// The attempt failed; nothing is cached.
    Failed { error: LyricsError },
}

/// What the host observed while performing the step a state asked for.
pub enum ResolveEvent {
    /// The search answered with a parsed hit list.
    SearchOk { hits: Vec<GeniusHit> },
    /// The search transport failed or answered with a non-success status.
    SearchFailed { message: String },
    /// The candidate page's markup.
    PageOk { html: String },
    /// The page fetch failed.
    PageFailed { message: String },
    /// The AI cleaner answered.
    CleanOk { text: String },
    /// The AI cleaner erred; the heuristic cleaner takes over.
    CleanFailed,
}

/// Opens a resolution: derives the cache key from the raw artist and
/// title, and answers from the cache when a valid entry exists; otherwise
/// asks for a search with the decluttered title.
pub fn resolve_start(cache: &CachedData, title: &str, artist: &str) -> (r: ResolveState)
    ensures
        ({
            let key = cache_key_spec(artist@, title@);
            if cache.lyrics@.contains_key(key) && !looks_like_prose(cache.lyrics@[key]) {
                r matches ResolveState::Done { key: k, lyrics, from_cache }
                    && k@ == key && lyrics@ == cache.lyrics@[key] && from_cache
            } else {
                r matches ResolveState::AwaitSearch { key: k, artist: a, clean_title }
                    && k@ == key && a@ == artist@ && clean_title@ == declutter_spec(title@)
            }
        }),
{
    let key = cache_key(artist, title);
    match cache.get_lyrics(key.as_str()) {
        Some(lyrics) => ResolveState::Done { key, lyrics, from_cache: true },
        None => {
            let clean_title = clean_song_title(title);
            ResolveState::AwaitSearch { key, artist: artist.to_owned(), clean_title }
        },
    }
}

/// The search text sent upstream: the artist, a space, the decluttered
/// title.
pub fn build_search_query(artist: &str, clean_title: &str) -> (r: String)
    ensures
        r@ == artist@ + " "@ + clean_title@,
{
    let mut r: String = artist.to_owned();
    r.append(" ");
    r.append(clean_title);
    r
}

/// What one step of the resolution must produce for a state and an event.
/// Any event that does not answer the question the state asks leaves the
/// state unchanged.
pub open spec fn resolve_step_post(
    state: ResolveState,
    event: ResolveEvent,
    r: ResolveState,
) -> bool {
    match (state, event) {
        (
            ResolveState::AwaitSearch { key, artist, clean_title },
            ResolveEvent::SearchOk { hits },
        ) => {
            ||| (exists|i: int|
                #[trigger] is_selected(hits@, artist@, clean_title@, i) && (r matches
                ResolveState::AwaitPage { key: k2, url } && k2@ == key@ && url@
                    == hits@[i].result.url@))
            ||| (none_selected(hits@, artist@, clean_title@) && (r matches ResolveState::Failed {
                error,
            } && error is NotFound))
        },
        (ResolveState::AwaitSearch { key, artist, clean_title }, ResolveEvent::SearchFailed {
            message,
        }) => r matches ResolveState::Failed { error } && error matches LyricsError::Upstream(m)
            && m@ == message@,
        (ResolveState::AwaitPage { key, url }, ResolveEvent::PageOk { html }) => {
            if extract_spec(html@).len() > 0 {
                r matches ResolveState::AwaitClean { key: k2, raw } && k2@ == key@ && raw@
                    == extract_spec(html@)
            } else {
                r matches ResolveState::Failed { error } && error is Extraction
            }
        },
        (ResolveState::AwaitPage { key, url }, ResolveEvent::PageFailed { message }) => r matches
            ResolveState::Failed { error } && error matches LyricsError::Upstream(m) && m@
            == message@,
        (ResolveState::AwaitClean { key, raw }, ResolveEvent::CleanOk { text }) => r matches
            ResolveState::Done { key: k2, lyrics, from_cache } && k2@ == key@ && lyrics@
            == cleaned_choice(raw@, Some(text@)) && !from_cache,
        (ResolveState::AwaitClean { key, raw }, ResolveEvent::CleanFailed) => r matches
            ResolveState::Done { key: k2, lyrics, from_cache } && k2@ == key@ && lyrics@
            == clean_spec(raw@) && !from_cache,
        (s, _) => r == s,
    }
}

/// Advances the resolution by one event: matches the candidate after a
/// search answer, extracts after a page fetch, selects the cleaned text
/// after the AI answered or failed, and turns each failure into its error.
pub fn resolve_step(state: ResolveState, event: ResolveEvent) -> (r: ResolveState)
    ensures
        resolve_step_post(state, event, r),
{
    match (state, event) {
        (
            ResolveState::AwaitSearch { key, artist, clean_title },
            ResolveEvent::SearchOk { hits },
        ) => {
            match select_candidate(&hits, artist.as_str(), clean_title.as_str()) {
                Some(i) => {
                    let url = hits[i].result.url.clone();
                    ResolveState::AwaitPage { key, url }
                },
                None => ResolveState::Failed { error: LyricsError::NotFound },
            }
        },
        (ResolveState::AwaitSearch { .. }, ResolveEvent::SearchFailed { message }) => {
            ResolveState::Failed { error: LyricsError::Upstream(message) }
        },
        (ResolveState::AwaitPage { key, url: _ }, ResolveEvent::PageOk { html }) => {
            match extract_raw_lyrics_from_html(html.as_str()) {
                Ok(raw) => ResolveState::AwaitClean { key, raw },
                Err(e) => ResolveState::Failed { error: e },
            }
        },
        (ResolveState::AwaitPage { .. }, ResolveEvent::PageFailed { message }) => {
            ResolveState::Failed { error: LyricsError::Upstream(message) }
        },
        (ResolveState::AwaitClean { key, raw }, ResolveEvent::CleanOk { text }) => {
            let lyrics = select_cleaned(raw.as_str(), Some(text));
            ResolveState::Done { key, lyrics, from_cache: false }
        },
        (ResolveState::AwaitClean { key, raw }, ResolveEvent::CleanFailed) => {
            let lyrics = select_cleaned(raw.as_str(), None);
            ResolveState::Done { key, lyrics, from_cache: false }
        },
        (s, _) => s,
    }
}

/// Writes a freshly resolved result into the cache; a cache hit or a
/// failure writes nothing. Persistence of the store is the host's
/// best-effort duty afterwards.
pub fn resolve_commit(cache: &mut CachedData, state: &ResolveState)
    ensures
        match state {
            ResolveState::Done { key, lyrics, from_cache } => if *from_cache {
                *final(cache) == *old(cache)
            } else {
                &&& final(cache).lyrics@ == old(cache).lyrics@.insert(key@, lyrics@)
                &&& final(cache).artist_info@ == old(cache).artist_info@
                &&& final(cache).song_context@ == old(cache).song_context@
            },
            _ => *final(cache) == *old(cache),
        },
{
    match state {
        ResolveState::Done { key, lyrics, from_cache } => {
            if !*from_cache {
                cache.update_lyrics(key.clone(), lyrics.clone());
            }
        },
        _ => {},
    }
}

/// Where a sibling lookup (artist summary or song context) stands: either
/// the cache answered, or the completion service must be asked with the
/// given prompt and the answer stored under the given key.
pub enum InfoStep {
    Cached { text: String },
    Ask { key: String, prompt: String },
}

/// Opens an artist-summary lookup: answers from the cache when a usable
/// entry sits under the normalized artist name, else asks for a completion
/// with the fixed artist prompt.
pub fn artist_info_start(cache: &CachedData, artist: &str) -> (r: InfoStep)
    ensures
        ({
            let key = crate::text::normalize_spec(artist@);
            if cache.artist_info@.contains_key(key) && crate::cache::usable_info(
                cache.artist_info@[key],
            ) {
                r matches InfoStep::Cached { text } && text@ == cache.artist_info@[key]
            } else {
                r matches InfoStep::Ask { key: k, prompt } && k@ == key && prompt@
                    == crate::openai::artist_prompt_spec(artist@)
            }
        }),
{
    let key = crate::text::normalize_string(artist);
    match cache.get_artist_info(key.as_str()) {
        Some(text) => InfoStep::Cached { text },
        None => InfoStep::Ask { key, prompt: crate::openai::build_artist_prompt(artist) },
    }
}

/// Opens a song-context lookup: answers from the cache when a usable entry
/// sits under the song's cache key, else asks for a completion with the
/// fixed song prompt.
pub fn song_context_start(cache: &CachedData, title: &str, artist: &str) -> (r: InfoStep)
    ensures
        ({
            let key = cache_key_spec(artist@, title@);
            if cache.song_context@.contains_key(key) && crate::cache::usable_info(
                cache.song_context@[key],
            ) {
                r matches InfoStep::Cached { text } && text@ == cache.song_context@[key]
            } else {
                r matches InfoStep::Ask { key: k, prompt } && k@ == key && prompt@
                    == crate::openai::song_prompt_spec(title@, artist@)
            }
        }),
{
    let key = cache_key(artist, title);
    match cache.get_song_context(key.as_str()) {
        Some(text) => InfoStep::Cached { text },
        None => InfoStep::Ask { key, prompt: crate::openai::build_song_prompt(title, artist) },
    }
}

/// Stores a completion answer under its key in the artist-summary map.
pub fn artist_info_finish(cache: &mut CachedData, key: String, text: String)
    ensures
        final(cache).artist_info@ == old(cache).artist_info@.insert(key@, text@),
        final(cache).song_context@ == old(cache).song_context@,
        final(cache).lyrics@ == old(cache).lyrics@,
{
    cache.update_artist_info(key, text);
}

/// Stores a completion answer under its key in the song-context map.
pub fn song_context_finish(cache: &mut CachedData, key: String, text: String)
    ensures
        final(cache).song_context@ == old(cache).song_context@.insert(key@, text@),
        final(cache).artist_info@ == old(cache).artist_info@,
        final(cache).lyrics@ == old(cache).lyrics@,
{
    cache.update_song_context(key, text);
}

/// Picks a credential from the ordered provider chain: the environment's
/// value wins over the config store's.
pub fn resolve_credential(env_value: Option<String>, config_value: Option<String>) -> (r: Option<
    String,
>)
    ensures
        env_value is Some ==> r == env_value,
        env_value is None ==> r == config_value,
{
    match env_value {
        Some(v) => Some(v),
        None => config_value,
    }
}

} // verus!
