use basitune::cache::CachedData;
use basitune::errors::LyricsError;
use basitune::keys::cache_key;
use basitune::resolve::InfoStep;
use basitune::resolve::ResolveEvent;
use basitune::resolve::ResolveState;
use basitune::resolve::artist_info_start;
use basitune::resolve::build_search_query;
use basitune::resolve::resolve_commit;
use basitune::resolve::resolve_credential;
use basitune::resolve::resolve_start;
use basitune::resolve::resolve_step;
use basitune::resolve::song_context_start;
use basitune::search::GeniusArtist;
use basitune::search::GeniusHit;
use basitune::search::GeniusResult;

fn song_hit(url: &str, title: &str, artist: &str) -> GeniusHit {
    GeniusHit {
        result: GeniusResult {
            url: String::from(url),
            title: String::from(title),
            primary_artist: GeniusArtist { name: String::from(artist) },
            result_type: Some(String::from("song")),
        },
    }
}

#[test]
fn end_to_end_with_ai_unavailable() {
    let mut cache = CachedData::new();
    let state = resolve_start(&cache, "Yesterday (Remastered 2009)", "The Beatles");
    let query = match &state {
        ResolveState::AwaitSearch { key, artist, clean_title } => {
            assert_eq!(key, "the beatles|yesterday (remastered 2009)");
            assert_eq!(clean_title, "Yesterday");
            build_search_query(artist, clean_title)
        },
        _ => panic!("expected a search to be asked for"),
    };
    assert_eq!(query, "The Beatles Yesterday");

    let hits = vec![song_hit("https://x.example/yesterday", "Yesterday", "The Beatles")];
    let state = resolve_step(state, ResolveEvent::SearchOk { hits });
    match &state {
        ResolveState::AwaitPage { url, .. } => assert_eq!(url, "https://x.example/yesterday"),
        _ => panic!("expected a page fetch to be asked for"),
    }

    let html = String::from(
        "<div data-lyrics-container=\"true\">Yesterday<br/>All my troubles seemed so far away</div>",
    );
    let state = resolve_step(state, ResolveEvent::PageOk { html });
    match &state {
        ResolveState::AwaitClean { raw, .. } => {
            assert_eq!(raw, "Yesterday\nAll my troubles seemed so far away")
        },
        _ => panic!("expected a clean to be asked for"),
    }

    // The AI cleaner is unavailable; the heuristic keeps the text verbatim.
    let state = resolve_step(state, ResolveEvent::CleanFailed);
    match &state {
        ResolveState::Done { lyrics, from_cache, .. } => {
            assert_eq!(lyrics, "Yesterday\nAll my troubles seemed so far away");
            assert!(!from_cache);
        },
        _ => panic!("expected a resolved result"),
    }

    resolve_commit(&mut cache, &state);
    let key = cache_key("The Beatles", "Yesterday (Remastered 2009)");
    assert_eq!(
        cache.get_lyrics(&key),
        Some(String::from("Yesterday\nAll my troubles seemed so far away"))
    );

    // A second resolution answers straight from the cache.
    let again = resolve_start(&cache, "Yesterday (Remastered 2009)", "The Beatles");
    match again {
        ResolveState::Done { lyrics, from_cache, .. } => {
            assert_eq!(lyrics, "Yesterday\nAll my troubles seemed so far away");
            assert!(from_cache);
        },
        _ => panic!("expected a cache hit"),
    }
}

#[test]
fn ai_refusal_falls_back_to_heuristic() {
    let state = ResolveState::AwaitClean {
        key: String::from("k"),
        raw: String::from("[Artist] Lyrics\nKept line\nEmbed"),
    };
    let state = resolve_step(
        state,
        ResolveEvent::CleanOk { text: String::from("I'm sorry, I can't provide those lyrics.") },
    );
    match state {
        ResolveState::Done { lyrics, .. } => assert_eq!(lyrics, "Kept line"),
        _ => panic!("expected a resolved result"),
    }
}

#[test]
fn ai_answer_is_used_when_clean() {
    let state = ResolveState::AwaitClean {
        key: String::from("k"),
        raw: String::from("raw text\nEmbed"),
    };
    let state = resolve_step(state, ResolveEvent::CleanOk { text: String::from("Tidy lyrics") });
    match state {
        ResolveState::Done { lyrics, .. } => assert_eq!(lyrics, "Tidy lyrics"),
        _ => panic!("expected a resolved result"),
    }
}

#[test]
fn search_failure_surfaces_upstream_error() {
    let state = ResolveState::AwaitSearch {
        key: String::from("k"),
        artist: String::from("A"),
        clean_title: String::from("T"),
    };
    let state = resolve_step(
        state,
        ResolveEvent::SearchFailed { message: String::from("Genius API returned status: 503") },
    );
    match state {
        ResolveState::Failed { error: LyricsError::Upstream(m) } => {
            assert_eq!(m, "Genius API returned status: 503")
        },
        _ => panic!("expected an upstream failure"),
    }
}

#[test]
fn lone_literature_candidate_is_not_found() {
    let state = ResolveState::AwaitSearch {
        key: String::from("k"),
        artist: String::from("The Beatles"),
        clean_title: String::from("Yesterday"),
    };
    let hits = vec![GeniusHit {
        result: GeniusResult {
            url: String::from("https://x.example/literature/yesterday-essay"),
            title: String::from("Yesterday"),
            primary_artist: GeniusArtist { name: String::from("The Beatles") },
            result_type: None,
        },
    }];
    let state = resolve_step(state, ResolveEvent::SearchOk { hits });
    match state {
        ResolveState::Failed { error: LyricsError::NotFound } => {},
        _ => panic!("expected no candidate to be accepted"),
    }
}

#[test]
fn page_without_lyrics_is_an_extraction_error() {
    let state = ResolveState::AwaitPage {
        key: String::from("k"),
        url: String::from("https://x.example/page"),
    };
    let state = resolve_step(
        state,
        ResolveEvent::PageOk { html: String::from("<p>no lyrics anywhere</p>") },
    );
    match state {
        ResolveState::Failed { error: LyricsError::Extraction } => {},
        _ => panic!("expected an extraction failure"),
    }
}

#[test]
fn page_fetch_failure_surfaces_upstream_error() {
    let state = ResolveState::AwaitPage {
        key: String::from("k"),
        url: String::from("https://x.example/page"),
    };
    let state = resolve_step(
        state,
        ResolveEvent::PageFailed { message: String::from("Failed to fetch lyrics page: timeout") },
    );
    match state {
        ResolveState::Failed { error: LyricsError::Upstream(m) } => {
            assert_eq!(m, "Failed to fetch lyrics page: timeout")
        },
        _ => panic!("expected an upstream failure"),
    }
}

#[test]
fn mismatched_event_leaves_state_unchanged() {
    let state = ResolveState::AwaitPage {
        key: String::from("k"),
        url: String::from("https://x.example/page"),
    };
    let state = resolve_step(state, ResolveEvent::CleanFailed);
    match state {
        ResolveState::AwaitPage { url, .. } => assert_eq!(url, "https://x.example/page"),
        _ => panic!("expected the state to be kept"),
    }
}

#[test]
fn credential_chain_prefers_environment() {
    assert_eq!(
        resolve_credential(Some(String::from("env")), Some(String::from("file"))),
        Some(String::from("env"))
    );
    assert_eq!(
        resolve_credential(None, Some(String::from("file"))),
        Some(String::from("file"))
    );
    assert_eq!(resolve_credential(None, None), None);
}

#[test]
fn configuration_error_message_names_the_config() {
    let msg = LyricsError::Configuration.message();
    assert_eq!(
        msg,
        "Genius API token not configured. Please add it to config.json in your app data directory."
    );
    assert_eq!(LyricsError::NotFound.message(), "No results found");
    assert_eq!(
        LyricsError::Extraction.message(),
        "Could not extract lyrics from page"
    );
    assert_eq!(
        LyricsError::Upstream(String::from("boom")).message(),
        "boom"
    );
}

#[test]
fn artist_info_cache_flow() {
    let mut cache = CachedData::new();
    match artist_info_start(&cache, "Queensr\u{ff}che") {
        InfoStep::Ask { key, prompt } => {
            assert_eq!(key, "queensryche");
            assert!(prompt.contains("Queensr\u{ff}che"));
            basitune::resolve::artist_info_finish(
                &mut cache,
                key,
                String::from("A progressive metal band."),
            );
        },
        _ => panic!("expected the cache to be empty"),
    }
    match artist_info_start(&cache, "QUEENSR\u{178}CHE") {
        InfoStep::Cached { text } => assert_eq!(text, "A progressive metal band."),
        _ => panic!("expected a cache hit under the normalized key"),
    }
}

#[test]
fn song_context_cache_flow() {
    let mut cache = CachedData::new();
    match song_context_start(&cache, "Yesterday", "The Beatles") {
        InfoStep::Ask { key, prompt } => {
            assert_eq!(key, "the beatles|yesterday");
            assert!(prompt.contains("Yesterday"));
            assert!(prompt.contains("The Beatles"));
            basitune::resolve::song_context_finish(
                &mut cache,
                key,
                String::from("A melancholy classic."),
            );
        },
        _ => panic!("expected the cache to be empty"),
    }
    match song_context_start(&cache, "yesterday", "the beatles") {
        InfoStep::Cached { text } => assert_eq!(text, "A melancholy classic."),
        _ => panic!("expected a cache hit under the normalized key"),
    }
}
