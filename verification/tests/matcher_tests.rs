use basitune::search::GeniusArtist;
use basitune::search::GeniusHit;
use basitune::search::GeniusResponseData;
use basitune::search::GeniusResult;
use basitune::search::GeniusSearchResponse;
use basitune::search::search_lyrics;
use basitune::search::select_candidate;

fn hit(url: &str, title: &str, artist: &str, result_type: Option<&str>) -> GeniusHit {
    GeniusHit {
        result: GeniusResult {
            url: String::from(url),
            title: String::from(title),
            primary_artist: GeniusArtist { name: String::from(artist) },
            result_type: result_type.map(String::from),
        },
    }
}

#[test]
fn matcher_selects_the_matching_song_among_noise() {
    let hits = vec![
        hit("https://x/a", "Yesterday", "The Beatles", Some("album")),
        hit("https://x/b", "Completely Different", "The Beatles", Some("song")),
        hit("https://x/c", "Yesterday", "The Beatles", Some("song")),
    ];
    assert_eq!(select_candidate(&hits, "The Beatles", "Yesterday"), Some(2));
}

#[test]
fn matcher_rejects_absent_type_with_literature_url() {
    let hits = vec![hit(
        "https://x.example/literature/yesterday-essay",
        "Yesterday",
        "The Beatles",
        None,
    )];
    assert_eq!(select_candidate(&hits, "The Beatles", "Yesterday"), None);
}

#[test]
fn matcher_accepts_absent_type_with_clean_url() {
    let hits = vec![hit("https://x.example/yesterday-lyrics", "Yesterday", "The Beatles", None)];
    assert_eq!(select_candidate(&hits, "The Beatles", "Yesterday"), Some(0));
}

#[test]
fn matcher_matching_is_case_insensitive_and_substring_based() {
    let hits = vec![hit(
        "https://x/a",
        "Yesterday (Beatles cover)",
        "THE BEATLES",
        Some("song"),
    )];
    assert_eq!(select_candidate(&hits, "the beatles", "yesterday"), Some(0));
}

#[test]
fn matcher_falls_back_to_first_explicit_song() {
    let hits = vec![
        hit("https://x/a", "Other", "Somebody Else", Some("album")),
        hit("https://x/b", "Other Song Entirely", "Somebody Else", Some("song")),
    ];
    assert_eq!(select_candidate(&hits, "The Beatles", "Yesterday"), Some(1));
}

#[test]
fn matcher_fallback_ignores_absent_type() {
    let hits = vec![hit("https://x/a", "Other", "Somebody Else", None)];
    assert_eq!(select_candidate(&hits, "The Beatles", "Yesterday"), None);
}

#[test]
fn search_results_cut_to_ten() {
    let mut hits = Vec::new();
    for i in 0..13 {
        hits.push(hit(&format!("https://x/{}", i), "T", "A", Some("song")));
    }
    let resp = GeniusSearchResponse { response: GeniusResponseData { hits } };
    let top = search_lyrics(&resp);
    assert_eq!(top.len(), 10);
    assert_eq!(top[0].url, "https://x/0");
    assert_eq!(top[9].url, "https://x/9");

    let small = GeniusSearchResponse {
        response: GeniusResponseData {
            hits: vec![hit("https://x/only", "T", "A", None)],
        },
    };
    let top_small = search_lyrics(&small);
    assert_eq!(top_small.len(), 1);
    assert_eq!(top_small[0].url, "https://x/only");
    assert_eq!(top_small[0].result_type, None);
}
