use basitune::cache::CachedData;
use basitune::cache::StringMap;
use basitune::cache::looks_like_prose_exec;

#[test]
fn string_map_insert_get_and_overwrite() {
    let mut m = StringMap::new();
    assert_eq!(m.len(), 0);
    assert_eq!(m.get("k"), None);
    m.insert(String::from("k"), String::from("v1"));
    assert_eq!(m.len(), 1);
    assert_eq!(m.get("k"), Some(String::from("v1")));
    m.insert(String::from("k"), String::from("v2"));
    assert_eq!(m.len(), 1);
    assert_eq!(m.get("k"), Some(String::from("v2")));
    m.insert(String::from("other"), String::from("w"));
    assert_eq!(m.len(), 2);
    assert_eq!(m.get("other"), Some(String::from("w")));
    assert_eq!(m.get("missing"), None);
}

#[test]
fn narrative_markers_mean_prose() {
    assert!(looks_like_prose_exec("and then he said goodbye"));
    assert!(looks_like_prose_exec("she said nothing"));
    assert!(looks_like_prose_exec("there he sat alone"));
    assert!(looks_like_prose_exec("there she sat alone"));
    assert!(!looks_like_prose_exec("Yesterday\nAll my troubles seemed so far away"));
}

fn long_narrative(with_chorus: bool) -> String {
    let mut s = String::new();
    for _ in 0..40 {
        s.push_str("A wandering figure crossed the moor in silence. ");
    }
    if with_chorus {
        s.push_str("\n[Chorus]\nStill singing after all");
    }
    s
}

#[test]
fn long_prose_without_section_markers_is_invalid() {
    let prose = long_narrative(false);
    assert!(prose.len() > 500);
    assert!(looks_like_prose_exec(&prose));
}

#[test]
fn stored_prose_is_treated_as_absent_on_get() {
    let mut cache = CachedData::new();
    cache.update_lyrics(
        String::from("a|b"),
        String::from("then he said it was over and done"),
    );
    assert_eq!(cache.get_lyrics("a|b"), None);
}

#[test]
fn long_text_with_chorus_marker_is_valid() {
    let mut cache = CachedData::new();
    let value = long_narrative(true);
    cache.update_lyrics(String::from("a|b"), value.clone());
    assert_eq!(cache.get_lyrics("a|b"), Some(value));
}

#[test]
fn sibling_maps_treat_blank_entries_as_absent() {
    let mut cache = CachedData::new();
    cache.update_artist_info(String::from("artist"), String::from("   "));
    assert_eq!(cache.get_artist_info("artist"), None);
    cache.update_artist_info(String::from("artist"), String::from("A real summary."));
    assert_eq!(cache.get_artist_info("artist"), Some(String::from("A real summary.")));
    cache.update_song_context(String::from("a|t"), String::from(""));
    assert_eq!(cache.get_song_context("a|t"), None);
    cache.update_song_context(String::from("a|t"), String::from("Context."));
    assert_eq!(cache.get_song_context("a|t"), Some(String::from("Context.")));
}
