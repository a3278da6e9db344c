use basitune::cleaner::clean_lyrics_with_regex;
use basitune::cleaner::is_refusal_exec;
use basitune::cleaner::select_cleaned;

#[test]
fn strips_lyrics_header_and_embed_footer() {
    let raw = "[Artist] Lyrics\nFirst real line\nSecond real line\nEmbed";
    assert_eq!(clean_lyrics_with_regex(raw), "First real line\nSecond real line");
}

#[test]
fn strips_contributor_header_and_see_footer() {
    let raw = "123 Contributors\nVerse line\nSee the full catalog";
    assert_eq!(clean_lyrics_with_regex(raw), "Verse line");
}

#[test]
fn strips_empty_and_quote_and_teaser_lines() {
    let raw = "\n\"A famous pull quote\nThis is a song about loss Read More\nActual lyric\n\n";
    assert_eq!(clean_lyrics_with_regex(raw), "Actual lyric");
}

#[test]
fn strips_short_caps_heavy_banner() {
    let raw = "NEW ALBUM OUT NOW\nGentle opening line";
    assert_eq!(clean_lyrics_with_regex(raw), "Gentle opening line");
}

#[test]
fn clean_input_is_returned_unchanged() {
    let raw = "Yesterday\nAll my troubles seemed so far away";
    assert_eq!(clean_lyrics_with_regex(raw), raw);
}

#[test]
fn empty_input_stays_empty() {
    assert_eq!(clean_lyrics_with_regex(""), "");
}

#[test]
fn refusal_markers_are_detected_case_insensitively() {
    assert!(is_refusal_exec("I'm sorry, but I can't help with that."));
    assert!(is_refusal_exec("I CANNOT PROVIDE these lyrics."));
    assert!(is_refusal_exec("Unfortunately i can't provide that."));
    assert!(!is_refusal_exec("Here are the lyrics you asked for."));
}

#[test]
fn ai_output_is_kept_when_no_refusal() {
    let out = select_cleaned("raw\nEmbed", Some(String::from("Cleaned by AI")));
    assert_eq!(out, "Cleaned by AI");
}

#[test]
fn refusal_falls_back_to_heuristic() {
    let out = select_cleaned(
        "[Artist] Lyrics\nKept line\nEmbed",
        Some(String::from("I'm sorry, I cannot provide copyrighted lyrics.")),
    );
    assert_eq!(out, "Kept line");
}

#[test]
fn ai_error_falls_back_to_heuristic() {
    let out = select_cleaned("[Artist] Lyrics\nKept line\nEmbed", None);
    assert_eq!(out, "Kept line");
}
