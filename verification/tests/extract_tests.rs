use basitune::errors::LyricsError;
use basitune::extract::extract_raw_lyrics_from_html;

#[test]
fn two_containers_with_breaks() {
    let html = "<html><body>\
        <div data-lyrics-container=\"true\">First verse<br/>second line</div>\
        <p>advertisement</p>\
        <div data-lyrics-container=\"true\">Second verse<br>final line</div>\
        </body></html>";
    let out = extract_raw_lyrics_from_html(html).unwrap();
    assert_eq!(out, "First verse\nsecond line\n\nSecond verse\nfinal line");
}

#[test]
fn no_container_is_an_extraction_error() {
    let html = "<html><body><p>nothing here</p></body></html>";
    match extract_raw_lyrics_from_html(html) {
        Err(LyricsError::Extraction) => {},
        _ => panic!("expected an extraction failure"),
    }
}

#[test]
fn empty_container_is_an_extraction_error() {
    let html = "<div data-lyrics-container=\"true\"></div>";
    match extract_raw_lyrics_from_html(html) {
        Err(LyricsError::Extraction) => {},
        _ => panic!("expected an extraction failure"),
    }
}

#[test]
fn nested_elements_keep_text_and_structure() {
    let html = "<div data-lyrics-container=\"true\">Hello <i>world</i><br/><div>inner</div>tail</div>";
    let out = extract_raw_lyrics_from_html(html).unwrap();
    assert_eq!(out, "Hello world\ninnertail");
}

#[test]
fn single_quoted_marker_is_recognized() {
    let html = "<div data-lyrics-container='true'>Only line</div>";
    let out = extract_raw_lyrics_from_html(html).unwrap();
    assert_eq!(out, "Only line");
}

#[test]
fn text_outside_containers_is_ignored() {
    let html = "before<div data-lyrics-container=\"true\">kept</div>after";
    let out = extract_raw_lyrics_from_html(html).unwrap();
    assert_eq!(out, "kept");
}
