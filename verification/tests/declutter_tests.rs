use basitune::declutter::clean_song_title;

#[test]
fn remaster_paren_forms_strip_to_same_title() {
    assert_eq!(clean_song_title("Song (Remastered 2003)"), "Song");
    assert_eq!(clean_song_title("Song (2003 Remaster)"), "Song");
}

#[test]
fn bracket_and_year_qualifiers_strip() {
    assert_eq!(clean_song_title("Song [Remastered 2003]"), "Song");
    assert_eq!(clean_song_title("Song (2003)"), "Song");
    assert_eq!(clean_song_title("Song [2011]"), "Song");
}

#[test]
fn keyword_qualifiers_strip() {
    assert_eq!(clean_song_title("Song (Acoustic)"), "Song");
    assert_eq!(clean_song_title("Song (Live at Wembley)"), "Song");
    assert_eq!(clean_song_title("Song (Album Version)"), "Song");
    assert_eq!(clean_song_title("Song (Radio Edit)"), "Song");
}

#[test]
fn dash_suffixes_strip() {
    assert_eq!(clean_song_title("Song - 2003 Remastered"), "Song");
    assert_eq!(clean_song_title("Song - Remastered"), "Song");
    assert_eq!(clean_song_title("Song - 2009 Remaster"), "Song");
}

#[test]
fn unrelated_text_is_kept() {
    assert_eq!(clean_song_title("Song (feat. Someone)"), "Song (feat. Someone)");
    assert_eq!(clean_song_title("Yesterday"), "Yesterday");
    assert_eq!(clean_song_title("AC-DC Song"), "AC-DC Song");
    assert_eq!(clean_song_title(""), "");
}

#[test]
fn multiple_rules_apply_independently() {
    assert_eq!(clean_song_title("Song (Acoustic) (2003)"), "Song");
    assert_eq!(clean_song_title("Song (Remastered) [1999]"), "Song");
}
