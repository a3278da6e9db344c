use basitune::keys::cache_key;
use basitune::text::normalize_string;

#[test]
fn normalize_lowercases_and_trims() {
    assert_eq!(normalize_string("  The Beatles  "), "the beatles");
    assert_eq!(normalize_string("ABC"), "abc");
    assert_eq!(normalize_string(""), "");
    assert_eq!(normalize_string("   "), "");
}

#[test]
fn normalize_strips_diacritics() {
    assert_eq!(normalize_string("Queensr\u{ff}che"), "queensryche");
    assert_eq!(normalize_string("QUEENSR\u{178}CHE"), "queensryche");
    assert_eq!(normalize_string("Beyonc\u{e9}"), "beyonce");
    assert_eq!(normalize_string("\u{c1}\u{e0}\u{e2}\u{e3}\u{e5}"), "aaaaa");
    assert_eq!(normalize_string("\u{e9}\u{e8}\u{ea}"), "eee");
    assert_eq!(normalize_string("\u{ed}\u{ec}\u{ee}"), "iii");
    assert_eq!(normalize_string("\u{f3}\u{f2}\u{f4}\u{f5}"), "oooo");
    assert_eq!(normalize_string("\u{fa}\u{f9}\u{fb}"), "uuu");
    assert_eq!(normalize_string("\u{fd}\u{ff}"), "yy");
    assert_eq!(normalize_string("\u{f1}"), "n");
    assert_eq!(normalize_string("\u{e7}"), "c");
}

#[test]
fn normalize_keeps_other_characters() {
    assert_eq!(normalize_string("AC/DC!"), "ac/dc!");
    assert_eq!(normalize_string("M\u{f6}tley"), "m\u{f6}tley");
}

#[test]
fn cache_key_joins_with_separator() {
    assert_eq!(cache_key("The Beatles", "Yesterday"), "the beatles|yesterday");
    assert_eq!(cache_key("", ""), "|");
}

#[test]
fn cache_key_insensitive_to_case_space_diacritics() {
    let a = cache_key("  QUEENSR\u{178}CHE ", "Silent Lucidity\t");
    let b = cache_key("Queensryche", "silent lucidity");
    assert_eq!(a, b);
    assert_eq!(a, "queensryche|silent lucidity");
}
