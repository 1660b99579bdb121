use deck_assets::url::normalize;

#[test]
fn normalize_large_jpg_with_query() {
    assert_eq!(normalize("https://x/large/card.jpg?123"), "https://x/png/card.png");
}

#[test]
fn normalize_leaves_canonical_url() {
    assert_eq!(normalize("https://x/small/card.png"), "https://x/small/card.png");
}

#[test]
fn normalize_replaces_every_occurrence() {
    assert_eq!(normalize("large/large.jpg.jpg"), "png/png.png.png");
}

#[test]
fn normalize_cuts_at_first_question_mark() {
    assert_eq!(normalize("a?b?c"), "a");
    assert_eq!(normalize("?a"), "");
}

#[test]
fn normalize_replaces_before_it_cuts() {
    assert_eq!(normalize("x/large.jpg?large.jpg"), "x/png.png");
}

#[test]
fn normalize_size_before_type() {
    // `.jpg` that only arises from the first replacement is replaced too.
    assert_eq!(normalize(".jlargepg"), ".jpngpg");
    assert_eq!(normalize("a.jpg"), "a.png");
}

#[test]
fn normalize_empty() {
    assert_eq!(normalize(""), "");
}

#[test]
fn normalize_keeps_other_characters() {
    assert_eq!(normalize("https://é/large/ü.jpg?q"), "https://é/png/ü.png");
}
