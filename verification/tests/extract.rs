use deck_assets::deck::{Card, Deck};
use deck_assets::error::DeckError;
use deck_assets::extract::{populate_cards, read_card, read_deck, read_entry, read_side};
use deck_assets::json::{parse_document, Json};

fn card(name: &str, front: Option<&str>, back: Option<&str>) -> Card {
    Card {
        name: name.to_string(),
        front_url: front.map(|url| url.to_string()),
        back_url: back.map(|url| url.to_string()),
    }
}

fn json(text: &str) -> Json {
    parse_document(text).unwrap()
}

fn expect_type_error(result: Result<Deck, DeckError>, kind: &str, value: Json) {
    match result {
        Err(DeckError::InvalidJsonType(found, held)) => {
            assert_eq!(found, kind);
            assert_eq!(held, value);
        }
        other => panic!("{:?}", other),
    }
}

const TWO_SECTIONS: &str = r#"{
    "name": "My Deck",
    "sections": {"primary": ["s1"], "secondary": ["s2"]},
    "entries": {
        "s1": [{"count": 1, "card_digest": {"name": "One", "image_uris": {
            "front": "https://x/large/one.jpg?1", "back": "https://x/large/one-back.jpg?2"}}}],
        "s2": [{"count": 1, "card_digest": {"name": "Two", "image_uris": {
            "front": "https://x/large/two.jpg?3"}}}]
    }
}"#;

#[test]
fn primary_cards_before_secondary_cards() {
    let deck = populate_cards(&json(TWO_SECTIONS)).unwrap();
    assert_eq!(
        deck,
        Deck {
            name: "My Deck".to_string(),
            cards: vec![
                card("One", Some("https://x/png/one.png"), Some("https://x/png/one-back.png")),
                card("Two", Some("https://x/png/two.png"), None),
            ],
        }
    );
}

#[test]
fn read_deck_parses_and_extracts() {
    let deck = read_deck(TWO_SECTIONS).unwrap();
    assert_eq!(deck.name, "My Deck");
    assert_eq!(deck.cards.len(), 2);
    assert!(matches!(read_deck("{\"name\": "), Err(DeckError::SerdeJsonError(_))));
    assert!(matches!(read_deck("{}"), Err(DeckError::InvalidJsonKey(_, _))));
}

#[test]
fn cards_in_document_order() {
    let deck = populate_cards(&json(
        r#"{
        "name": "d",
        "sections": {"primary": ["b", "a"], "secondary": ["a", "c"]},
        "entries": {
            "a": [{"count": 1, "card_digest": {"name": "A1"}}, {"count": 2, "card_digest": {"name": "A2"}}],
            "b": [{"count": 1, "card_digest": {"name": "B1"}}],
            "c": []
        }}"#,
    ))
    .unwrap();
    let names: Vec<&str> = deck.cards.iter().map(|card| card.name.as_str()).collect();
    assert_eq!(names, vec!["B1", "A1", "A2", "A2", "A1", "A2", "A2"]);
}

#[test]
fn entries_without_digest_give_no_cards() {
    let deck = populate_cards(&json(
        r#"{
        "name": "d",
        "sections": {"primary": ["a"], "secondary": ["b"]},
        "entries": {
            "a": [{"count": 3, "card_digest": null}, {"count": "many", "card_digest": null},
                  {"card_digest": null}, {"count": -1}, {}, 5, null],
            "b": [{"count": 1.5, "card_digest": null}]
        }}"#,
    ))
    .unwrap();
    assert_eq!(deck, Deck { name: "d".to_string(), cards: vec![] });
}

#[test]
fn entry_gives_count_copies() {
    let entry = json(r#"{"count": 3, "card_digest": {"name": "A", "image_uris": {"back": "b.jpg"}}}"#);
    let cards = read_entry(&entry).unwrap();
    assert_eq!(cards, vec![card("A", None, Some("b.png")); 3]);
}

#[test]
fn entry_with_count_zero_gives_no_cards() {
    let entry = json(r#"{"count": 0, "card_digest": {"name": "A"}}"#);
    assert_eq!(read_entry(&entry).unwrap(), vec![]);
    let unnamed = json(r#"{"count": 0, "card_digest": {"title": "A"}}"#);
    assert_eq!(read_entry(&unnamed).unwrap(), vec![]);
}

#[test]
fn entry_with_bad_count_fails() {
    for text in [
        r#"{"card_digest": {"name": "A"}}"#,
        r#"{"count": -1, "card_digest": {"name": "A"}}"#,
        r#"{"count": 1.0, "card_digest": {"name": "A"}}"#,
        r#"{"count": "1", "card_digest": {"name": "A"}}"#,
        r#"{"count": null, "card_digest": {"name": "A"}}"#,
    ] {
        let entry = json(text);
        match read_entry(&entry) {
            Err(DeckError::InvalidJsonType(kind, value)) => {
                assert_eq!(kind, "u64");
                assert_eq!(value, entry);
            }
            other => panic!("{:?}", other),
        }
    }
}

#[test]
fn digest_without_text_name_fails() {
    for text in [r#"{"image_uris": {}}"#, r#"{"name": 5}"#, r#"{"name": null}"#, r#"[1]"#, "true"] {
        let digest = json(text);
        match read_card(&digest) {
            Err(DeckError::InvalidJsonType(kind, value)) => {
                assert_eq!(kind, "String");
                assert_eq!(value, digest);
            }
            other => panic!("{:?}", other),
        }
    }
    let entry = json(r#"{"count": 2, "card_digest": {"name": 5}}"#);
    assert!(matches!(read_entry(&entry), Err(DeckError::InvalidJsonType(_, _))));
}

#[test]
fn side_absent_or_not_text_has_no_url() {
    assert_eq!(read_side(&json(r#"{"image_uris": {"back": "b"}}"#), "front"), None);
    assert_eq!(read_side(&json(r#"{"image_uris": {"front": null}}"#), "front"), None);
    assert_eq!(read_side(&json(r#"{"image_uris": {"front": 5}}"#), "front"), None);
    assert_eq!(read_side(&json(r#"{"image_uris": {"front": ["a"]}}"#), "front"), None);
    assert_eq!(read_side(&json(r#"{"image_uris": null}"#), "front"), None);
    assert_eq!(read_side(&json(r#"{"image_uris": "front"}"#), "front"), None);
    assert_eq!(read_side(&json(r#"{}"#), "front"), None);
}

#[test]
fn side_text_is_normalized() {
    let digest = json(r#"{"image_uris": {"front": "https://x/large/a.jpg?9", "back": "plain"}}"#);
    assert_eq!(read_side(&digest, "front"), Some("https://x/png/a.png".to_string()));
    assert_eq!(read_side(&digest, "back"), Some("plain".to_string()));
}

#[test]
fn missing_name_fails() {
    for text in [
        r#"{"sections": {"primary": [], "secondary": []}, "entries": {}}"#,
        r#"{"name": 5, "sections": {"primary": [], "secondary": []}, "entries": {}}"#,
        r#"[]"#,
        r#"null"#,
    ] {
        let document = json(text);
        match populate_cards(&document) {
            Err(DeckError::InvalidJsonKey(key, value)) => {
                assert_eq!(key, "name");
                assert_eq!(value, document);
            }
            other => panic!("{:?}", other),
        }
    }
}

#[test]
fn empty_name_is_a_name() {
    let deck = populate_cards(&json(r#"{"name": "", "sections": {"primary": [], "secondary": []}}"#));
    assert_eq!(deck.unwrap(), Deck { name: String::new(), cards: vec![] });
}

#[test]
fn sections_have_to_be_arrays() {
    expect_type_error(populate_cards(&json(r#"{"name": "d"}"#)), "Array", Json::Null);
    expect_type_error(
        populate_cards(&json(r#"{"name": "d", "sections": {"primary": "a", "secondary": []}}"#)),
        "Array",
        json(r#""a""#),
    );
    expect_type_error(
        populate_cards(&json(r#"{"name": "d", "sections": {"primary": [], "secondary": {"a": 1}}}"#)),
        "Array",
        json(r#"{"a": 1}"#),
    );
    expect_type_error(
        populate_cards(&json(r#"{"name": "d", "sections": {"primary": []}}"#)),
        "Array",
        Json::Null,
    );
}

#[test]
fn sections_are_checked_before_any_section_is_read() {
    expect_type_error(
        populate_cards(&json(r#"{"name": "d", "sections": {"primary": [5], "secondary": 7}}"#)),
        "Array",
        json("7"),
    );
}

#[test]
fn section_name_has_to_be_text() {
    let document = json(
        r#"{"name": "d", "sections": {"primary": [5], "secondary": []}, "entries": {"a": []}}"#,
    );
    expect_type_error(populate_cards(&document), "String", json(r#"{"a": []}"#));
}

#[test]
fn dangling_section_fails() {
    let document = json(
        r#"{"name": "d", "sections": {"primary": ["a"], "secondary": ["missing"]},
            "entries": {"a": [{"count": 1, "card_digest": {"name": "A"}}]}}"#,
    );
    expect_type_error(populate_cards(&document), "Array", Json::Null);
    let primary = json(
        r#"{"name": "d", "sections": {"primary": ["missing"], "secondary": []}, "entries": {}}"#,
    );
    expect_type_error(populate_cards(&primary), "Array", Json::Null);
    let none = json(r#"{"name": "d", "sections": {"primary": ["a"], "secondary": []}}"#);
    expect_type_error(populate_cards(&none), "Array", Json::Null);
}

#[test]
fn section_that_is_no_array_fails() {
    let document = json(
        r#"{"name": "d", "sections": {"primary": ["a"], "secondary": []}, "entries": {"a": {"count": 1}}}"#,
    );
    expect_type_error(populate_cards(&document), "Array", json(r#"{"count": 1}"#));
}

#[test]
fn first_failure_decides() {
    let document = json(
        r#"{"name": "d", "sections": {"primary": ["a", "missing"], "secondary": []},
            "entries": {"a": [{"count": 1, "card_digest": {"name": "A"}},
                              {"count": "x", "card_digest": {"name": "B"}},
                              {"count": 1, "card_digest": {"name": 5}}]}}"#,
    );
    expect_type_error(
        populate_cards(&document),
        "u64",
        json(r#"{"count": "x", "card_digest": {"name": "B"}}"#),
    );
}

#[test]
fn section_listed_twice_is_read_twice() {
    let deck = populate_cards(&json(
        r#"{"name": "d", "sections": {"primary": ["a", "a"], "secondary": ["a"]},
            "entries": {"a": [{"count": 1, "card_digest": {"name": "A"}}]}}"#,
    ))
    .unwrap();
    assert_eq!(deck.cards, vec![card("A", None, None); 3]);
}

#[test]
fn deck_clone_is_equal() {
    let deck = populate_cards(&json(TWO_SECTIONS)).unwrap();
    assert_eq!(deck.clone(), deck);
    assert_eq!(deck.cards[0].clone(), deck.cards[0]);
}
