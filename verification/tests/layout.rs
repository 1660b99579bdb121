use deck_assets::deck::{Card, Deck};
use deck_assets::layout::{
    asset_path, card_directory, card_downloads, plan_downloads, CardPlan, Download, Side,
};

fn card(name: &str, front: Option<&str>, back: Option<&str>) -> Card {
    Card {
        name: name.to_string(),
        front_url: front.map(|url| url.to_string()),
        back_url: back.map(|url| url.to_string()),
    }
}

#[test]
fn card_directory_replaces_slash() {
    assert_eq!(card_directory("deck", 0, "A/B"), "deck/0 - A(slash)B");
}

#[test]
fn card_directory_replaces_every_slash() {
    assert_eq!(card_directory("d", 12, "/A//B/"), "d/12 - (slash)A(slash)(slash)B(slash)");
}

#[test]
fn card_directory_counts_from_zero() {
    assert_eq!(card_directory("My Deck", 0, "Island"), "My Deck/0 - Island");
    assert_eq!(card_directory("My Deck", 100, "Island"), "My Deck/100 - Island");
}

#[test]
fn asset_path_joins_with_slash() {
    assert_eq!(asset_path("deck/0 - A", "Foo.png"), "deck/0 - A/Foo.png");
}

#[test]
fn default_filenames() {
    assert_eq!(Side::Front.default_filename(), "front.jpg");
    assert_eq!(Side::Back.default_filename(), "back.jpg");
}

#[test]
fn card_downloads_front_then_back() {
    let both = card("A", Some("f"), Some("b"));
    assert_eq!(
        card_downloads(&both),
        vec![
            Download { side: Side::Front, url: "f".to_string() },
            Download { side: Side::Back, url: "b".to_string() },
        ]
    );
}

#[test]
fn card_downloads_only_present_sides() {
    assert_eq!(card_downloads(&card("A", None, None)), vec![]);
    assert_eq!(
        card_downloads(&card("A", None, Some("b"))),
        vec![Download { side: Side::Back, url: "b".to_string() }]
    );
    assert_eq!(
        card_downloads(&card("A", Some("f"), None)),
        vec![Download { side: Side::Front, url: "f".to_string() }]
    );
}

#[test]
fn plan_downloads_one_plan_per_card() {
    let deck = Deck {
        name: "deck".to_string(),
        cards: vec![card("A/B", Some("f"), None), card("C", None, None), card("C", None, Some("b"))],
    };
    assert_eq!(
        plan_downloads(&deck),
        vec![
            CardPlan {
                directory: "deck/0 - A(slash)B".to_string(),
                downloads: vec![Download { side: Side::Front, url: "f".to_string() }],
            },
            CardPlan { directory: "deck/1 - C".to_string(), downloads: vec![] },
            CardPlan {
                directory: "deck/2 - C".to_string(),
                downloads: vec![Download { side: Side::Back, url: "b".to_string() }],
            },
        ]
    );
}

#[test]
fn plan_downloads_empty_deck() {
    let deck = Deck { name: "deck".to_string(), cards: vec![] };
    assert_eq!(plan_downloads(&deck), vec![]);
}
