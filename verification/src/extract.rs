//! From a deck document to the deck's cards.
//!
//! A document names the deck under `name`. Under `sections` it lists, in the
//! arrays `primary` and `secondary`, the names of the deck's sections, and
//! under `entries` it holds for each of these names an array of entries. An
//! entry has a `count` and, under `card_digest`, a card: its `name` and, under
//! `image_uris`, the URLs of its `front` and `back`.

use crate::deck::{text_view, Card, CardView, Deck, DeckView};
use crate::error::{DeckError, DeckErrorView};
use crate::json::{parse_document, parsed, Json, JsonView};
use crate::url::{normalize, normalized};
use vstd::prelude::*;

verus! {

/// The URL of one side of the card that `digest` describes: the canonical form
/// of the text under `side` in `image_uris`. The side has no URL where nothing
/// stands there, or something that is no text.
pub open spec fn side_url(digest: JsonView, side: Seq<char>) -> Option<Seq<char>> {
    match digest.member("image_uris"@).member(side).text() {
        Some(raw) => Some(normalized(raw)),
        None => None,
    }
}

/// The card that `digest` describes. A digest without a text under `name`
/// describes none.
pub open spec fn card_of(digest: JsonView) -> Result<CardView, DeckErrorView> {
    match digest.member("name"@).text() {
        Some(name) => Ok(
            CardView {
                name,
                front_url: side_url(digest, "front"@),
                back_url: side_url(digest, "back"@),
            },
        ),
        None => Err(DeckErrorView::InvalidJsonType("String"@, digest)),
    }
}

/// `count` copies of `card`.
pub open spec fn copies(card: CardView, count: nat) -> Seq<CardView> {
    Seq::new(count, |i: int| card)
}

/// The cards that one entry stands for. An entry without a `card_digest`, or
/// with `null` there, stands for none, whatever its `count`. Any other entry
/// stands for `count` copies of its card; it needs a `count` that is a whole
/// number from 0 to `u64::MAX`, and the digest is read only where a copy is
/// asked for.
pub open spec fn entry_cards(entry: JsonView) -> Result<Seq<CardView>, DeckErrorView> {
    let digest = entry.member("card_digest"@);
    if digest is Null {
        Ok(Seq::empty())
    } else {
        match entry.member("count"@).count() {
            None => Err(DeckErrorView::InvalidJsonType("u64"@, entry)),
            Some(count) => if count == 0 {
                Ok(Seq::empty())
            } else {
                match card_of(digest) {
                    Ok(card) => Ok(copies(card, count as nat)),
                    Err(error) => Err(error),
                }
            },
        }
    }
}

/// The cards of `entries`, entry after entry. The first entry that fails
/// decides the error.
pub open spec fn entries_cards(entries: Seq<JsonView>) -> Result<Seq<CardView>, DeckErrorView>
    decreases entries.len(),
{
    if entries.len() == 0 {
        Ok(Seq::empty())
    } else {
        match entries_cards(entries.drop_last()) {
            Err(error) => Err(error),
            Ok(cards) => match entry_cards(entries.last()) {
                Err(error) => Err(error),
                Ok(more) => Ok(cards + more),
            },
        }
    }
}

/// The cards of the section that `section` names, looked up in `entries`, the
/// value under the document's `entries`. The name has to be a text, and
/// `entries` has to hold an array under it.
pub open spec fn section_cards(entries: JsonView, section: JsonView) -> Result<
    Seq<CardView>,
    DeckErrorView,
> {
    match section.text() {
        None => Err(DeckErrorView::InvalidJsonType("String"@, entries)),
        Some(name) => match entries.member(name).items() {
            None => Err(DeckErrorView::InvalidJsonType("Array"@, entries.member(name))),
            Some(listed) => entries_cards(listed),
        },
    }
}

/// The cards of the sections that `sections` names, section after section. The
/// first section that fails decides the error.
pub open spec fn sections_cards(entries: JsonView, sections: Seq<JsonView>) -> Result<
    Seq<CardView>,
    DeckErrorView,
>
    decreases sections.len(),
{
    if sections.len() == 0 {
        Ok(Seq::empty())
    } else {
        match sections_cards(entries, sections.drop_last()) {
            Err(error) => Err(error),
            Ok(cards) => match section_cards(entries, sections.last()) {
                Err(error) => Err(error),
                Ok(more) => Ok(cards + more),
            },
        }
    }
}

/// The deck that `document` describes. The document needs a text under
/// `name` and arrays under `primary` and `secondary` in `sections`; these
/// are looked at in this order, before any section is. The cards are those of
/// the primary sections, then those of the secondary ones.
pub open spec fn extracted(document: JsonView) -> Result<DeckView, DeckErrorView> {
    let primary = document.member("sections"@).member("primary"@);
    let secondary = document.member("sections"@).member("secondary"@);
    match document.member("name"@).text() {
        None => Err(DeckErrorView::InvalidJsonKey("name"@, document)),
        Some(name) => match primary.items() {
            None => Err(DeckErrorView::InvalidJsonType("Array"@, primary)),
            Some(first) => match secondary.items() {
                None => Err(DeckErrorView::InvalidJsonType("Array"@, secondary)),
                Some(second) => match sections_cards(document.member("entries"@), first + second) {
                    Err(error) => Err(error),
                    Ok(cards) => Ok(DeckView { name, cards }),
                },
            },
        },
    }
}

/// Reads the URL of one side of a card from the card's digest.
pub fn read_side(digest: &Json, side: &str) -> (url: Option<String>)
    ensures
        text_view(url) == side_url(digest@, side@),
{
    match digest.member("image_uris").member(side).as_text() {
        Some(raw) => Some(normalize(raw)),
        None => None,
    }
}

/// Reads a card from its digest.
pub fn read_card(digest: &Json) -> (result: Result<Card, DeckError>)
    ensures
        match card_of(digest@) {
            Ok(card) => result matches Ok(found) && found@ == card,
            Err(error) => result matches Err(found) && found@ == error,
        },
{
    match digest.member("name").as_text() {
        Some(name) => Ok(
            Card {
                name: name.to_owned(),
                front_url: read_side(digest, "front"),
                back_url: read_side(digest, "back"),
            },
        ),
        None => Err(DeckError::InvalidJsonType("String".to_owned(), digest.deep_copy())),
    }
}

/// Reads the cards that one entry stands for.
pub fn read_entry(entry: &Json) -> (result: Result<Vec<Card>, DeckError>)
    ensures
        match entry_cards(entry@) {
            Ok(cards) => result matches Ok(found) && found.deep_view() == cards,
            Err(error) => result matches Err(found) && found@ == error,
        },
{
    let mut cards: Vec<Card> = Vec::new();
    let digest = entry.member("card_digest");
    if digest.is_null() {
        return Ok(cards);
    }
    let count = match entry.member("count").as_count() {
        Some(count) => count,
        None => {
            return Err(DeckError::InvalidJsonType("u64".to_owned(), entry.deep_copy()));
        },
    };
    if count == 0 {
        return Ok(cards);
    }
    let card = match read_card(digest) {
        Ok(card) => card,
        Err(error) => {
            return Err(error);
        },
    };
    let mut made: u64 = 0;
    while made < count
        invariant
            made <= count,
            cards.len() == made,
            forall|k: int| 0 <= k < made ==> cards@[k]@ == card@,
        decreases count - made,
    {
        cards.push(card.clone());
        made += 1;
    }
    Ok(cards)
}

/// Reads the cards of `entries`, entry after entry, and puts them behind
/// those that `cards` holds. On an error `cards` may hold more than before.
pub fn read_entries(entries: &Vec<Json>, cards: &mut Vec<Card>) -> (result: Result<(), DeckError>)
    ensures
        match entries_cards(entries.deep_view()) {
            Ok(more) => result is Ok && final(cards).deep_view() == old(cards).deep_view() + more,
            Err(error) => result matches Err(found) && found@ == error,
        },
{
    let ghost before = cards.deep_view();
    let ghost all = entries.deep_view();
    let mut i: usize = 0;
    while i < entries.len()
        invariant
            i <= entries.len(),
            all == entries.deep_view(),
            entries_cards(all.take(i as int)) matches Ok(more) && cards.deep_view() == before
                + more,
        decreases entries.len() - i,
    {
        let ghost done = entries_cards(all.take(i as int))->Ok_0;
        proof {
            assert(all.take(i + 1).drop_last() =~= all.take(i as int));
            lemma_entries_cards_prefix(all, i + 1);
        }
        match read_entry(&entries[i]) {
            Ok(mut more) => {
                let ghost added = more.deep_view();
                cards.append(&mut more);
                assert(before + done + added =~= before + (done + added));
            },
            Err(error) => {
                return Err(error);
            },
        }
        i += 1;
    }
    assert(all.take(i as int) =~= all);
    Ok(())
}

/// Where the cards of the first `n` entries cannot be had, those of all
/// entries cannot, and for the same reason.
pub proof fn lemma_entries_cards_prefix(entries: Seq<JsonView>, n: int)
    requires
        0 <= n <= entries.len(),
    ensures
        entries_cards(entries.take(n)) matches Err(error) ==> entries_cards(entries) == Err::<
            Seq<CardView>,
            DeckErrorView,
        >(error),
    decreases entries.len() - n,
{
    if n < entries.len() {
        assert(entries.take(n + 1).drop_last() =~= entries.take(n));
        lemma_entries_cards_prefix(entries, n + 1);
    } else {
        assert(entries.take(n) =~= entries);
    }
}

/// Where the cards of the first `n` sections cannot be had, those of all
/// sections cannot, and for the same reason.
pub proof fn lemma_sections_cards_prefix(entries: JsonView, sections: Seq<JsonView>, n: int)
    requires
        0 <= n <= sections.len(),
    ensures
        sections_cards(entries, sections.take(n)) matches Err(error) ==> sections_cards(
            entries,
            sections,
        ) == Err::<Seq<CardView>, DeckErrorView>(error),
    decreases sections.len() - n,
{
    if n < sections.len() {
        assert(sections.take(n + 1).drop_last() =~= sections.take(n));
        lemma_sections_cards_prefix(entries, sections, n + 1);
    } else {
        assert(sections.take(n) =~= sections);
    }
}

/// Reads the cards of the section that `section` names and puts them behind
/// those that `cards` holds. On an error `cards` may hold more than before.
pub fn read_section(entries: &Json, section: &Json, cards: &mut Vec<Card>) -> (result: Result<
    (),
    DeckError,
>)
    ensures
        match section_cards(entries@, section@) {
            Ok(more) => result is Ok && final(cards).deep_view() == old(cards).deep_view() + more,
            Err(error) => result matches Err(found) && found@ == error,
        },
{
    let name = match section.as_text() {
        Some(name) => name,
        None => {
            return Err(DeckError::InvalidJsonType("String".to_owned(), entries.deep_copy()));
        },
    };
    let listed = entries.member(name);
    match listed.as_items() {
        Some(items) => read_entries(items, cards),
        None => Err(DeckError::InvalidJsonType("Array".to_owned(), listed.deep_copy())),
    }
}

/// Reads the cards of the sections that `sections` names, section after
/// section, and puts them behind those that `cards` holds. On an error `cards`
/// may hold more than before.
pub fn read_sections(entries: &Json, sections: &Vec<Json>, cards: &mut Vec<Card>) -> (result: Result<
    (),
    DeckError,
>)
    ensures
        match sections_cards(entries@, sections.deep_view()) {
            Ok(more) => result is Ok && final(cards).deep_view() == old(cards).deep_view() + more,
            Err(error) => result matches Err(found) && found@ == error,
        },
{
    let ghost before = cards.deep_view();
    let ghost all = sections.deep_view();
    let mut i: usize = 0;
    while i < sections.len()
        invariant
            i <= sections.len(),
            all == sections.deep_view(),
            sections_cards(entries@, all.take(i as int)) matches Ok(more) && cards.deep_view()
                == before + more,
        decreases sections.len() - i,
    {
        proof {
            assert(all.take(i + 1).drop_last() =~= all.take(i as int));
            lemma_sections_cards_prefix(entries@, all, i + 1);
        }
        match read_section(entries, &sections[i], cards) {
            Ok(()) => {},
            Err(error) => {
                return Err(error);
            },
        }
        i += 1;
    }
    assert(all.take(i as int) =~= all);
    Ok(())
}

/// Reads a deck from its document.
pub fn populate_cards(json: &Json) -> (result: Result<Deck, DeckError>)
    ensures
        match extracted(json@) {
            Ok(deck) => result matches Ok(found) && found@ == deck,
            Err(error) => result matches Err(found) && found@ == error,
        },
{
    let name = match json.member("name").as_text() {
        Some(name) => name.to_owned(),
        None => {
            return Err(DeckError::InvalidJsonKey("name".to_owned(), json.deep_copy()));
        },
    };
    let sections = json.member("sections");
    let primary = sections.member("primary");
    let secondary = sections.member("secondary");
    let first = match primary.as_items() {
        Some(first) => first,
        None => {
            return Err(DeckError::InvalidJsonType("Array".to_owned(), primary.deep_copy()));
        },
    };
    let second = match secondary.as_items() {
        Some(second) => second,
        None => {
            return Err(DeckError::InvalidJsonType("Array".to_owned(), secondary.deep_copy()));
        },
    };
    let entries = json.member("entries");
    let mut cards: Vec<Card> = Vec::new();
    proof {
        lemma_sections_cards_concat(entries@, first.deep_view(), second.deep_view());
    }
    match read_sections(entries, first, &mut cards) {
        Ok(()) => {},
        Err(error) => {
            return Err(error);
        },
    }
    match read_sections(entries, second, &mut cards) {
        Ok(()) => {},
        Err(error) => {
            return Err(error);
        },
    }
    Ok(Deck { name, cards })
}

/// The cards of two lists of sections, one behind the other, are the cards of
/// the first list followed by those of the second; where the first list
/// fails, its error stands, else that of the second.
pub proof fn lemma_sections_cards_concat(
    entries: JsonView,
    first: Seq<JsonView>,
    second: Seq<JsonView>,
)
    ensures
        sections_cards(entries, first + second) == match sections_cards(entries, first) {
            Err(error) => Err(error),
            Ok(cards) => match sections_cards(entries, second) {
                Err(error) => Err(error),
                Ok(more) => Ok(cards + more),
            },
        },
    decreases second.len(),
{
    if second.len() > 0 {
        assert((first + second).drop_last() =~= first + second.drop_last());
        lemma_sections_cards_concat(entries, first, second.drop_last());
        match (
            sections_cards(entries, first),
            sections_cards(entries, second.drop_last()),
            section_cards(entries, second.last()),
        ) {
            (Ok(a), Ok(b), Ok(c)) => {
                assert(a + b + c =~= a + (b + c));
            },
            _ => {},
        }
    }
}

/// Reads a deck from the text of its document.
pub fn read_deck(text: &str) -> (result: Result<Deck, DeckError>)
    ensures
        match parsed(text@) {
            None => result matches Err(found) && found@ is SerdeJsonError,
            Some(document) => match extracted(document) {
                Ok(deck) => result matches Ok(found) && found@ == deck,
                Err(error) => result matches Err(found) && found@ == error,
            },
        },
{
    match parse_document(text) {
        Ok(json) => populate_cards(&json),
        Err(error) => Err(error),
    }
}

/// The names of the sections of `document`: those under `primary`, then those
/// under `secondary`. Where one of the two is no array, there are none.
pub open spec fn section_names(document: JsonView) -> Seq<JsonView> {
    let sections = document.member("sections"@);
    match (sections.member("primary"@).items(), sections.member("secondary"@).items()) {
        (Some(first), Some(second)) => first + second,
        _ => Seq::empty(),
    }
}

/// Whether `error` says that an entry's `count` is no whole number from 0 to
/// `u64::MAX`.
pub open spec fn is_count_error(error: DeckErrorView) -> bool {
    error matches DeckErrorView::InvalidJsonType(kind, _) && kind == "u64"@
}

/// Whether no entry of the section that `section` names has a card digest.
pub open spec fn section_without_digest(entries: JsonView, section: JsonView) -> bool {
    match section.text() {
        Some(name) => match entries.member(name).items() {
            Some(listed) => forall|e: int|
                0 <= e < listed.len() ==> (#[trigger] listed[e]).member("card_digest"@) is Null,
            None => true,
        },
        None => true,
    }
}

/// Entries without a card digest give no cards, and their `count` is never
/// looked at.
pub proof fn lemma_entries_without_digest(entries: Seq<JsonView>)
    requires
        forall|e: int| 0 <= e < entries.len() ==> (#[trigger] entries[e]).member("card_digest"@) is Null,
    ensures
        entries_cards(entries) == Ok::<Seq<CardView>, DeckErrorView>(Seq::empty()),
    decreases entries.len(),
{
    if entries.len() > 0 {
        lemma_entries_without_digest(entries.drop_last());
    }
}

/// Sections whose entries have no card digest give no cards, and where they
/// fail, it is not for a `count`.
pub proof fn lemma_sections_without_digest(entries: JsonView, sections: Seq<JsonView>)
    requires
        forall|s: int|
            0 <= s < sections.len() ==> section_without_digest(entries, #[trigger] sections[s]),
    ensures
        match sections_cards(entries, sections) {
            Ok(cards) => cards.len() == 0,
            Err(error) => !is_count_error(error),
        },
    decreases sections.len(),
{
    reveal_strlit("u64");
    reveal_strlit("String");
    reveal_strlit("Array");
    if sections.len() > 0 {
        lemma_sections_without_digest(entries, sections.drop_last());
        let section = sections.last();
        match section.text() {
            Some(name) => match entries.member(name).items() {
                Some(listed) => {
                    lemma_entries_without_digest(listed);
                },
                None => {},
            },
            None => {
                assert("String"@.len() != "u64"@.len());
            },
        }
    }
}

/// Where no entry of a document has a card digest, the deck has no cards, and
/// where the document cannot be read, it is not for the `count` of an entry.
pub proof fn lemma_no_digest_no_cards(document: JsonView)
    requires
        forall|s: int|
            0 <= s < section_names(document).len() ==> section_without_digest(
                document.member("entries"@),
                #[trigger] section_names(document)[s],
            ),
    ensures
        match extracted(document) {
            Ok(deck) => deck.cards.len() == 0,
            Err(error) => !is_count_error(error),
        },
{
    reveal_strlit("u64");
    reveal_strlit("Array");
    assert("Array"@.len() != "u64"@.len());
    let sections = document.member("sections"@);
    match (sections.member("primary"@).items(), sections.member("secondary"@).items()) {
        (Some(first), Some(second)) => {
            let names = first + second;
            assert forall|s: int| 0 <= s < names.len() implies section_without_digest(
                document.member("entries"@),
                #[trigger] names[s],
            ) by {
                assert(names[s] == section_names(document)[s]);
            }
            lemma_sections_without_digest(document.member("entries"@), names);
        },
        _ => {},
    }
}

/// An entry with a card digest and the count `count` stands for exactly
/// `count` cards, each the card of its digest. The digest has to describe a
/// card where a copy is asked for.
pub proof fn lemma_entry_copies(entry: JsonView, count: u64, card: CardView)
    requires
        !(entry.member("card_digest"@) is Null),
        entry.member("count"@).count() == Some(count),
        count > 0 ==> card_of(entry.member("card_digest"@)) == Ok::<CardView, DeckErrorView>(card),
    ensures
        entry_cards(entry) matches Ok(cards) && cards.len() == count && forall|i: int|
            0 <= i < cards.len() ==> cards[i] == card,
{
}

/// The cards of two lists of entries, one behind the other, are the cards of
/// the first list followed by those of the second; where the first list
/// fails, its error stands, else that of the second.
pub proof fn lemma_entries_cards_concat(first: Seq<JsonView>, second: Seq<JsonView>)
    ensures
        entries_cards(first + second) == match entries_cards(first) {
            Err(error) => Err(error),
            Ok(cards) => match entries_cards(second) {
                Err(error) => Err(error),
                Ok(more) => Ok(cards + more),
            },
        },
    decreases second.len(),
{
    if second.len() > 0 {
        assert((first + second).drop_last() =~= first + second.drop_last());
        lemma_entries_cards_concat(first, second.drop_last());
        match (entries_cards(first), entries_cards(second.drop_last()), entry_cards(second.last())) {
            (Ok(a), Ok(b), Ok(c)) => {
                assert(a + b + c =~= a + (b + c));
            },
            _ => {},
        }
    }
}

/// The cards of a deck are those of its primary sections, in the order of
/// the document, followed by those of its secondary sections, in the order of
/// the document.
pub proof fn lemma_primary_before_secondary(document: JsonView)
    ensures
        extracted(document) matches Ok(deck) ==> {
            let entries = document.member("entries"@);
            let sections = document.member("sections"@);
            &&& sections.member("primary"@).items() matches Some(first)
            &&& sections.member("secondary"@).items() matches Some(second)
            &&& sections_cards(entries, first) matches Ok(firsts)
            &&& sections_cards(entries, second) matches Ok(seconds)
            &&& deck.cards == firsts + seconds
        },
{
    let entries = document.member("entries"@);
    let sections = document.member("sections"@);
    match (sections.member("primary"@).items(), sections.member("secondary"@).items()) {
        (Some(first), Some(second)) => {
            lemma_sections_cards_concat(entries, first, second);
        },
        _ => {},
    }
}

/// A side of a card has no URL where the digest holds no text for it, and
/// else its URL is the canonical form of that text.
pub proof fn lemma_side_url(digest: JsonView, side: Seq<char>)
    ensures
        match digest.member("image_uris"@).member(side).text() {
            None => side_url(digest, side) is None,
            Some(raw) => side_url(digest, side) == Some(normalized(raw)),
        },
        card_of(digest) matches Ok(card) ==> card.front_url == side_url(digest, "front"@)
            && card.back_url == side_url(digest, "back"@),
{
}

/// A document that names a section for which `entries` holds nothing cannot
/// be read.
pub proof fn lemma_dangling_section(document: JsonView, at: int)
    requires
        0 <= at < section_names(document).len(),
        section_names(document)[at].text() matches Some(name) && document.member(
            "entries"@,
        ).member(name) is Null,
    ensures
        extracted(document) is Err,
{
    let entries = document.member("entries"@);
    let names = section_names(document);
    lemma_sections_cards_prefix(entries, names, at + 1);
}

/// The number of cards that one entry asks for: its `count`, where it has a
/// card digest.
pub open spec fn entry_copies(entry: JsonView) -> nat {
    if entry.member("card_digest"@) is Null {
        0
    } else {
        match entry.member("count"@).count() {
            Some(count) => count as nat,
            None => 0,
        }
    }
}

/// The number of cards that `entries` ask for.
pub open spec fn entries_copies(entries: Seq<JsonView>) -> nat
    decreases entries.len(),
{
    if entries.len() == 0 {
        0
    } else {
        entries_copies(entries.drop_last()) + entry_copies(entries.last())
    }
}

/// The number of cards that the sections that `sections` names ask for.
pub open spec fn sections_copies(entries: JsonView, sections: Seq<JsonView>) -> nat
    decreases sections.len(),
{
    if sections.len() == 0 {
        0
    } else {
        sections_copies(entries, sections.drop_last()) + match sections.last().text() {
            Some(name) => match entries.member(name).items() {
                Some(listed) => entries_copies(listed),
                None => 0,
            },
            None => 0,
        }
    }
}

/// Entries that can be read give as many cards as they ask for.
pub proof fn lemma_entries_card_count(entries: Seq<JsonView>)
    ensures
        entries_cards(entries) matches Ok(cards) ==> cards.len() == entries_copies(entries),
    decreases entries.len(),
{
    if entries.len() > 0 {
        lemma_entries_card_count(entries.drop_last());
    }
}

/// Sections that can be read give as many cards as their entries ask for.
pub proof fn lemma_sections_card_count(entries: JsonView, sections: Seq<JsonView>)
    ensures
        sections_cards(entries, sections) matches Ok(cards) ==> cards.len() == sections_copies(
            entries,
            sections,
        ),
    decreases sections.len(),
{
    if sections.len() > 0 {
        lemma_sections_card_count(entries, sections.drop_last());
        match sections.last().text() {
            Some(name) => match entries.member(name).items() {
                Some(listed) => {
                    lemma_entries_card_count(listed);
                },
                None => {},
            },
            None => {},
        }
    }
}

/// A deck has as many cards as the entries with a card digest ask for, each
/// counted as often as its section is listed.
pub proof fn lemma_card_count(document: JsonView)
    ensures
        extracted(document) matches Ok(deck) ==> deck.cards.len() == sections_copies(
            document.member("entries"@),
            section_names(document),
        ),
{
    lemma_sections_card_count(document.member("entries"@), section_names(document));
}

} // verus!
