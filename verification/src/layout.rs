//! Where the images of a deck are kept: one directory for the deck, and in it
//! one directory for each card.

use crate::deck::{Card, CardView, Deck, DeckView};
use crate::text::{decimal, decimal_text, replace_all, replaced};
use vstd::prelude::*;

verus! {

/// The two sides of a card.
#[derive(Debug, Clone, Copy, PartialEq, Eq)]
pub enum Side {
    Front,
    Back,
}

/// The filename of a side's image where the response names none that can be
/// read.
pub open spec fn default_filename_of(side: Side) -> Seq<char> {
    match side {
        Side::Front => "front.jpg"@,
        Side::Back => "back.jpg"@,
    }
}

/// The name of the directory of the card at position `index` of its deck:
/// the position, counted from zero, and the card's name, in which
/// `(slash)` stands for each `/`.
pub open spec fn directory_name(index: nat, card_name: Seq<char>) -> Seq<char> {
    decimal(index) + " - "@ + replaced(card_name, "/"@, "(slash)"@)
}

/// The path of the directory of the card at position `index` of the deck
/// `deck_name`.
pub open spec fn directory_path(deck_name: Seq<char>, index: nat, card_name: Seq<char>) -> Seq<
    char,
> {
    deck_name + "/"@ + directory_name(index, card_name)
}

/// The path of the file `filename` in `directory`.
pub open spec fn file_path(directory: Seq<char>, filename: Seq<char>) -> Seq<char> {
    directory + "/"@ + filename
}

/// One image to fetch: its URL and the side that it shows.
#[derive(Debug, PartialEq, Eq)]
pub struct Download {
    pub side: Side,
    pub url: String,
}

/// What is to be done for one card: the directory to make, and the images to
/// fetch into it.
#[derive(Debug, PartialEq, Eq)]
pub struct CardPlan {
    pub directory: String,
    pub downloads: Vec<Download>,
}

/// What a `Download` holds.
pub struct DownloadView {
    pub side: Side,
    pub url: Seq<char>,
}

/// What a `CardPlan` holds.
pub struct CardPlanView {
    pub directory: Seq<char>,
    pub downloads: Seq<DownloadView>,
}

impl View for Download {
    type V = DownloadView;

    open spec fn view(&self) -> DownloadView {
        DownloadView { side: self.side, url: self.url@ }
    }
}

impl DeepView for Download {
    type V = DownloadView;

    open spec fn deep_view(&self) -> DownloadView {
        self@
    }
}

impl View for CardPlan {
    type V = CardPlanView;

    open spec fn view(&self) -> CardPlanView {
        CardPlanView { directory: self.directory@, downloads: self.downloads.deep_view() }
    }
}

impl DeepView for CardPlan {
    type V = CardPlanView;

    open spec fn deep_view(&self) -> CardPlanView {
        self@
    }
}

/// The download for one side of a card, if the side has an image.
pub open spec fn side_download(side: Side, url: Option<Seq<char>>) -> Seq<DownloadView> {
    match url {
        Some(url) => seq![DownloadView { side, url }],
        None => Seq::empty(),
    }
}

/// The downloads for a card: its front, then its back, each where it has an
/// image.
pub open spec fn downloads_of(card: CardView) -> Seq<DownloadView> {
    side_download(Side::Front, card.front_url) + side_download(Side::Back, card.back_url)
}

/// What is to be done for the card at position `index` of `deck`.
pub open spec fn card_plan(deck: DeckView, index: int) -> CardPlanView {
    CardPlanView {
        directory: directory_path(deck.name, index as nat, deck.cards[index].name),
        downloads: downloads_of(deck.cards[index]),
    }
}

/// What is to be done for `deck`, card after card.
pub open spec fn planned(deck: DeckView) -> Seq<CardPlanView> {
    Seq::new(deck.cards.len(), |index: int| card_plan(deck, index))
}

impl Side {
    /// The filename of this side's image where the response names none that
    /// can be read.
    pub fn default_filename(&self) -> (name: &'static str)
        ensures
            name@ == default_filename_of(*self),
    {
        match self {
            Side::Front => "front.jpg",
            Side::Back => "back.jpg",
        }
    }
}

/// The path of the directory of the card `card_name`, which stands at position
/// `index` of the deck `deck_name`.
pub fn card_directory(deck_name: &str, index: usize, card_name: &str) -> (path: String)
    ensures
        path@ == directory_path(deck_name@, index as nat, card_name@),
{
    let mut path = deck_name.to_owned();
    path.append("/");
    path.append(decimal_text(index).as_str());
    path.append(" - ");
    path.append(replace_all(card_name, "/", "(slash)").as_str());
    path
}

/// The path of the file `filename` in `directory`.
pub fn asset_path(directory: &str, filename: &str) -> (path: String)
    ensures
        path@ == file_path(directory@, filename@),
{
    let mut path = directory.to_owned();
    path.append("/");
    path.append(filename);
    path
}

/// Lists the images of `card` that are to be fetched.
pub fn card_downloads(card: &Card) -> (downloads: Vec<Download>)
    ensures
        downloads.deep_view() == downloads_of(card@),
{
    let mut downloads: Vec<Download> = Vec::new();
    match &card.front_url {
        Some(url) => {
            downloads.push(Download { side: Side::Front, url: url.clone() });
        },
        None => {},
    }
    match &card.back_url {
        Some(url) => {
            downloads.push(Download { side: Side::Back, url: url.clone() });
        },
        None => {},
    }
    downloads
}

/// Lists, card after card, what is to be done to fetch the images of `deck`.
pub fn plan_downloads(deck: &Deck) -> (plans: Vec<CardPlan>)
    ensures
        plans.deep_view() == planned(deck@),
{
    let mut plans: Vec<CardPlan> = Vec::new();
    let mut i: usize = 0;
    while i < deck.cards.len()
        invariant
            i <= deck.cards.len(),
            plans.len() == i,
            forall|k: int| 0 <= k < i ==> plans@[k]@ == card_plan(deck@, k),
        decreases deck.cards.len() - i,
    {
        let card = &deck.cards[i];
        plans.push(
            CardPlan {
                directory: card_directory(deck.name.as_str(), i, card.name.as_str()),
                downloads: card_downloads(card),
            },
        );
        i += 1;
    }
    plans
}

} // verus!
