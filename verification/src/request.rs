//! The listing of cases on the main page: each card's link, name and price.

use vstd::prelude::*;
use crate::html::{element_attr, element_match_count, element_texts, page_match_count, selector_parses, Page, Query};
use crate::structs::opt_text;
use crate::text::strings_view;

verus! {

/// A scraper rooted at a main page.
pub struct Scraping {
    pub mainpage: String,
}

/// What the rules read from one card of the listing: the link of the card's
/// first anchor, if the card has an anchor and that anchor has a link, and
/// the card's text fragments.
pub struct Card {
    pub link: Option<String>,
    pub texts: Vec<String>,
}

/// The abstract content of a card.
pub struct CardView {
    pub link: Option<Seq<char>>,
    pub texts: Seq<Seq<char>>,
}

impl View for Card {
    type V = CardView;

    open spec fn view(&self) -> CardView {
        CardView { link: opt_text(self.link), texts: strings_view(self.texts@) }
    }
}

/// The links, item names and prices of a listing; the `i`-th of each belong
/// to the same card.
pub struct Listing {
    pub links: Vec<String>,
    pub items: Vec<String>,
    pub prices: Vec<String>,
}

/// The abstract content of a sequence of cards.
pub open spec fn cards_view(cards: Seq<Card>) -> Seq<CardView> {
    cards.map_values(|c: Card| c@)
}

/// Every card that has a link has at least eight text fragments, so that its
/// fourth (the item) and eighth (the price) can be read.
pub open spec fn cards_complete(cards: Seq<CardView>) -> bool {
    forall|i: int|
        0 <= i < cards.len() ==> (#[trigger] cards[i]).link is Some ==> cards[i].texts.len() > 7
}

/// The rows of a listing: for each card that has a link, in order, the link,
/// the fourth text fragment and the eighth.
pub open spec fn listing_rows(cards: Seq<CardView>) -> Seq<(Seq<char>, Seq<char>, Seq<char>)>
    decreases cards.len(),
{
    if cards.len() == 0 {
        Seq::empty()
    } else {
        let rest = listing_rows(cards.drop_last());
        let c = cards.last();
        match c.link {
            Some(l) => rest.push((l, c.texts[3], c.texts[7])),
            None => rest,
        }
    }
}

/// The links of the rows.
pub open spec fn row_links(rows: Seq<(Seq<char>, Seq<char>, Seq<char>)>) -> Seq<Seq<char>> {
    rows.map_values(|r: (Seq<char>, Seq<char>, Seq<char>)| r.0)
}

/// The items of the rows.
pub open spec fn row_items(rows: Seq<(Seq<char>, Seq<char>, Seq<char>)>) -> Seq<Seq<char>> {
    rows.map_values(|r: (Seq<char>, Seq<char>, Seq<char>)| r.1)
}

/// The prices of the rows.
pub open spec fn row_prices(rows: Seq<(Seq<char>, Seq<char>, Seq<char>)>) -> Seq<Seq<char>> {
    rows.map_values(|r: (Seq<char>, Seq<char>, Seq<char>)| r.2)
}

/// One more card adds one row when it has a link, and none otherwise.
proof fn lemma_rows_step(cards: Seq<CardView>, i: int)
    requires
        0 <= i < cards.len(),
    ensures
        listing_rows(cards.subrange(0, i + 1)) == (match cards[i].link {
            Some(l) => listing_rows(cards.subrange(0, i)).push(
                (l, cards[i].texts[3], cards[i].texts[7]),
            ),
            None => listing_rows(cards.subrange(0, i)),
        }),
{
    assert(cards.subrange(0, i + 1).drop_last() =~= cards.subrange(0, i));
}

/// `l` holds exactly the given rows.
pub open spec fn listing_holds(l: Listing, rows: Seq<(Seq<char>, Seq<char>, Seq<char>)>) -> bool {
    &&& strings_view(l.links@) == row_links(rows)
    &&& strings_view(l.items@) == row_items(rows)
    &&& strings_view(l.prices@) == row_prices(rows)
}

/// The selector of the cards of the listing.
pub open spec fn card_selector() -> Seq<char> {
    ".col-lg-4.col-md-6.col-widen.text-center"@
}

/// The selector of a card's anchor.
pub open spec fn anchor_selector() -> Seq<char> {
    "a"@
}

/// What the rules read from the `i`-th card of the page parsed from `source`:
/// with no anchor, nothing; otherwise the first anchor's `href` and the card's
/// text fragments.
pub open spec fn card_at(source: Seq<char>, i: int) -> CardView {
    let path = seq![(card_selector(), i)];
    if element_match_count(source, path, anchor_selector()) > 0 {
        CardView {
            link: element_attr(source, path.push((anchor_selector(), 0)), "href"@),
            texts: element_texts(source, path),
        }
    } else {
        CardView { link: None, texts: Seq::empty() }
    }
}

/// The first `n` cards of the page parsed from `source`.
pub open spec fn page_cards(source: Seq<char>, n: nat) -> Seq<CardView> {
    Seq::new(n, |i: int| card_at(source, i))
}

/// How many cards of the page the listing reads: all of them, or only the
/// first when `first_only` holds.
pub open spec fn cards_read(source: Seq<char>, first_only: bool) -> nat {
    let count = page_match_count(source, card_selector());
    if first_only && count > 1 {
        1
    } else {
        count
    }
}

/// The page parsed from `source` can be listed: the selectors parse and every
/// card read is complete.
pub open spec fn page_listable(source: Seq<char>, first_only: bool) -> bool {
    let n = cards_read(source, first_only);
    &&& selector_parses(card_selector())
    &&& n > 0 ==> selector_parses(anchor_selector())
    &&& cards_complete(page_cards(source, n))
}

/// The three columns of a listing that holds some rows have one entry per row.
pub proof fn law_listing_columns_align(l: Listing, rows: Seq<(Seq<char>, Seq<char>, Seq<char>)>)
    requires
        listing_holds(l, rows),
    ensures
        l.links@.len() == rows.len(),
        l.items@.len() == rows.len(),
        l.prices@.len() == rows.len(),
{
    assert(strings_view(l.links@).len() == l.links@.len());
    assert(strings_view(l.items@).len() == l.items@.len());
    assert(strings_view(l.prices@).len() == l.prices@.len());
}

/// A listing has at most one row per card.
pub proof fn law_listing_rows_bounded(cards: Seq<CardView>)
    ensures
        listing_rows(cards).len() <= cards.len(),
    decreases cards.len(),
{
    if cards.len() > 0 {
        law_listing_rows_bounded(cards.drop_last());
    }
}

/// The listing of the first card of a page has at most one row.
pub proof fn law_page_listing_single_row(source: Seq<char>)
    ensures
        listing_rows(page_cards(source, cards_read(source, true))).len() <= 1,
{
    law_listing_rows_bounded(page_cards(source, cards_read(source, true)));
}

impl Listing {
    /// The listing of the given cards: for each card with a link, its link,
    /// its fourth text fragment (the item) and its eighth (the price).
    /// `None` when a card with a link has fewer than eight fragments.
    pub fn from_cards(cards: &Vec<Card>) -> (r: Option<Listing>)
        ensures
            r.is_some() == cards_complete(cards_view(cards@)),
            r matches Some(l) ==> {
                &&& listing_holds(l, listing_rows(cards_view(cards@)))
                &&& l.links@.len() == l.items@.len()
                &&& l.items@.len() == l.prices@.len()
            },
    {
        let ghost all = cards_view(cards@);
        let mut links: Vec<String> = Vec::new();
        let mut items: Vec<String> = Vec::new();
        let mut prices: Vec<String> = Vec::new();
        let mut i: usize = 0;
        assert(strings_view(links@) =~= Seq::<Seq<char>>::empty());
        assert(strings_view(items@) =~= Seq::<Seq<char>>::empty());
        assert(strings_view(prices@) =~= Seq::<Seq<char>>::empty());
        assert(all.subrange(0, 0) =~= Seq::<CardView>::empty());
        while i < cards.len()
            invariant
                i <= cards.len(),
                all == cards_view(cards@),
                cards_complete(all.subrange(0, i as int)),
                strings_view(links@) == row_links(listing_rows(all.subrange(0, i as int))),
                strings_view(items@) == row_items(listing_rows(all.subrange(0, i as int))),
                strings_view(prices@) == row_prices(listing_rows(all.subrange(0, i as int))),
            decreases cards.len() - i,
        {
            let card = &cards[i];
            let ghost before = listing_rows(all.subrange(0, i as int));
            proof {
                lemma_rows_step(all, i as int);
            }
            match &card.link {
                Some(link) => {
                    if card.texts.len() <= 7 {
                        assert(all[i as int].link is Some);
                        return None;
                    }
                    let ghost row = (link@, card.texts@[3]@, card.texts@[7]@);
                    let ghost old_links = links@;
                    let ghost old_items = items@;
                    let ghost old_prices = prices@;
                    links.push(link.clone());
                    items.push(card.texts[3].clone());
                    prices.push(card.texts[7].clone());
                    assert(strings_view(links@) =~= strings_view(old_links).push(row.0));
                    assert(strings_view(items@) =~= strings_view(old_items).push(row.1));
                    assert(strings_view(prices@) =~= strings_view(old_prices).push(row.2));
                    assert(row_links(before.push(row)) =~= row_links(before).push(row.0));
                    assert(row_items(before.push(row)) =~= row_items(before).push(row.1));
                    assert(row_prices(before.push(row)) =~= row_prices(before).push(row.2));
                    assert(listing_rows(all.subrange(0, i + 1)) == before.push(row));
                    assert(strings_view(links@) =~= row_links(before.push(row)));
                    assert(strings_view(items@) =~= row_items(before.push(row)));
                    assert(strings_view(prices@) =~= row_prices(before.push(row)));
                },
                None => {},
            }
            assert forall|k: int|
                0 <= k < i + 1 && (#[trigger] all.subrange(0, i + 1)[k]).link is Some implies all.subrange(
                0,
                i + 1,
            )[k].texts.len() > 7 by {
                if k < i {
                    assert(all.subrange(0, i + 1)[k] == all.subrange(0, i as int)[k]);
                }
            }
            i = i + 1;
        }
        assert(all.subrange(0, cards.len() as int) =~= all);
        Some(Listing { links, items, prices })
    }
}

/// Reads the first `n` cards of a page.
fn read_cards(page: &Page, nodes: &Vec<crate::html::Node>, n: usize) -> (r: Option<Vec<Card>>)
    requires
        n <= nodes@.len(),
        forall|i: int|
            0 <= i < nodes@.len() ==> (#[trigger] nodes@[i]).source() == page.source()
                && nodes@[i].path() == seq![(card_selector(), i)],
    ensures
        r.is_some() == (n > 0 ==> selector_parses(anchor_selector())),
        r matches Some(cards) ==> cards_view(cards@) == page_cards(page.source(), n as nat),
{
    let mut cards: Vec<Card> = Vec::new();
    let mut i: usize = 0;
    while i < n
        invariant
            n <= nodes@.len(),
            i <= n,
            i > 0 ==> selector_parses(anchor_selector()),
            forall|k: int|
                0 <= k < nodes@.len() ==> (#[trigger] nodes@[k]).source() == page.source()
                    && nodes@[k].path() == seq![(card_selector(), k)],
            cards@.len() == i,
            cards_view(cards@) == page_cards(page.source(), i as nat),
        decreases n - i,
    {
        let anchor = match Query::parse("a") {
            Some(q) => q,
            None => return None,
        };
        let node = &nodes[i];
        let anchors = node.select(&anchor);
        let ghost old_cards = cards@;
        if anchors.len() == 0 {
            let texts: Vec<String> = Vec::new();
            assert(strings_view(texts@) =~= Seq::<Seq<char>>::empty());
            cards.push(Card { link: None, texts });
        } else {
            let texts = node.texts();
            let link = anchors[0].attr("href");
            assert(opt_text(link) == element_attr(
                page.source(),
                seq![(card_selector(), i as int)].push((anchor_selector(), 0)),
                "href"@,
            ));
            cards.push(Card { link, texts });
        }
        assert(cards@[i as int]@ == card_at(page.source(), i as int));
        proof {
            assert(cards_view(cards@) =~= cards_view(old_cards).push(cards@[i as int]@));
        }
        i = i + 1;
        assert(cards_view(cards@) =~= page_cards(page.source(), i as nat));
    }
    Some(cards)
}

/// The listing of a page: of all its cards, or of the first one only.
fn listing_of_page(body: &str, first_only: bool) -> (r: Option<Listing>)
    ensures
        r.is_some() == page_listable(body@, first_only),
        r matches Some(l) ==> listing_holds(
            l,
            listing_rows(page_cards(body@, cards_read(body@, first_only))),
        ),
{
    let page = Page::parse(body);
    let cards_query = match Query::parse(".col-lg-4.col-md-6.col-widen.text-center") {
        Some(q) => q,
        None => return None,
    };
    let nodes = page.select(&cards_query);
    let n = if first_only && nodes.len() > 1 {
        1
    } else {
        nodes.len()
    };
    match read_cards(&page, &nodes, n) {
        Some(cards) => Listing::from_cards(&cards),
        None => None,
    }
}

impl Scraping {
    /// The listing of every case card of a main page: for each card whose
    /// first anchor has a link, the link, the item name (the card's fourth
    /// text fragment) and the price (its eighth). `None` where the page cannot
    /// be listed: a selector does not parse, or a card with a link has fewer
    /// than eight text fragments.
    pub fn listing(body: &str) -> (r: Option<Listing>)
        ensures
            r.is_some() == page_listable(body@, false),
            r matches Some(l) ==> listing_holds(
                l,
                listing_rows(page_cards(body@, cards_read(body@, false))),
            ),
    {
        listing_of_page(body, false)
    }

    /// The listing of the first case card of a page only, under the same
    /// rules as `listing`.
    pub fn page_listing(body: &str) -> (r: Option<Listing>)
        ensures
            r.is_some() == page_listable(body@, true),
            r matches Some(l) ==> listing_holds(
                l,
                listing_rows(page_cards(body@, cards_read(body@, true))),
            ),
    {
        listing_of_page(body, true)
    }
}


/// Listing distributes over joining sequences of cards: the rows of `a + b`
/// are the rows of `a` followed by the rows of `b`.
pub proof fn law_listing_rows_concat(a: Seq<CardView>, b: Seq<CardView>)
    ensures
        listing_rows(a + b) == listing_rows(a) + listing_rows(b),
    decreases b.len(),
{
    if b.len() == 0 {
        assert(a + b =~= a);
        assert(listing_rows(a) + listing_rows(b) =~= listing_rows(a));
    } else {
        law_listing_rows_concat(a, b.drop_last());
        assert((a + b).drop_last() =~= a + b.drop_last());
        assert((a + b).last() == b.last());
        match b.last().link {
            Some(l) => {
                let row = (l, b.last().texts[3], b.last().texts[7]);
                assert((listing_rows(a) + listing_rows(b.drop_last())).push(row) =~= listing_rows(a)
                    + listing_rows(b.drop_last()).push(row));
            },
            None => {},
        }
    }
}

/// A single card gives one row (its link, its fourth and its eighth text
/// fragment) when it has a link, and no row otherwise.
pub proof fn law_listing_single_card(c: CardView)
    ensures
        listing_rows(seq![c]) == (match c.link {
            Some(l) => seq![(l, c.texts[3], c.texts[7])],
            None => Seq::<(Seq<char>, Seq<char>, Seq<char>)>::empty(),
        }),
{
    assert(seq![c].drop_last() =~= Seq::<CardView>::empty());
    assert(seq![c].last() == c);
    assert(listing_rows(Seq::<CardView>::empty()) == Seq::<(Seq<char>, Seq<char>, Seq<char>)>::empty());
    match c.link {
        Some(l) => {
            assert(Seq::<(Seq<char>, Seq<char>, Seq<char>)>::empty().push(
                (l, c.texts[3], c.texts[7]),
            ) =~= seq![(l, c.texts[3], c.texts[7])]);
        },
        None => {},
    }
}

/// Cards are complete exactly when every card with a link has at least eight
/// text fragments.
pub proof fn law_cards_complete(cards: Seq<CardView>)
    ensures
        cards_complete(cards) == (forall|i: int|
            0 <= i < cards.len() && (#[trigger] cards[i]).link is Some ==> cards[i].texts.len()
                >= 8),
{
}

proof fn lemma_rows_all_linked(cards: Seq<CardView>)
    requires
        forall|i: int| 0 <= i < cards.len() ==> (#[trigger] cards[i]).link is Some,
    ensures
        listing_rows(cards).len() == cards.len(),
        forall|i: int|
            0 <= i < cards.len() ==> #[trigger] listing_rows(cards)[i] == (
                cards[i].link.unwrap(),
                cards[i].texts[3],
                cards[i].texts[7],
            ),
    decreases cards.len(),
{
    if cards.len() > 0 {
        let shorter = cards.drop_last();
        assert forall|i: int| 0 <= i < shorter.len() implies (#[trigger] shorter[i]).link is Some by {
            assert(shorter[i] == cards[i]);
        }
        lemma_rows_all_linked(shorter);
        assert(cards[cards.len() - 1].link is Some);
        assert forall|i: int| 0 <= i < cards.len() implies #[trigger] listing_rows(cards)[i] == (
            cards[i].link.unwrap(),
            cards[i].texts[3],
            cards[i].texts[7],
        ) by {
            if i < cards.len() - 1 {
                assert(shorter[i] == cards[i]);
            }
        }
    }
}

/// Which cards of a page are listed, and what is read from each. Of all
/// cards (or only the first when `first_only` holds) there is at most one
/// row each; where every card read has an anchor whose first match has an
/// `href`, there is exactly one row per card, in order: the `href` of the
/// card's first anchor, the card's fourth text fragment and its eighth.
pub proof fn law_listing_of_page(source: Seq<char>, first_only: bool, l: Listing)
    requires
        listing_holds(l, listing_rows(page_cards(source, cards_read(source, first_only)))),
    ensures
        ({
            let count = page_match_count(source, ".col-lg-4.col-md-6.col-widen.text-center"@);
            let n = if first_only && count > 1 {
                1
            } else {
                count
            };
            &&& l.links@.len() <= n
            &&& l.links@.len() == l.items@.len()
            &&& l.items@.len() == l.prices@.len()
            &&& (forall|i: int|
                0 <= i < n ==> element_match_count(source, Seq::<(Seq<char>, int)>::empty().push((".col-lg-4.col-md-6.col-widen.text-center"@, i)), "a"@) > 0
                    && (#[trigger] element_attr(
                    source,
                    Seq::<(Seq<char>, int)>::empty().push((".col-lg-4.col-md-6.col-widen.text-center"@, i)).push(("a"@, 0int)),
                    "href"@,
                )) is Some) ==> {
                &&& l.links@.len() == n
                &&& forall|i: int|
                    0 <= i < n ==> {
                        &&& (#[trigger] l.links@[i])@ == element_attr(
                            source,
                            Seq::<(Seq<char>, int)>::empty().push((".col-lg-4.col-md-6.col-widen.text-center"@, i)).push(("a"@, 0int)),
                            "href"@,
                        ).unwrap()
                        &&& l.items@[i]@ == element_texts(source, Seq::<(Seq<char>, int)>::empty().push((".col-lg-4.col-md-6.col-widen.text-center"@, i)))[3]
                        &&& l.prices@[i]@ == element_texts(source, Seq::<(Seq<char>, int)>::empty().push((".col-lg-4.col-md-6.col-widen.text-center"@, i)))[7]
                    }
            }
        }),
{
    let count = page_match_count(source, ".col-lg-4.col-md-6.col-widen.text-center"@);
    let n = if first_only && count > 1 {
        1
    } else {
        count
    };
    let cards = page_cards(source, cards_read(source, first_only));
    law_listing_rows_bounded(cards);
    law_listing_columns_align(l, listing_rows(cards));
    assert(cards.len() == n);
    if forall|i: int|
        0 <= i < n ==> element_match_count(source, Seq::<(Seq<char>, int)>::empty().push((".col-lg-4.col-md-6.col-widen.text-center"@, i)), "a"@) > 0
            && (#[trigger] element_attr(source, Seq::<(Seq<char>, int)>::empty().push((".col-lg-4.col-md-6.col-widen.text-center"@, i)).push(("a"@, 0int)), "href"@)) is Some {
        assert forall|i: int| 0 <= i < cards.len() implies (#[trigger] cards[i]).link is Some by {
            assert(cards[i] == card_at(source, i));
            assert(Seq::<(Seq<char>, int)>::empty().push((".col-lg-4.col-md-6.col-widen.text-center"@, i)).push(("a"@, 0int)) =~= Seq::<(Seq<char>, int)>::empty().push((".col-lg-4.col-md-6.col-widen.text-center"@, i)).push(("a"@, 0int)));
            let _ = element_attr(source, Seq::<(Seq<char>, int)>::empty().push((".col-lg-4.col-md-6.col-widen.text-center"@, i)).push(("a"@, 0int)), "href"@);
        }
        lemma_rows_all_linked(cards);
        assert forall|i: int| 0 <= i < n implies {
            &&& (#[trigger] l.links@[i])@ == element_attr(
                source,
                Seq::<(Seq<char>, int)>::empty().push((".col-lg-4.col-md-6.col-widen.text-center"@, i)).push(("a"@, 0int)),
                "href"@,
            ).unwrap()
            &&& l.items@[i]@ == element_texts(source, Seq::<(Seq<char>, int)>::empty().push((".col-lg-4.col-md-6.col-widen.text-center"@, i)))[3]
            &&& l.prices@[i]@ == element_texts(source, Seq::<(Seq<char>, int)>::empty().push((".col-lg-4.col-md-6.col-widen.text-center"@, i)))[7]
        } by {
            assert(cards[i] == card_at(source, i));
            assert(Seq::<(Seq<char>, int)>::empty().push((".col-lg-4.col-md-6.col-widen.text-center"@, i)).push(("a"@, 0int)) =~= Seq::<(Seq<char>, int)>::empty().push((".col-lg-4.col-md-6.col-widen.text-center"@, i)).push(("a"@, 0int)));
            assert(strings_view(l.links@)[i] == row_links(listing_rows(cards))[i]);
            assert(strings_view(l.items@)[i] == row_items(listing_rows(cards))[i]);
            assert(strings_view(l.prices@)[i] == row_prices(listing_rows(cards))[i]);
        }
    }
}

/// A page can be listed exactly when the card selector parses, the anchor
/// selector parses where a card is read, and every card read whose first
/// anchor has an `href` has at least eight text fragments.
pub proof fn law_page_listable(source: Seq<char>, first_only: bool)
    ensures
        page_listable(source, first_only) == ({
            let count = page_match_count(source, ".col-lg-4.col-md-6.col-widen.text-center"@);
            let n = if first_only && count > 1 {
                1
            } else {
                count
            };
            &&& selector_parses(".col-lg-4.col-md-6.col-widen.text-center"@)
            &&& n > 0 ==> selector_parses("a"@)
            &&& forall|i: int|
                0 <= i < n && element_match_count(source, Seq::<(Seq<char>, int)>::empty().push((".col-lg-4.col-md-6.col-widen.text-center"@, i)), "a"@) > 0
                    && (#[trigger] element_attr(
                    source,
                    Seq::<(Seq<char>, int)>::empty().push((".col-lg-4.col-md-6.col-widen.text-center"@, i)).push(("a"@, 0int)),
                    "href"@,
                )) is Some ==> element_texts(source, Seq::<(Seq<char>, int)>::empty().push((".col-lg-4.col-md-6.col-widen.text-center"@, i))).len() >= 8
        }),
{
    let count = page_match_count(source, ".col-lg-4.col-md-6.col-widen.text-center"@);
    let n = if first_only && count > 1 {
        1
    } else {
        count
    };
    let cards = page_cards(source, cards_read(source, first_only));
    assert forall|i: int| 0 <= i < n implies Seq::<(Seq<char>, int)>::empty().push((".col-lg-4.col-md-6.col-widen.text-center"@, i)).push(("a"@, 0int)) =~= Seq::<(Seq<char>, int)>::empty().push((".col-lg-4.col-md-6.col-widen.text-center"@, i)).push(("a"@, 0int)) by {}
    assert(cards_complete(cards) == (forall|i: int|
        0 <= i < n && element_match_count(source, Seq::<(Seq<char>, int)>::empty().push((".col-lg-4.col-md-6.col-widen.text-center"@, i)), "a"@) > 0
            && (#[trigger] element_attr(source, Seq::<(Seq<char>, int)>::empty().push((".col-lg-4.col-md-6.col-widen.text-center"@, i)).push(("a"@, 0int)), "href"@))
            is Some ==> element_texts(source, Seq::<(Seq<char>, int)>::empty().push((".col-lg-4.col-md-6.col-widen.text-center"@, i))).len() >= 8)) by {
        if cards_complete(cards) {
            assert forall|i: int|
                0 <= i < n && element_match_count(source, Seq::<(Seq<char>, int)>::empty().push((".col-lg-4.col-md-6.col-widen.text-center"@, i)), "a"@) > 0
                    && (#[trigger] element_attr(
                    source,
                    Seq::<(Seq<char>, int)>::empty().push((".col-lg-4.col-md-6.col-widen.text-center"@, i)).push(("a"@, 0int)),
                    "href"@,
                )) is Some implies element_texts(source, Seq::<(Seq<char>, int)>::empty().push((".col-lg-4.col-md-6.col-widen.text-center"@, i))).len() >= 8 by {
                assert(cards[i] == card_at(source, i));
            }
        } else {
            let k = choose|k: int|
                0 <= k < cards.len() && (#[trigger] cards[k]).link is Some && !(cards[k].texts.len()
                    > 7);
            assert(cards[k] == card_at(source, k));
            let _ = element_attr(source, Seq::<(Seq<char>, int)>::empty().push((".col-lg-4.col-md-6.col-widen.text-center"@, k)).push(("a"@, 0int)), "href"@);
        }
    }
}


/// The cards a listing reads are the first product cards of the page, all of
/// them or only the first; a card with an anchor yields the `href` of its
/// first anchor and all its text fragments, a card without one yields nothing.
pub proof fn law_page_cards(source: Seq<char>, first_only: bool)
    ensures
        ({
            let count = page_match_count(source, ".col-lg-4.col-md-6.col-widen.text-center"@);
            let cards = page_cards(source, cards_read(source, first_only));
            &&& cards.len() == (if first_only && count > 1 {
                1
            } else {
                count
            })
            &&& forall|i: int|
                0 <= i < cards.len() ==> {
                    let path = Seq::<(Seq<char>, int)>::empty().push((".col-lg-4.col-md-6.col-widen.text-center"@, i));
                    &&& element_match_count(source, path, "a"@) > 0 ==> (#[trigger] cards[i]).link
                        == element_attr(source, path.push(("a"@, 0int)), "href"@) && cards[i].texts
                        == element_texts(source, path)
                    &&& element_match_count(source, path, "a"@) == 0 ==> cards[i].link is None
                        && cards[i].texts.len() == 0
                }
        }),
{
    let cards = page_cards(source, cards_read(source, first_only));
    assert forall|i: int| 0 <= i < cards.len() implies Seq::<(Seq<char>, int)>::empty().push(
        (".col-lg-4.col-md-6.col-widen.text-center"@, i),
    ) =~= seq![(card_selector(), i)] by {}
}

} // verus!
