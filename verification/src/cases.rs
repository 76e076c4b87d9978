//! The cases listed on the overview page, their knives, and the bookkeeping
//! over a scraped collection.

use vstd::prelude::*;
use crate::html::{first_attr, first_attr_of, first_text, first_text_of, page_match_count, selector_parses, Page, Query};
use crate::structs::{opt_text, with_knives, CaseElement};
use crate::text::{chars_of, contains_chars, has_substring, to_lowercase, unicode_lowercase};

verus! {

/// What the rules read from one card of the overview page: the link of its
/// first anchor, the text of its heading, the source of its image and the
/// text of its price.
pub struct CaseCard {
    pub url: Option<String>,
    pub image: Option<String>,
    pub name: Option<String>,
    pub price: Option<String>,
}

/// The abstract content of a case card.
pub struct CaseCardView {
    pub url: Option<Seq<char>>,
    pub image: Option<Seq<char>>,
    pub name: Option<Seq<char>>,
    pub price: Option<Seq<char>>,
}

impl View for CaseCard {
    type V = CaseCardView;

    open spec fn view(&self) -> CaseCardView {
        CaseCardView {
            url: opt_text(self.url),
            image: opt_text(self.image),
            name: opt_text(self.name),
            price: opt_text(self.price),
        }
    }
}

/// The abstract content of a sequence of case cards.
pub open spec fn case_cards_view(cards: Seq<CaseCard>) -> Seq<CaseCardView> {
    cards.map_values(|c: CaseCard| c@)
}

/// The card carries nothing at all.
pub open spec fn card_is_empty(c: CaseCardView) -> bool {
    c.url is None && c.image is None && c.name is None && c.price is None
}

/// The card carries something but no name, so it cannot be judged.
pub open spec fn card_lacks_name(c: CaseCardView) -> bool {
    !card_is_empty(c) && c.name is None
}

/// The card is left out: it is empty, or its lower-cased name mentions a
/// collection rather than a case.
pub open spec fn card_left_out(c: CaseCardView) -> bool {
    card_is_empty(c) || (c.name matches Some(n) && has_substring(
        unicode_lowercase(n),
        "collection"@,
    ))
}

/// Every card can be judged.
pub open spec fn cards_judgeable(cards: Seq<CaseCardView>) -> bool {
    forall|i: int| 0 <= i < cards.len() ==> !card_lacks_name(#[trigger] cards[i])
}

/// The cards that are kept, in order.
pub open spec fn kept_cards(cards: Seq<CaseCardView>) -> Seq<CaseCardView>
    decreases cards.len(),
{
    if cards.len() == 0 {
        Seq::empty()
    } else if card_left_out(cards.last()) {
        kept_cards(cards.drop_last())
    } else {
        kept_cards(cards.drop_last()).push(cards.last())
    }
}

/// `e` is the case that a kept card makes: its fields, no skins yet and no
/// knives.
pub open spec fn case_of_card(e: CaseElement, c: CaseCardView) -> bool {
    &&& opt_text(e.url) == c.url
    &&& opt_text(e.image) == c.image
    &&& opt_text(e.name) == c.name
    &&& opt_text(e.price) == c.price
    &&& e.items matches Some(v) && v@.len() == 0
    &&& e.knifes is None
}

/// `cases` are the cases that the kept cards among `cards` make, in order.
pub open spec fn cases_of_cards(cases: Seq<CaseElement>, cards: Seq<CaseCardView>) -> bool {
    let kept = kept_cards(cards);
    &&& cases.len() == kept.len()
    &&& forall|i: int| 0 <= i < cases.len() ==> case_of_card(#[trigger] cases[i], kept[i])
}

/// No card that is left out is kept, and no more cards are kept than given.
pub proof fn law_kept_cards_are_cases(cards: Seq<CaseCardView>)
    ensures
        kept_cards(cards).len() <= cards.len(),
        forall|i: int|
            0 <= i < kept_cards(cards).len() ==> !card_left_out(#[trigger] kept_cards(cards)[i]),
    decreases cards.len(),
{
    if cards.len() > 0 {
        law_kept_cards_are_cases(cards.drop_last());
    }
}

/// Where every card can be judged, every kept card has a name, and that name
/// does not mention a collection.
pub proof fn law_kept_cards_named(cards: Seq<CaseCardView>)
    requires
        cards_judgeable(cards),
    ensures
        forall|i: int|
            0 <= i < kept_cards(cards).len() ==> ((#[trigger] kept_cards(cards)[i]).name matches Some(
                n,
            ) && !has_substring(unicode_lowercase(n), "collection"@)),
    decreases cards.len(),
{
    if cards.len() > 0 {
        assert(cards_judgeable(cards.drop_last())) by {
            assert forall|i: int| 0 <= i < cards.drop_last().len() implies !card_lacks_name(
                #[trigger] cards.drop_last()[i],
            ) by {
                assert(cards.drop_last()[i] == cards[i]);
            }
        }
        law_kept_cards_named(cards.drop_last());
        assert(!card_lacks_name(cards[cards.len() - 1]));
    }
}

proof fn lemma_kept_step(cards: Seq<CaseCardView>, i: int)
    requires
        0 <= i < cards.len(),
    ensures
        kept_cards(cards.subrange(0, i + 1)) == (if card_left_out(cards[i]) {
            kept_cards(cards.subrange(0, i))
        } else {
            kept_cards(cards.subrange(0, i)).push(cards[i])
        }),
{
    assert(cards.subrange(0, i + 1).drop_last() =~= cards.subrange(0, i));
}

/// The cases that the cards make: an empty card is left out, as is one whose
/// lower-cased name contains "collection"; every other card becomes a new
/// case with the card's link, image, name and price. `None` when a card
/// carries something but no name.
pub fn cases_from_cards(cards: &Vec<CaseCard>) -> (r: Option<Vec<CaseElement>>)
    ensures
        r.is_some() == cards_judgeable(case_cards_view(cards@)),
        r matches Some(v) ==> cases_of_cards(v@, case_cards_view(cards@)),
{
    let ghost all = case_cards_view(cards@);
    let mut cases: Vec<CaseElement> = Vec::new();
    let mut i: usize = 0;
    assert(all.subrange(0, 0) =~= Seq::<CaseCardView>::empty());
    while i < cards.len()
        invariant
            i <= cards.len(),
            all == case_cards_view(cards@),
            cards_judgeable(all.subrange(0, i as int)),
            cases_of_cards(cases@, all.subrange(0, i as int)),
        decreases cards.len() - i,
    {
        let card = &cards[i];
        proof {
            lemma_kept_step(all, i as int);
        }
        let empty = card.price.is_none() && card.image.is_none() && card.name.is_none()
            && card.url.is_none();
        let left_out = if empty {
            true
        } else {
            match &card.name {
                Some(name) => {
                    let lower = to_lowercase(name.as_str());
                    contains_chars(&chars_of(lower.as_str()), &chars_of("collection"))
                },
                None => {
                    assert(card_lacks_name(all[i as int]));
                    return None;
                },
            }
        };
        assert(left_out == card_left_out(all[i as int]));
        if !left_out {
            let ghost before = cases@;
            let case = CaseElement::new(
                card.url.clone(),
                card.image.clone(),
                card.name.clone(),
                card.price.clone(),
            );
            cases.push(case);
            assert forall|k: int| 0 <= k < cases@.len() implies case_of_card(
                #[trigger] cases@[k],
                kept_cards(all.subrange(0, i + 1))[k],
            ) by {
                if k < before.len() {
                    assert(cases@[k] == before[k]);
                }
            }
        }
        assert forall|k: int|
            0 <= k < i + 1 implies !card_lacks_name(#[trigger] all.subrange(0, i + 1)[k]) by {
            if k < i {
                assert(all.subrange(0, i + 1)[k] == all.subrange(0, i as int)[k]);
            }
        }
        i = i + 1;
    }
    assert(all.subrange(0, cards.len() as int) =~= all);
    Some(cases)
}

/// The selector of the case cards (and of the skin cards on a case page).
pub open spec fn product_selector() -> Seq<char> {
    "body > div.container.main-content > div:nth-child(7) > div"@
}

/// What the rules read from the `i`-th case card of the overview page parsed
/// from `source`.
pub open spec fn case_card_at(source: Seq<char>, i: int) -> CaseCardView {
    let path = seq![(product_selector(), i)];
    CaseCardView {
        url: first_attr_of(source, path, "a"@, "href"@),
        image: first_attr_of(source, path, "a > img"@, "src"@),
        name: first_text_of(source, path, "a > h4"@),
        price: first_text_of(source, path, "a > div > p"@),
    }
}

/// All case cards of the overview page parsed from `source`.
pub open spec fn page_case_cards(source: Seq<char>) -> Seq<CaseCardView> {
    Seq::new(page_match_count(source, product_selector()), |i: int| case_card_at(source, i))
}

/// The selectors that reading a case card needs all parse.
pub open spec fn case_card_selectors_parse() -> bool {
    &&& selector_parses("a"@)
    &&& selector_parses("a > h4"@)
    &&& selector_parses("a > img"@)
    &&& selector_parses("a > div > p"@)
}

/// The selectors of a case card's link, heading, image and price.
fn case_card_queries() -> (r: Option<(Query, Query, Query, Query)>)
    ensures
        r.is_some() == case_card_selectors_parse(),
        r matches Some(qs) ==> qs.0.text() == "a"@ && qs.1.text() == "a > h4"@ && qs.2.text()
            == "a > img"@ && qs.3.text() == "a > div > p"@,
{
    let anchor = match Query::parse("a") {
        Some(q) => q,
        None => return None,
    };
    let heading = match Query::parse("a > h4") {
        Some(q) => q,
        None => return None,
    };
    let picture = match Query::parse("a > img") {
        Some(q) => q,
        None => return None,
    };
    let cost = match Query::parse("a > div > p") {
        Some(q) => q,
        None => return None,
    };
    Some((anchor, heading, picture, cost))
}

/// The overview page parsed from `source` can be read: its selectors parse
/// (those of a card only matter when there is a card) and every card can be
/// judged.
pub open spec fn overview_readable(source: Seq<char>) -> bool {
    &&& selector_parses(product_selector())
    &&& page_match_count(source, product_selector()) > 0 ==> case_card_selectors_parse()
    &&& cards_judgeable(page_case_cards(source))
}

/// The cases of an overview page: each card of the page is read (the link of
/// its first anchor, the text of its first heading, the source of its first
/// image, the text of its first price) and judged as `cases_from_cards` does.
/// `None` where the page cannot be read.
pub fn cases_on_page(body: &str) -> (r: Option<Vec<CaseElement>>)
    ensures
        r.is_some() == overview_readable(body@),
        r matches Some(v) ==> cases_of_cards(v@, page_case_cards(body@)),
{
    let page = Page::parse(body);
    let products = match Query::parse("body > div.container.main-content > div:nth-child(7) > div") {
        Some(q) => q,
        None => return None,
    };
    let nodes = page.select(&products);
    let ghost src = body@;
    let mut cards: Vec<CaseCard> = Vec::new();
    let mut i: usize = 0;
    while i < nodes.len()
        invariant
            i <= nodes@.len(),
            nodes@.len() == page_match_count(src, product_selector()),
            page.source() == src,
            src == body@,
            i > 0 ==> case_card_selectors_parse(),
            forall|k: int|
                0 <= k < nodes@.len() ==> (#[trigger] nodes@[k]).source() == src
                    && nodes@[k].path() == seq![(product_selector(), k)],
            cards@.len() == i,
            forall|k: int| 0 <= k < i ==> (#[trigger] cards@[k])@ == case_card_at(src, k),
        decreases nodes@.len() - i,
    {
        let node = &nodes[i];
        let (anchor, heading, picture, cost) = match case_card_queries() {
            Some(qs) => qs,
            None => return None,
        };
        let url = first_attr(node, &anchor, "href");
        let name = first_text(node, &heading);
        let image = first_attr(node, &picture, "src");
        let price = first_text(node, &cost);
        cards.push(CaseCard { url, image, name, price });
        i = i + 1;
    }
    assert(case_cards_view(cards@) =~= page_case_cards(src));
    cases_from_cards(&cards)
}

/// The knives attached to the cases, in order, for the cases that have them.
pub open spec fn knives_in(cases: Seq<CaseElement>) -> Seq<CaseElement>
    decreases cases.len(),
{
    if cases.len() == 0 {
        Seq::empty()
    } else {
        match cases.last().knifes {
            Some(k) => knives_in(cases.drop_last()).push(*k),
            None => knives_in(cases.drop_last()),
        }
    }
}

proof fn lemma_knives_step(cases: Seq<CaseElement>, i: int)
    requires
        0 <= i < cases.len(),
    ensures
        knives_in(cases.subrange(0, i + 1)) == (match cases[i].knifes {
            Some(k) => knives_in(cases.subrange(0, i)).push(*k),
            None => knives_in(cases.subrange(0, i)),
        }),
{
    assert(cases.subrange(0, i + 1).drop_last() =~= cases.subrange(0, i));
}

/// The knives of the cases: for each case that has knives attached, in
/// order, those knives.
pub fn knives_of(cases: Vec<CaseElement>) -> (r: Vec<CaseElement>)
    ensures
        r@ == knives_in(cases@),
{
    let ghost all = cases@;
    let mut rest = cases;
    let mut r: Vec<CaseElement> = Vec::new();
    let ghost mut i: int = 0;
    assert(all.subrange(0, 0) =~= Seq::<CaseElement>::empty());
    while rest.len() > 0
        invariant
            0 <= i <= all.len(),
            rest@ == all.subrange(i, all.len() as int),
            r@ == knives_in(all.subrange(0, i)),
        decreases rest.len(),
    {
        let case = rest.remove(0);
        proof {
            lemma_knives_step(all, i);
        }
        match case.knifes {
            Some(k) => r.push(*k),
            None => {},
        }
        proof {
            i = i + 1;
        }
        assert(rest@ =~= all.subrange(i, all.len() as int));
    }
    assert(all.subrange(0, all.len() as int) =~= all);
    r
}

/// Each case with the knives of the same position attached.
pub open spec fn attach_all(cases: Seq<CaseElement>, knives: Seq<CaseElement>) -> Seq<CaseElement> {
    Seq::new(cases.len(), |i: int| with_knives(cases[i], knives[i]))
}

/// Attaches to each case the knives of the same position: the `i`-th result
/// is `cases[i] + knives[i]`. There must be knives for every case.
pub fn attach_knives(cases: Vec<CaseElement>, knives: Vec<CaseElement>) -> (r: Vec<CaseElement>)
    requires
        cases@.len() <= knives@.len(),
    ensures
        r@ == attach_all(cases@, knives@),
{
    let ghost all = cases@;
    let ghost all_knives = knives@;
    let mut rest = cases;
    let mut rest_knives = knives;
    let mut r: Vec<CaseElement> = Vec::new();
    let ghost mut i: int = 0;
    while rest.len() > 0
        invariant
            0 <= i <= all.len(),
            all.len() <= all_knives.len(),
            rest@ == all.subrange(i, all.len() as int),
            rest_knives@ == all_knives.subrange(i, all_knives.len() as int),
            r@ == attach_all(all.subrange(0, i), all_knives.subrange(0, i)),
        decreases rest.len(),
    {
        let case = rest.remove(0);
        let knife = rest_knives.remove(0);
        let attached = case + knife;
        r.push(attached);
        proof {
            i = i + 1;
        }
        assert(rest@ =~= all.subrange(i, all.len() as int));
        assert(rest_knives@ =~= all_knives.subrange(i, all_knives.len() as int));
        assert(r@ =~= attach_all(all.subrange(0, i), all_knives.subrange(0, i)));
    }
    assert(all.subrange(0, all.len() as int) =~= all);
    assert(r@ =~= attach_all(all, all_knives));
    r
}

/// Attaching knives and then taking the knives of the cases gives back the
/// knives that were attached, one for each case.
pub proof fn law_knives_of_attached(cases: Seq<CaseElement>, knives: Seq<CaseElement>)
    requires
        cases.len() <= knives.len(),
    ensures
        knives_in(attach_all(cases, knives)) == knives.subrange(0, cases.len() as int),
    decreases cases.len(),
{
    if cases.len() > 0 {
        let n = cases.len() - 1;
        let shorter = cases.subrange(0, n);
        law_knives_of_attached(shorter, knives);
        assert(attach_all(cases, knives).drop_last() =~= attach_all(shorter, knives));
        assert(knives.subrange(0, cases.len() as int) =~= knives.subrange(0, n).push(knives[n]));
    } else {
        assert(knives.subrange(0, 0) =~= Seq::<CaseElement>::empty());
    }
}

/// Every case has a list of skins.
pub open spec fn all_have_items(cases: Seq<CaseElement>) -> bool {
    forall|i: int| 0 <= i < cases.len() ==> (#[trigger] cases[i]).items is Some
}

/// How many of the cases have an empty list of skins.
pub open spec fn missed_count(cases: Seq<CaseElement>) -> nat
    decreases cases.len(),
{
    if cases.len() == 0 {
        0
    } else {
        missed_count(cases.drop_last()) + (match cases.last().items {
            Some(v) if v@.len() == 0 => 1nat,
            _ => 0nat,
        })
    }
}

proof fn lemma_missed_bounded(cases: Seq<CaseElement>)
    ensures
        missed_count(cases) <= cases.len(),
    decreases cases.len(),
{
    if cases.len() > 0 {
        lemma_missed_bounded(cases.drop_last());
    }
}

/// How many cases came back without any skin. Every case must have a list of
/// skins.
pub fn count_missed(cases: &Vec<CaseElement>) -> (r: usize)
    requires
        all_have_items(cases@),
    ensures
        r == missed_count(cases@),
        r <= cases@.len(),
{
    let mut count: usize = 0;
    let mut i: usize = 0;
    assert(cases@.subrange(0, 0) =~= Seq::<CaseElement>::empty());
    while i < cases.len()
        invariant
            i <= cases@.len(),
            all_have_items(cases@),
            count == missed_count(cases@.subrange(0, i as int)),
        decreases cases.len() - i,
    {
        assert(cases@.subrange(0, i + 1).drop_last() =~= cases@.subrange(0, i as int));
        proof {
            lemma_missed_bounded(cases@.subrange(0, i as int));
        }
        match &cases[i].items {
            Some(items) => {
                if items.len() == 0 {
                    count = count + 1;
                }
            },
            None => {
                assert(cases@[i as int].items is Some);
            },
        }
        i = i + 1;
    }
    assert(cases@.subrange(0, cases.len() as int) =~= cases@);
    proof {
        lemma_missed_bounded(cases@);
    }
    count
}


proof fn lemma_all_kept(cards: Seq<CaseCardView>)
    requires
        forall|i: int| 0 <= i < cards.len() ==> !card_left_out(#[trigger] cards[i]),
    ensures
        kept_cards(cards) == cards,
    decreases cards.len(),
{
    if cards.len() > 0 {
        let shorter = cards.drop_last();
        assert forall|i: int| 0 <= i < shorter.len() implies !card_left_out(#[trigger] shorter[i]) by {
            assert(shorter[i] == cards[i]);
        }
        lemma_all_kept(shorter);
        assert(!card_left_out(cards[cards.len() - 1]));
        assert(shorter.push(cards.last()) =~= cards);
    } else {
        assert(cards =~= Seq::<CaseCardView>::empty());
    }
}

/// Judging a sequence of cards distributes over joining sequences: the cards
/// kept from `a + b` are those kept from `a` followed by those kept from `b`.
pub proof fn law_kept_cards_concat(a: Seq<CaseCardView>, b: Seq<CaseCardView>)
    ensures
        kept_cards(a + b) == kept_cards(a) + kept_cards(b),
    decreases b.len(),
{
    if b.len() == 0 {
        assert(a + b =~= a);
        assert(kept_cards(a) + kept_cards(b) =~= kept_cards(a));
    } else {
        law_kept_cards_concat(a, b.drop_last());
        assert((a + b).drop_last() =~= a + b.drop_last());
        assert((a + b).last() == b.last());
        assert((kept_cards(a) + kept_cards(b.drop_last())).push(b.last()) =~= kept_cards(a)
            + kept_cards(b.drop_last()).push(b.last()));
    }
}

/// A single card is kept exactly when it carries something and its name,
/// lower-cased, does not contain "collection".
pub proof fn law_kept_single_card(c: CaseCardView)
    ensures
        kept_cards(seq![c]) == (if (c.url is None && c.image is None && c.name is None
            && c.price is None) || (c.name is Some && has_substring(
            unicode_lowercase(c.name.unwrap()),
            "collection"@,
        )) {
            Seq::<CaseCardView>::empty()
        } else {
            seq![c]
        }),
{
    assert(seq![c].drop_last() =~= Seq::<CaseCardView>::empty());
    assert(kept_cards(Seq::<CaseCardView>::empty()) == Seq::<CaseCardView>::empty());
    assert(Seq::<CaseCardView>::empty().push(c) =~= seq![c]);
}

/// Cards can be judged exactly when every card without a name carries nothing
/// at all.
pub proof fn law_cards_judgeable(cards: Seq<CaseCardView>)
    ensures
        cards_judgeable(cards) == (forall|i: int|
            0 <= i < cards.len() && (#[trigger] cards[i]).name is None ==> cards[i].url is None
                && cards[i].image is None && cards[i].price is None),
{
}

/// The cases made from cards carry, in order, the link, image, name and price
/// of each kept card, an empty list of skins and no knives.
pub proof fn law_cases_carry_card_fields(cases: Seq<CaseElement>, cards: Seq<CaseCardView>)
    requires
        cases_of_cards(cases, cards),
    ensures
        cases.len() == kept_cards(cards).len(),
        forall|i: int|
            0 <= i < cases.len() ==> {
                &&& opt_text((#[trigger] cases[i]).url) == kept_cards(cards)[i].url
                &&& opt_text(cases[i].image) == kept_cards(cards)[i].image
                &&& opt_text(cases[i].name) == kept_cards(cards)[i].name
                &&& opt_text(cases[i].price) == kept_cards(cards)[i].price
                &&& cases[i].items matches Some(v) && v@.len() == 0
                &&& cases[i].knifes is None
            },
{
    assert forall|i: int| 0 <= i < cases.len() implies {
        &&& opt_text((#[trigger] cases[i]).url) == kept_cards(cards)[i].url
        &&& opt_text(cases[i].image) == kept_cards(cards)[i].image
        &&& opt_text(cases[i].name) == kept_cards(cards)[i].name
        &&& opt_text(cases[i].price) == kept_cards(cards)[i].price
        &&& cases[i].items matches Some(v) && v@.len() == 0
        &&& cases[i].knifes is None
    } by {
        assert(case_of_card(cases[i], kept_cards(cards)[i]));
    }
}

/// Every product card of the overview page is read, in order. There are never
/// more cases than product elements; and where every product element has a
/// heading whose lower-cased text does not contain "collection", there is one
/// case per product element, the `i`-th carrying the `href` of the card's first
/// anchor, the `src` of its first image, and the joined text of its first
/// heading and of its first price.
pub proof fn law_overview_reads_every_card(source: Seq<char>, cases: Seq<CaseElement>)
    requires
        cases_of_cards(cases, page_case_cards(source)),
    ensures
        cases.len() <= page_match_count(
            source,
            "body > div.container.main-content > div:nth-child(7) > div"@,
        ),
        (forall|i: int|
            0 <= i < page_match_count(
                source,
                "body > div.container.main-content > div:nth-child(7) > div"@,
            ) ==> ((#[trigger] first_text_of(
                source,
                seq![("body > div.container.main-content > div:nth-child(7) > div"@, i)],
                "a > h4"@,
            )) is Some && !has_substring(
                unicode_lowercase(
                    first_text_of(
                        source,
                        seq![("body > div.container.main-content > div:nth-child(7) > div"@, i)],
                        "a > h4"@,
                    ).unwrap(),
                ),
                "collection"@,
            ))) ==> {
            &&& cases.len() == page_match_count(
                source,
                "body > div.container.main-content > div:nth-child(7) > div"@,
            )
            &&& forall|i: int|
                0 <= i < cases.len() ==> {
                    let path = seq![("body > div.container.main-content > div:nth-child(7) > div"@, i)];
                    &&& opt_text((#[trigger] cases[i]).url) == first_attr_of(
                        source,
                        path,
                        "a"@,
                        "href"@,
                    )
                    &&& opt_text(cases[i].image) == first_attr_of(source, path, "a > img"@, "src"@)
                    &&& opt_text(cases[i].name) == first_text_of(source, path, "a > h4"@)
                    &&& opt_text(cases[i].price) == first_text_of(source, path, "a > div > p"@)
                }
        },
{
    let cards = page_case_cards(source);
    let count = page_match_count(
        source,
        "body > div.container.main-content > div:nth-child(7) > div"@,
    );
    law_kept_cards_are_cases(cards);
    law_cases_carry_card_fields(cases, cards);
    if forall|i: int|
        0 <= i < count ==> ((#[trigger] first_text_of(
            source,
            seq![("body > div.container.main-content > div:nth-child(7) > div"@, i)],
            "a > h4"@,
        )) is Some && !has_substring(
            unicode_lowercase(
                first_text_of(
                    source,
                    seq![("body > div.container.main-content > div:nth-child(7) > div"@, i)],
                    "a > h4"@,
                ).unwrap(),
            ),
            "collection"@,
        )) {
        assert forall|i: int| 0 <= i < cards.len() implies !card_left_out(#[trigger] cards[i]) by {
            assert(cards[i] == case_card_at(source, i));
            let _ = first_text_of(
                source,
                seq![("body > div.container.main-content > div:nth-child(7) > div"@, i)],
                "a > h4"@,
            );
        }
        lemma_all_kept(cards);
    }
}

/// Taking the knives out distributes over joining sequences of cases.
pub proof fn law_knives_concat(a: Seq<CaseElement>, b: Seq<CaseElement>)
    ensures
        knives_in(a + b) == knives_in(a) + knives_in(b),
    decreases b.len(),
{
    if b.len() == 0 {
        assert(a + b =~= a);
        assert(knives_in(a) + knives_in(b) =~= knives_in(a));
    } else {
        law_knives_concat(a, b.drop_last());
        assert((a + b).drop_last() =~= a + b.drop_last());
        assert((a + b).last() == b.last());
        match b.last().knifes {
            Some(k) => {
                assert((knives_in(a) + knives_in(b.drop_last())).push(*k) =~= knives_in(a)
                    + knives_in(b.drop_last()).push(*k));
            },
            None => {},
        }
    }
}

/// A single case yields its knives if it has them, and nothing otherwise.
pub proof fn law_knives_single_case(c: CaseElement)
    ensures
        knives_in(seq![c]) == (match c.knifes {
            Some(k) => seq![*k],
            None => Seq::<CaseElement>::empty(),
        }),
{
    assert(seq![c].drop_last() =~= Seq::<CaseElement>::empty());
    assert(seq![c].last() == c);
    assert(knives_in(Seq::<CaseElement>::empty()) == Seq::<CaseElement>::empty());
    match c.knifes {
        Some(k) => {
            assert(Seq::<CaseElement>::empty().push(*k) =~= seq![*k]);
        },
        None => {},
    }
}

/// Attaching knives gives one case per case, in order; each keeps its page,
/// image, name, price and skins, and has the knives of the same position.
pub proof fn law_attach_keeps_cases(cases: Seq<CaseElement>, knives: Seq<CaseElement>)
    requires
        cases.len() <= knives.len(),
    ensures
        attach_all(cases, knives).len() == cases.len(),
        forall|i: int|
            0 <= i < cases.len() ==> {
                let r = #[trigger] attach_all(cases, knives)[i];
                &&& r.url == cases[i].url
                &&& r.image == cases[i].image
                &&& r.name == cases[i].name
                &&& r.price == cases[i].price
                &&& r.items == cases[i].items
                &&& r.knifes == Some(Box::new(knives[i]))
            },
{
}

/// Counting cases without skins distributes over joining sequences of cases.
pub proof fn law_missed_concat(a: Seq<CaseElement>, b: Seq<CaseElement>)
    ensures
        missed_count(a + b) == missed_count(a) + missed_count(b),
    decreases b.len(),
{
    if b.len() == 0 {
        assert(a + b =~= a);
    } else {
        law_missed_concat(a, b.drop_last());
        assert((a + b).drop_last() =~= a + b.drop_last());
        assert((a + b).last() == b.last());
    }
}

/// A single case counts one when its list of skins is empty, and none
/// otherwise.
pub proof fn law_missed_single_case(c: CaseElement)
    ensures
        missed_count(seq![c]) == (if c.items matches Some(v) && v@.len() == 0 {
            1nat
        } else {
            0nat
        }),
{
    assert(seq![c].drop_last() =~= Seq::<CaseElement>::empty());
    assert(seq![c].last() == c);
    assert(missed_count(Seq::<CaseElement>::empty()) == 0);
}


/// The case cards of an overview page are, in order, one per product element:
/// the `href` of the element's first anchor, the `src` of its first image, and
/// the joined text of its first heading and of its first price.
pub proof fn law_page_case_cards(source: Seq<char>)
    ensures
        page_case_cards(source).len() == page_match_count(source, "body > div.container.main-content > div:nth-child(7) > div"@),
        forall|i: int|
            0 <= i < page_case_cards(source).len() ==> {
                let path = Seq::<(Seq<char>, int)>::empty().push(("body > div.container.main-content > div:nth-child(7) > div"@, i));
                let c = #[trigger] page_case_cards(source)[i];
                &&& c.url == first_attr_of(source, path, "a"@, "href"@)
                &&& c.image == first_attr_of(source, path, "a > img"@, "src"@)
                &&& c.name == first_text_of(source, path, "a > h4"@)
                &&& c.price == first_text_of(source, path, "a > div > p"@)
            },
{
    assert forall|i: int| 0 <= i < page_case_cards(source).len() implies {
        let path = Seq::<(Seq<char>, int)>::empty().push(("body > div.container.main-content > div:nth-child(7) > div"@, i));
        let c = #[trigger] page_case_cards(source)[i];
        &&& c.url == first_attr_of(source, path, "a"@, "href"@)
        &&& c.image == first_attr_of(source, path, "a > img"@, "src"@)
        &&& c.name == first_text_of(source, path, "a > h4"@)
        &&& c.price == first_text_of(source, path, "a > div > p"@)
    } by {
        assert(Seq::<(Seq<char>, int)>::empty().push(("body > div.container.main-content > div:nth-child(7) > div"@, i)) =~= seq![(product_selector(), i)]);
    }
}

/// An overview page can be read exactly when the product selector parses,
/// the four card selectors parse where there is a product element, and no
/// card carries something without a name.
pub proof fn law_overview_readable(source: Seq<char>)
    ensures
        overview_readable(source) == ({
            &&& selector_parses("body > div.container.main-content > div:nth-child(7) > div"@)
            &&& page_match_count(source, "body > div.container.main-content > div:nth-child(7) > div"@) > 0 ==> {
                &&& selector_parses("a"@)
                &&& selector_parses("a > h4"@)
                &&& selector_parses("a > img"@)
                &&& selector_parses("a > div > p"@)
            }
            &&& forall|i: int|
                0 <= i < page_match_count(source, "body > div.container.main-content > div:nth-child(7) > div"@) && (#[trigger] page_case_cards(
                    source,
                )[i]).name is None ==> page_case_cards(source)[i].url is None
                    && page_case_cards(source)[i].image is None && page_case_cards(source)[i].price
                    is None
        }),
{
}

/// Every case has a list of skins exactly when no case lacks one.
pub proof fn law_all_have_items(cases: Seq<CaseElement>)
    ensures
        all_have_items(cases) == !(exists|i: int|
            0 <= i < cases.len() && (#[trigger] cases[i]).items is None),
{
}

} // verus!
