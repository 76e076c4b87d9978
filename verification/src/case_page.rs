//! Reading a case's own page: its skins and the link to its knives.

use vstd::prelude::*;
use crate::cases::product_selector;
use crate::html::{element_attr, element_match_count, element_texts, first_attr, first_attr_of, first_text, first_text_of, page_match_count, selector_parses, Node, Page, Query};
use crate::structs::{items_view, opt_text, rarity_of_text, CaseElement, ItemView, Items, Rarity};
use crate::text::{concat_parts, join_strings, strings_view};

verus! {

/// What the rules read from one skin card: the text fragments of each part of
/// its name, the text of its rarity, its two prices and its image.
pub struct SkinCard {
    pub name_parts: Vec<Vec<String>>,
    pub rarity: Option<String>,
    pub nonstatprice: Option<String>,
    pub statprice: Option<String>,
    pub image: Option<String>,
}

/// The abstract content of a skin card.
pub struct SkinCardView {
    pub name_parts: Seq<Seq<Seq<char>>>,
    pub rarity: Option<Seq<char>>,
    pub nonstatprice: Option<Seq<char>>,
    pub statprice: Option<Seq<char>>,
    pub image: Option<Seq<char>>,
}

impl View for SkinCard {
    type V = SkinCardView;

    open spec fn view(&self) -> SkinCardView {
        SkinCardView {
            name_parts: self.name_parts@.map_values(|p: Vec<String>| strings_view(p@)),
            rarity: opt_text(self.rarity),
            nonstatprice: opt_text(self.nonstatprice),
            statprice: opt_text(self.statprice),
            image: opt_text(self.image),
        }
    }
}

/// The name of a skin: the joined fragments of each name part, each part
/// followed by a space.
pub open spec fn skin_name(parts: Seq<Seq<Seq<char>>>) -> Seq<char> {
    concat_parts(Seq::new(parts.len(), |j: int| concat_parts(parts[j]) + " "@))
}

/// The skin that a skin card describes.
pub open spec fn skin_of_card(c: SkinCardView) -> ItemView {
    ItemView {
        name: Some(skin_name(c.name_parts)),
        rarity: Some(rarity_of_text(c.rarity)),
        nonstatprice: c.nonstatprice,
        statprice: c.statprice,
        image: c.image,
    }
}

/// The skin that a skin card describes: its name is the joined text of every
/// name part, each followed by a space; its rarity is read from the rarity
/// text by `Rarity::convert`; prices and image are taken as they are.
pub fn skin_from_card(card: SkinCard) -> (r: Items)
    ensures
        r@ == skin_of_card(card@),
{
    let ghost parts = card@.name_parts;
    let ghost pieces = Seq::new(parts.len(), |j: int| concat_parts(parts[j]) + " "@);
    let mut name = String::new();
    let mut j: usize = 0;
    assert(pieces.subrange(0, 0) =~= Seq::<Seq<char>>::empty());
    while j < card.name_parts.len()
        invariant
            j <= card.name_parts@.len(),
            parts == card@.name_parts,
            parts.len() == card.name_parts@.len(),
            pieces == Seq::new(parts.len(), |j: int| concat_parts(parts[j]) + " "@),
            name@ == concat_parts(pieces.subrange(0, j as int)),
        decreases card.name_parts@.len() - j,
    {
        let joined = join_strings(&card.name_parts[j]);
        name.append(joined.as_str());
        name.append(" ");
        assert(pieces.subrange(0, j + 1).drop_last() =~= pieces.subrange(0, j as int));
        assert(name@ =~= concat_parts(pieces.subrange(0, j as int)) + pieces[j as int]);
        j = j + 1;
    }
    assert(pieces.subrange(0, parts.len() as int) =~= pieces);
    let SkinCard { name_parts: _, rarity, nonstatprice, statprice, image } = card;
    Items::new(Some(name), Some(Rarity::convert(rarity)), nonstatprice, statprice, image)
}

/// The selector of the link to a case's knives on the case page.
pub open spec fn knife_link_selector() -> Seq<char> {
    "body > div.container.main-content > div:nth-child(7) > div:nth-child(1) > div > h3 > a"@
}

/// The selector of the name parts of a skin card.
pub open spec fn skin_name_selector() -> Seq<char> {
    "div > h3 > a"@
}

/// The selector of the rarity of a skin card.
pub open spec fn skin_rarity_selector() -> Seq<char> {
    "div > a:nth-child(2) > div > p"@
}

/// The selector of the price of a skin without StatTrak.
pub open spec fn skin_price_selector() -> Seq<char> {
    "div > div:nth-child(5) > p > a"@
}

/// The selector of the price of a skin with StatTrak.
pub open spec fn skin_stat_price_selector() -> Seq<char> {
    "div > div:nth-child(6) > p > a"@
}

/// The selector of the image of a skin card.
pub open spec fn skin_image_selector() -> Seq<char> {
    "div > a:nth-child(4) > img"@
}

/// The selectors that reading a skin card needs all parse.
pub open spec fn skin_selectors_parse() -> bool {
    &&& selector_parses(skin_name_selector())
    &&& selector_parses(skin_rarity_selector())
    &&& selector_parses(skin_price_selector())
    &&& selector_parses(skin_stat_price_selector())
    &&& selector_parses(skin_image_selector())
}

/// What the rules read from the skin card that `path` reaches.
pub open spec fn skin_card_at(source: Seq<char>, path: Seq<(Seq<char>, int)>) -> SkinCardView {
    SkinCardView {
        name_parts: Seq::new(
            element_match_count(source, path, skin_name_selector()),
            |j: int| element_texts(source, path.push((skin_name_selector(), j))),
        ),
        rarity: first_text_of(source, path, skin_rarity_selector()),
        nonstatprice: first_text_of(source, path, skin_price_selector()),
        statprice: first_text_of(source, path, skin_stat_price_selector()),
        image: first_attr_of(source, path, skin_image_selector(), "src"@),
    }
}

/// The skins of the case page parsed from `source`, one for each skin card.
pub open spec fn page_skins(source: Seq<char>) -> Seq<ItemView> {
    Seq::new(
        page_match_count(source, product_selector()),
        |i: int| skin_of_card(skin_card_at(source, seq![(product_selector(), i)])),
    )
}

/// The link to the knives of the case page parsed from `source`.
pub open spec fn knife_link_of(source: Seq<char>) -> Option<Seq<char>> {
    if page_match_count(source, knife_link_selector()) > 0 {
        element_attr(source, seq![(knife_link_selector(), 0)], "href"@)
    } else {
        None
    }
}

/// `k` is the placeholder for a case's knives: the knife page's link, empty
/// image, name and price, no skins yet and no knives.
pub open spec fn knife_placeholder(k: CaseElement, link: Option<Seq<char>>) -> bool {
    &&& opt_text(k.url) == link
    &&& opt_text(k.image) == Some(Seq::<char>::empty())
    &&& opt_text(k.name) == Some(Seq::<char>::empty())
    &&& opt_text(k.price) == Some(Seq::<char>::empty())
    &&& k.items matches Some(v) && v@.len() == 0
    &&& k.knifes is None
}

/// `c` is `case` after taking in a page with the given knife link and skins:
/// no page link, the same image, name and price; the knives kept when the page
/// is a knife page and a placeholder for the knife link otherwise; the skins
/// appended to the case's skins.
pub open spec fn absorbed(
    c: CaseElement,
    case: CaseElement,
    link: Option<Seq<char>>,
    skins: Seq<ItemView>,
    knife: bool,
) -> bool {
    &&& c.url is None
    &&& c.image == case.image
    &&& c.name == case.name
    &&& c.price == case.price
    &&& knife ==> c.knifes == case.knifes
    &&& !knife ==> (c.knifes matches Some(k) && knife_placeholder(*k, link))
    &&& match case.items {
        Some(old) => c.items matches Some(new) && items_view(new@) == items_view(old@) + skins,
        None => c.items is None && skins.len() == 0,
    }
}

/// The case page parsed from `source` can be read into `collection`: its
/// selectors parse, and where it has skin cards, the skin selectors parse and
/// the case has a list to add the skins to.
pub open spec fn case_page_readable(source: Seq<char>, collection: CaseElement) -> bool {
    &&& selector_parses(product_selector())
    &&& selector_parses(knife_link_selector())
    &&& page_match_count(source, product_selector()) > 0 ==> skin_selectors_parse()
        && collection.items is Some
}

/// The selectors of a skin card's name parts, rarity, prices and image.
fn skin_queries() -> (r: Option<(Query, Query, Query, Query, Query)>)
    ensures
        r.is_some() == skin_selectors_parse(),
        r matches Some(qs) ==> {
            &&& qs.0.text() == skin_name_selector()
            &&& qs.1.text() == skin_rarity_selector()
            &&& qs.2.text() == skin_price_selector()
            &&& qs.3.text() == skin_stat_price_selector()
            &&& qs.4.text() == skin_image_selector()
        },
{
    let name = match Query::parse("div > h3 > a") {
        Some(q) => q,
        None => return None,
    };
    let rarity = match Query::parse("div > a:nth-child(2) > div > p") {
        Some(q) => q,
        None => return None,
    };
    let price = match Query::parse("div > div:nth-child(5) > p > a") {
        Some(q) => q,
        None => return None,
    };
    let stat_price = match Query::parse("div > div:nth-child(6) > p > a") {
        Some(q) => q,
        None => return None,
    };
    let image = match Query::parse("div > a:nth-child(4) > img") {
        Some(q) => q,
        None => return None,
    };
    Some((name, rarity, price, stat_price, image))
}

/// Reads a skin card. `None` where a skin selector does not parse.
fn read_skin_card(node: &Node) -> (r: Option<SkinCard>)
    ensures
        r.is_some() == skin_selectors_parse(),
        r matches Some(card) ==> card@ == skin_card_at(node.source(), node.path()),
{
    let (name_q, rarity_q, price_q, stat_q, image_q) = match skin_queries() {
        Some(qs) => qs,
        None => return None,
    };
    let headers = node.select(&name_q);
    let ghost src = node.source();
    let ghost path = node.path();
    let mut name_parts: Vec<Vec<String>> = Vec::new();
    let mut j: usize = 0;
    while j < headers.len()
        invariant
            j <= headers@.len(),
            name_q.text() == skin_name_selector(),
            headers@.len() == element_match_count(src, path, skin_name_selector()),
            forall|k: int|
                0 <= k < headers@.len() ==> (#[trigger] headers@[k]).source() == src
                    && headers@[k].path() == path.push((skin_name_selector(), k)),
            name_parts@.len() == j,
            forall|k: int|
                0 <= k < j ==> strings_view((#[trigger] name_parts@[k])@) == element_texts(
                    src,
                    path.push((skin_name_selector(), k)),
                ),
        decreases headers@.len() - j,
    {
        name_parts.push(headers[j].texts());
        j = j + 1;
    }
    let rarity = first_text(node, &rarity_q);
    let nonstatprice = first_text(node, &price_q);
    let statprice = first_text(node, &stat_q);
    let image = first_attr(node, &image_q, "src");
    let card = SkinCard { name_parts, rarity, nonstatprice, statprice, image };
    assert(card@.name_parts =~= skin_card_at(src, path).name_parts);
    Some(card)
}

impl CaseElement {
    /// Takes in what a case page yields: the page link is consumed (the
    /// result has none); unless `knife` holds, the case gets as knives a
    /// placeholder case with the given knife link and empty image, name and
    /// price; the skins are appended, in order, to the case's skins. `None`
    /// where there are skins but the case has no list of skins.
    pub fn absorb_page(self, knife_link: Option<String>, skins: Vec<Items>, knife: bool) -> (r: Option<
        CaseElement,
    >)
        ensures
            r.is_some() == (skins@.len() > 0 ==> self.items is Some),
            r matches Some(c) ==> absorbed(c, self, opt_text(knife_link), items_view(skins@), knife),
    {
        let CaseElement { url: _, image, name, price, items, knifes } = self;
        let knifes = if !knife {
            Some(
                Box::new(
                    CaseElement::new(
                        knife_link,
                        Some(String::new()),
                        Some(String::new()),
                        Some(String::new()),
                    ),
                ),
            )
        } else {
            knifes
        };
        let mut skins = skins;
        match items {
            Some(list) => {
                let mut list = list;
                let ghost before = list@;
                let ghost added = skins@;
                list.append(&mut skins);
                assert(items_view(list@) =~= items_view(before) + items_view(added));
                Some(CaseElement { url: None, image, name, price, items: Some(list), knifes })
            },
            None => {
                if skins.len() > 0 {
                    return None;
                }
                assert(items_view(skins@) =~= Seq::<ItemView>::empty());
                Some(CaseElement { url: None, image, name, price, items: None, knifes })
            },
        }
    }

    /// Reads a case's page into the case: the link of the page's knife link,
    /// and for every skin card of the page, in order, the skin it describes,
    /// are taken in as `absorb_page` does. `None` where the page cannot be
    /// read into the case.
    pub fn read_case_page(self, body: &str, knife: bool) -> (r: Option<CaseElement>)
        ensures
            r.is_some() == case_page_readable(body@, self),
            r matches Some(c) ==> absorbed(c, self, knife_link_of(body@), page_skins(body@), knife),
    {
        let page = Page::parse(body);
        let products = match Query::parse("body > div.container.main-content > div:nth-child(7) > div") {
            Some(q) => q,
            None => return None,
        };
        let nodes = page.select(&products);
        let knife_query = match Query::parse(
            "body > div.container.main-content > div:nth-child(7) > div:nth-child(1) > div > h3 > a",
        ) {
            Some(q) => q,
            None => return None,
        };
        let links = page.select(&knife_query);
        let link = if links.len() == 0 {
            None
        } else {
            links[0].attr("href")
        };
        if nodes.len() > 0 && self.items.is_none() {
            return None;
        }
        let ghost src = body@;
        let ghost skins = page_skins(src);
        let mut items: Vec<Items> = Vec::new();
        let mut i: usize = 0;
        while i < nodes.len()
            invariant
                i <= nodes@.len(),
                nodes@.len() == skins.len(),
                skins == page_skins(src),
                page.source() == src,
                src == body@,
                selector_parses(product_selector()),
                selector_parses(knife_link_selector()),
                nodes@.len() > 0 ==> self.items is Some,
                i > 0 ==> skin_selectors_parse(),
                forall|k: int|
                    0 <= k < nodes@.len() ==> (#[trigger] nodes@[k]).source() == src
                        && nodes@[k].path() == seq![(product_selector(), k)],
                items_view(items@) == skins.subrange(0, i as int),
            decreases nodes@.len() - i,
        {
            let card = match read_skin_card(&nodes[i]) {
                Some(card) => card,
                None => return None,
            };
            let ghost before = items@;
            items.push(skin_from_card(card));
            assert(items_view(items@) =~= items_view(before).push(skins[i as int]));
            assert(skins.subrange(0, i + 1) =~= skins.subrange(0, i as int).push(skins[i as int]));
            i = i + 1;
        }
        assert(skins.subrange(0, skins.len() as int) =~= skins);
        self.absorb_page(link, items, knife)
    }
}


/// A skin with no name parts has the empty name.
pub proof fn law_skin_name_empty()
    ensures
        skin_name(Seq::empty()) == Seq::<char>::empty(),
{
    assert(Seq::new(0, |j: int| concat_parts(Seq::<Seq<Seq<char>>>::empty()[j]) + " "@)
        =~= Seq::<Seq<char>>::empty());
}

/// One more name part adds that part's joined fragments and a space to the
/// name.
pub proof fn law_skin_name_push(parts: Seq<Seq<Seq<char>>>, part: Seq<Seq<char>>)
    ensures
        skin_name(parts.push(part)) == skin_name(parts) + concat_parts(part) + " "@,
{
    let longer = parts.push(part);
    let pieces = Seq::new(longer.len(), |j: int| concat_parts(longer[j]) + " "@);
    let shorter = Seq::new(parts.len(), |j: int| concat_parts(parts[j]) + " "@);
    assert(pieces.drop_last() =~= shorter);
    assert(pieces.last() == concat_parts(part) + " "@);
    assert(concat_parts(shorter) + (concat_parts(part) + " "@) =~= concat_parts(shorter)
        + concat_parts(part) + " "@);
}

/// The skin of a card takes the card's rarity text through `Rarity::convert`
/// and its prices and image as they are.
pub proof fn law_skin_of_card_fields(c: SkinCardView)
    ensures
        skin_of_card(c).name == Some(skin_name(c.name_parts)),
        skin_of_card(c).rarity == Some(rarity_of_text(c.rarity)),
        skin_of_card(c).nonstatprice == c.nonstatprice,
        skin_of_card(c).statprice == c.statprice,
        skin_of_card(c).image == c.image,
{
}

/// The skins of a case page are read one per skin card, in order, each from
/// its own card: the name from the card's name parts, the rarity from the
/// joined text of the card's first rarity element, the prices from the joined
/// text of the card's first price elements, and the image from the `src` of
/// the card's first image.
pub proof fn law_page_skins(source: Seq<char>)
    ensures
        page_skins(source).len() == page_match_count(source, "body > div.container.main-content > div:nth-child(7) > div"@),
        forall|i: int|
            0 <= i < page_skins(source).len() ==> {
                let path = Seq::<(Seq<char>, int)>::empty().push(("body > div.container.main-content > div:nth-child(7) > div"@, i));
                let skin = #[trigger] page_skins(source)[i];
                &&& skin.name == Some(
                    skin_name(
                        Seq::new(
                            element_match_count(source, path, "div > h3 > a"@),
                            |j: int| element_texts(source, path.push(("div > h3 > a"@, j))),
                        ),
                    ),
                )
                &&& skin.rarity == Some(
                    rarity_of_text(first_text_of(source, path, "div > a:nth-child(2) > div > p"@)),
                )
                &&& skin.nonstatprice == first_text_of(
                    source,
                    path,
                    "div > div:nth-child(5) > p > a"@,
                )
                &&& skin.statprice == first_text_of(source, path, "div > div:nth-child(6) > p > a"@)
                &&& skin.image == first_attr_of(source, path, "div > a:nth-child(4) > img"@, "src"@)
            },
{
    assert forall|i: int| 0 <= i < page_skins(source).len() implies {
        let path = Seq::<(Seq<char>, int)>::empty().push(("body > div.container.main-content > div:nth-child(7) > div"@, i));
        let skin = #[trigger] page_skins(source)[i];
        &&& skin.name == Some(
            skin_name(
                Seq::new(
                    element_match_count(source, path, "div > h3 > a"@),
                    |j: int| element_texts(source, path.push(("div > h3 > a"@, j))),
                ),
            ),
        )
        &&& skin.rarity == Some(
            rarity_of_text(first_text_of(source, path, "div > a:nth-child(2) > div > p"@)),
        )
        &&& skin.nonstatprice == first_text_of(source, path, "div > div:nth-child(5) > p > a"@)
        &&& skin.statprice == first_text_of(source, path, "div > div:nth-child(6) > p > a"@)
        &&& skin.image == first_attr_of(source, path, "div > a:nth-child(4) > img"@, "src"@)
    } by {
        let path = Seq::<(Seq<char>, int)>::empty().push(("body > div.container.main-content > div:nth-child(7) > div"@, i));
        assert(path =~= seq![(product_selector(), i)]);
        let c = skin_card_at(source, path);
        assert(c.name_parts =~= Seq::new(
            element_match_count(source, path, "div > h3 > a"@),
            |j: int| element_texts(source, path.push(("div > h3 > a"@, j))),
        ));
    }
}

/// The knife link of a case page is the `href` of the first element that the
/// knife-link selector matches, if there is one.
pub proof fn law_knife_link(source: Seq<char>)
    ensures
        knife_link_of(source) == (if page_match_count(source, "body > div.container.main-content > div:nth-child(7) > div:nth-child(1) > div > h3 > a"@) > 0 {
            element_attr(source, Seq::<(Seq<char>, int)>::empty().push(("body > div.container.main-content > div:nth-child(7) > div:nth-child(1) > div > h3 > a"@, 0int)), "href"@)
        } else {
            None
        }),
{
    assert(Seq::<(Seq<char>, int)>::empty().push(("body > div.container.main-content > div:nth-child(7) > div:nth-child(1) > div > h3 > a"@, 0int)) =~= seq![(knife_link_selector(), 0)]);
}

/// Taking in a page: the case loses its page link and keeps its image, name
/// and price; a knife page keeps the knives, any other page gets a placeholder
/// with the given link, empty image, name and price, no skins and no knives;
/// the case's skins stay in front, unchanged, and the new skins follow in
/// order. A case without a list of skins takes in no skins.
pub proof fn law_absorbed(
    c: CaseElement,
    case: CaseElement,
    link: Option<Seq<char>>,
    skins: Seq<ItemView>,
    knife: bool,
)
    requires
        absorbed(c, case, link, skins, knife),
    ensures
        c.url is None,
        c.image == case.image,
        c.name == case.name,
        c.price == case.price,
        knife ==> c.knifes == case.knifes,
        !knife ==> {
            &&& c.knifes is Some
            &&& opt_text(c.knifes.unwrap().url) == link
            &&& opt_text(c.knifes.unwrap().image) == Some(Seq::<char>::empty())
            &&& opt_text(c.knifes.unwrap().name) == Some(Seq::<char>::empty())
            &&& opt_text(c.knifes.unwrap().price) == Some(Seq::<char>::empty())
            &&& c.knifes.unwrap().items is Some
            &&& c.knifes.unwrap().items.unwrap()@.len() == 0
            &&& c.knifes.unwrap().knifes is None
        },
        case.items is Some ==> {
            let old = case.items.unwrap()@;
            &&& c.items is Some
            &&& c.items.unwrap()@.len() == old.len() + skins.len()
            &&& forall|k: int|
                0 <= k < old.len() ==> (#[trigger] c.items.unwrap()@[k])@ == old[k]@
            &&& forall|j: int|
                0 <= j < skins.len() ==> (#[trigger] c.items.unwrap()@[old.len() + j])@
                    == skins[j]
        },
        case.items is None ==> c.items is None && skins.len() == 0,
{
    if case.items is Some {
        let old = case.items.unwrap()@;
        let new = c.items.unwrap()@;
        assert(items_view(new) == items_view(old) + skins);
        assert forall|k: int| 0 <= k < old.len() implies (#[trigger] new[k])@ == old[k]@ by {
            assert(items_view(new)[k] == (items_view(old) + skins)[k]);
        }
        assert forall|j: int| 0 <= j < skins.len() implies (#[trigger] new[old.len() + j])@
            == skins[j] by {
            assert(items_view(new)[old.len() + j] == (items_view(old) + skins)[old.len() + j]);
        }
    }
}

/// A case page can be read into a case exactly when the product and
/// knife-link selectors parse and, where there are skin cards, the skin
/// selectors parse and the case has a list of skins.
pub proof fn law_case_page_readable(source: Seq<char>, case: CaseElement)
    ensures
        case_page_readable(source, case) == ({
            &&& selector_parses("body > div.container.main-content > div:nth-child(7) > div"@)
            &&& selector_parses("body > div.container.main-content > div:nth-child(7) > div:nth-child(1) > div > h3 > a"@)
            &&& page_match_count(source, "body > div.container.main-content > div:nth-child(7) > div"@) > 0 ==> {
                &&& selector_parses("div > h3 > a"@)
                &&& selector_parses("div > a:nth-child(2) > div > p"@)
                &&& selector_parses("div > div:nth-child(5) > p > a"@)
                &&& selector_parses("div > div:nth-child(6) > p > a"@)
                &&& selector_parses("div > a:nth-child(4) > img"@)
                &&& case.items is Some
            }
        }),
{
}

} // verus!
