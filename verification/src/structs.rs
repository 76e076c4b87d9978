//! The data model: rarities, skins and cases.

use vstd::prelude::*;
use crate::text::{ascii_lower, chars_of, contains_chars, has_substring, lemma_ascii_lower_idempotent, lower_chars};

verus! {

/// How rare a skin is, as the listing names it.
#[derive(Debug, Clone, Copy)]
pub enum Rarity {
    Covert,
    Classified,
    Restricted,
    Rare,
    MilSpec,
    /// No rarity word was found, or there was no rarity text.
    Unknown,
}

/// The rarity that an already lower-cased rarity text names: the first of
/// "covert", "classified", "restricted", "rare", "mil-spec" that occurs in it.
pub open spec fn rarity_named(lower: Seq<char>) -> Rarity {
    if has_substring(lower, "covert"@) {
        Rarity::Covert
    } else if has_substring(lower, "classified"@) {
        Rarity::Classified
    } else if has_substring(lower, "restricted"@) {
        Rarity::Restricted
    } else if has_substring(lower, "rare"@) {
        Rarity::Rare
    } else if has_substring(lower, "mil-spec"@) {
        Rarity::MilSpec
    } else {
        Rarity::Unknown
    }
}

/// The rarity of an optional rarity text; matching ignores ASCII case.
pub open spec fn rarity_of_text(text: Option<Seq<char>>) -> Rarity {
    match text {
        Some(t) => rarity_named(ascii_lower(t)),
        Option::None => Rarity::Unknown,
    }
}

impl Rarity {
    /// Reads a rarity from the text of a listing: no text gives `Rarity::Unknown`;
    /// otherwise the text is lower-cased (ASCII) and searched for the rarity
    /// words in the order covert, classified, restricted, rare, mil-spec.
    pub fn convert(rarity: Option<String>) -> (r: Rarity)
        ensures
            rarity.is_none() ==> r == Rarity::Unknown,
            rarity matches Some(s) ==> r == rarity_named(ascii_lower(s@)),
    {
        let text = match rarity {
            Some(x) => x,
            Option::None => return Rarity::Unknown,
        };
        let lower = lower_chars(&chars_of(text.as_str()));
        if contains_chars(&lower, &chars_of("covert")) {
            Rarity::Covert
        } else if contains_chars(&lower, &chars_of("classified")) {
            Rarity::Classified
        } else if contains_chars(&lower, &chars_of("restricted")) {
            Rarity::Restricted
        } else if contains_chars(&lower, &chars_of("rare")) {
            Rarity::Rare
        } else if contains_chars(&lower, &chars_of("mil-spec")) {
            Rarity::MilSpec
        } else {
            Rarity::Unknown
        }
    }
}

/// Matching a rarity text ignores ASCII case: a text and its lower-cased
/// form name the same rarity.
pub proof fn law_rarity_ignores_ascii_case(text: Seq<char>)
    ensures
        rarity_of_text(Some(text)) == rarity_of_text(Some(ascii_lower(text))),
{
    lemma_ascii_lower_idempotent(text);
}

/// The character sequence of an optional string.
pub open spec fn opt_text(s: Option<String>) -> Option<Seq<char>> {
    match s {
        Some(t) => Some(t@),
        Option::None => Option::None,
    }
}

/// One skin of a case: its name, rarity, prices and image.
#[derive(Debug)]
pub struct Items {
    pub name: Option<String>,
    pub rarity: Option<Rarity>,
    pub nonstatprice: Option<String>,
    pub statprice: Option<String>,
    pub image: Option<String>,
}

/// The abstract content of a skin: its texts as character sequences.
pub struct ItemView {
    pub name: Option<Seq<char>>,
    pub rarity: Option<Rarity>,
    pub nonstatprice: Option<Seq<char>>,
    pub statprice: Option<Seq<char>>,
    pub image: Option<Seq<char>>,
}

impl View for Items {
    type V = ItemView;

    open spec fn view(&self) -> ItemView {
        ItemView {
            name: opt_text(self.name),
            rarity: self.rarity,
            nonstatprice: opt_text(self.nonstatprice),
            statprice: opt_text(self.statprice),
            image: opt_text(self.image),
        }
    }
}

impl Clone for Items {
    /// A copy of the skin.
    fn clone(&self) -> (r: Self)
        ensures
            r == *self,
    {
        Items {
            name: self.name.clone(),
            rarity: self.rarity,
            nonstatprice: self.nonstatprice.clone(),
            statprice: self.statprice.clone(),
            image: self.image.clone(),
        }
    }
}

impl Items {
    /// A skin with the given fields.
    pub fn new(
        name: Option<String>,
        rarity: Option<Rarity>,
        nonstatprice: Option<String>,
        statprice: Option<String>,
        image: Option<String>,
    ) -> (r: Self)
        ensures
            r.name == name,
            r.rarity == rarity,
            r.nonstatprice == nonstatprice,
            r.statprice == statprice,
            r.image == image,
    {
        Self { name, rarity, nonstatprice, statprice, image }
    }
}

/// The abstract content of a sequence of skins.
pub open spec fn items_view(items: Seq<Items>) -> Seq<ItemView> {
    items.map_values(|i: Items| i@)
}

/// A weapon case: its page, image, name, price, skins, and the case that
/// lists its knives.
#[derive(Debug)]
pub struct CaseElement {
    pub url: Option<String>,
    pub image: Option<String>,
    pub name: Option<String>,
    pub price: Option<String>,
    pub items: Option<Vec<Items>>,
    pub knifes: Option<Box<CaseElement>>,
}

impl CaseElement {
    /// A case with the given page, image, name and price, an empty list of
    /// skins and no knives.
    pub fn new(
        url: Option<String>,
        image: Option<String>,
        name: Option<String>,
        price: Option<String>,
    ) -> (r: Self)
        ensures
            r.url == url,
            r.image == image,
            r.name == name,
            r.price == price,
            r.items matches Some(v) && v@.len() == 0,
            r.knifes.is_none(),
    {
        Self { url, image, name, price, items: Some(Vec::new()), knifes: Option::None }
    }
}

/// The case `case` with `knives` attached: everything but the knives comes
/// from `case`.
pub open spec fn with_knives(case: CaseElement, knives: CaseElement) -> CaseElement {
    CaseElement {
        url: case.url,
        image: case.image,
        name: case.name,
        price: case.price,
        items: case.items,
        knifes: Some(Box::new(knives)),
    }
}

/// `a` and `b` hold the same case: the same page, image, name and price, skin
/// lists with the same content, and knives that hold the same case in turn.
pub open spec fn same_case(a: CaseElement, b: CaseElement) -> bool
    decreases a,
{
    &&& a.url == b.url
    &&& a.image == b.image
    &&& a.name == b.name
    &&& a.price == b.price
    &&& match (a.items, b.items) {
        (Some(x), Some(y)) => x@ == y@,
        (Option::None, Option::None) => true,
        _ => false,
    }
    &&& match (a.knifes, b.knifes) {
        (Some(x), Some(y)) => same_case(*x, *y),
        (Option::None, Option::None) => true,
        _ => false,
    }
}

impl Clone for CaseElement {
    /// A copy of the case; its knives are copied in turn.
    fn clone(&self) -> (r: Self)
        ensures
            same_case(r, *self),
        decreases self,
    {
        let knifes = match &self.knifes {
            Some(k) => Some(Box::new((**k).clone())),
            Option::None => Option::None,
        };
        let items = match &self.items {
            Some(v) => {
                let copy = v.clone();
                assert(copy@ =~= v@);
                Some(copy)
            },
            Option::None => Option::None,
        };
        CaseElement {
            url: self.url.clone(),
            image: self.image.clone(),
            name: self.name.clone(),
            price: self.price.clone(),
            items,
            knifes,
        }
    }
}

impl core::ops::Add for CaseElement {
    type Output = CaseElement;

    /// The case `self` with `rhs` attached as its knives: page, image, name,
    /// price and skins come from `self`.
    fn add(self, rhs: Self) -> (r: CaseElement) {
        let mut temp = CaseElement::new(self.url, self.image, self.name, self.price);
        temp.knifes = Some(Box::new(rhs));
        temp.items = self.items;
        temp
    }
}

impl vstd::std_specs::ops::AddSpecImpl for CaseElement {
    open spec fn obeys_add_spec() -> bool {
        true
    }

    open spec fn add_req(self, rhs: CaseElement) -> bool {
        true
    }

    open spec fn add_spec(self, rhs: CaseElement) -> CaseElement {
        with_knives(self, rhs)
    }
}


/// What a rarity text names, word by word (with `l` its ASCII lower-cased
/// form): covert wins over every other word; classified over all but covert;
/// restricted over rare and mil-spec; rare over mil-spec; and a text without
/// any of the five words, or no text, names no rarity.
pub proof fn law_rarity_words(text: Seq<char>)
    ensures
        ({
            let l = ascii_lower(text);
            let r = rarity_of_text(Some(text));
            &&& has_substring(l, "covert"@) <==> r == Rarity::Covert
            &&& (!has_substring(l, "covert"@) && has_substring(l, "classified"@)) <==> r
                == Rarity::Classified
            &&& (!has_substring(l, "covert"@) && !has_substring(l, "classified"@) && has_substring(
                l,
                "restricted"@,
            )) <==> r == Rarity::Restricted
            &&& (!has_substring(l, "covert"@) && !has_substring(l, "classified"@) && !has_substring(
                l,
                "restricted"@,
            ) && has_substring(l, "rare"@)) <==> r == Rarity::Rare
            &&& (!has_substring(l, "covert"@) && !has_substring(l, "classified"@) && !has_substring(
                l,
                "restricted"@,
            ) && !has_substring(l, "rare"@) && has_substring(l, "mil-spec"@)) <==> r
                == Rarity::MilSpec
        }),
        rarity_of_text(None) == Rarity::Unknown,
{
}

/// `a + b` keeps the page, image, name, price and skins of `a` and has `b` as
/// its knives.
pub proof fn law_add_attaches_knives(a: CaseElement, b: CaseElement)
    ensures
        with_knives(a, b).url == a.url,
        with_knives(a, b).image == a.image,
        with_knives(a, b).name == a.name,
        with_knives(a, b).price == a.price,
        with_knives(a, b).items == a.items,
        with_knives(a, b).knifes == Some(Box::new(b)),
{
}


/// Two values that hold the same case have the same page, image, name and
/// price, skin lists with the same content, and knives on both or on neither.
pub proof fn law_same_case(a: CaseElement, b: CaseElement)
    requires
        same_case(a, b),
    ensures
        a.url == b.url,
        a.image == b.image,
        a.name == b.name,
        a.price == b.price,
        a.items is Some <==> b.items is Some,
        a.items is Some ==> a.items.unwrap()@ == b.items.unwrap()@,
        a.knifes is Some <==> b.knifes is Some,
        a.knifes is Some ==> same_case(*a.knifes.unwrap(), *b.knifes.unwrap()),
{
}

} // verus!
