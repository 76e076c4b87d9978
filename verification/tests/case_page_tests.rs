use case_scraper::case_page::{skin_from_card, SkinCard};
use case_scraper::structs::{CaseElement, Items, Rarity};

fn s(text: &str) -> Option<String> {
    Some(text.to_string())
}

fn parts(list: &[&[&str]]) -> Vec<Vec<String>> {
    list.iter().map(|p| p.iter().map(|t| t.to_string()).collect()).collect()
}

#[test]
fn skin_name_joins_parts_with_trailing_spaces() {
    let card = SkinCard {
        name_parts: parts(&[&["StatTrak", "\u{2122} AK-47"], &["Red", "line"]]),
        rarity: s("Classified Rifle"),
        nonstatprice: s("$5"),
        statprice: s("$9"),
        image: s("ak.png"),
    };
    let item = skin_from_card(card);
    assert_eq!(item.name, s("StatTrak\u{2122} AK-47 Redline "));
    assert!(matches!(item.rarity, Some(Rarity::Classified)));
    assert_eq!(item.nonstatprice, s("$5"));
    assert_eq!(item.statprice, s("$9"));
    assert_eq!(item.image, s("ak.png"));
}

#[test]
fn skin_without_name_parts_has_empty_name() {
    let card = SkinCard { name_parts: Vec::new(), rarity: None, nonstatprice: None, statprice: None, image: None };
    let item = skin_from_card(card);
    assert_eq!(item.name, s(""));
    assert!(matches!(item.rarity, Some(Rarity::Unknown)));
}

#[test]
fn absorb_page_appends_skins_and_sets_placeholder() {
    let mut case = CaseElement::new(s("/a"), s("a.png"), s("Alpha"), s("$1"));
    case.items = Some(vec![Items::new(s("old"), None, None, None, None)]);
    let skins = vec![Items::new(s("new"), None, None, None, None)];
    let c = case.absorb_page(s("/knives"), skins, false).expect("has a skin list");
    assert_eq!(c.url, None);
    assert_eq!(c.image, s("a.png"));
    let items = c.items.as_ref().expect("skins");
    assert_eq!(items.len(), 2);
    assert_eq!(items[0].name, s("old"));
    assert_eq!(items[1].name, s("new"));
    let k = c.knifes.as_ref().expect("placeholder");
    assert_eq!(k.url, s("/knives"));
    assert_eq!(k.name, s(""));
    assert_eq!(k.items.as_ref().map(|v| v.len()), Some(0));
}

#[test]
fn absorb_page_for_knife_page_keeps_knives() {
    let case = CaseElement::new(s("/k"), None, None, None) + CaseElement::new(s("/inner"), None, None, None);
    let c = case.absorb_page(None, Vec::new(), true).expect("nothing to add");
    assert_eq!(c.knifes.as_ref().and_then(|k| k.url.clone()), s("/inner"));
}

#[test]
fn absorb_page_without_skin_list() {
    let mut case = CaseElement::new(None, None, None, None);
    case.items = None;
    let skins = vec![Items::new(s("new"), None, None, None, None)];
    assert!(case.absorb_page(None, skins, true).is_none());
    let mut other = CaseElement::new(None, None, None, None);
    other.items = None;
    let c = other.absorb_page(None, Vec::new(), true).expect("nothing to add");
    assert!(c.items.is_none());
}
