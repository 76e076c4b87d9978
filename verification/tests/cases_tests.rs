use case_scraper::cases::{attach_knives, cases_from_cards, cases_on_page, count_missed, knives_of, CaseCard};
use case_scraper::structs::{CaseElement, Items, Rarity};

fn s(text: &str) -> Option<String> {
    Some(text.to_string())
}

fn card(url: Option<&str>, image: Option<&str>, name: Option<&str>, price: Option<&str>) -> CaseCard {
    CaseCard {
        url: url.map(|x| x.to_string()),
        image: image.map(|x| x.to_string()),
        name: name.map(|x| x.to_string()),
        price: price.map(|x| x.to_string()),
    }
}

/// A page whose seventh child of the main content holds the given products.
fn page(products: &str) -> String {
    let mut filler = String::new();
    for _ in 0..6 {
        filler.push_str("<div></div>");
    }
    format!(
        "<html><body><div class=\"container main-content\">{}<div>{}</div></div></body></html>",
        filler, products
    )
}

#[test]
fn cases_from_cards_keeps_cases_and_drops_collections() {
    let cards = vec![
        card(Some("/a"), Some("a.png"), Some("Alpha Case"), Some("$1")),
        card(None, None, None, None),
        card(Some("/c"), None, Some("The Dust COLLECTION"), None),
        card(None, None, Some("Beta Case"), None),
    ];
    let cases = cases_from_cards(&cards).expect("judgeable");
    assert_eq!(cases.len(), 2);
    assert_eq!(cases[0].url, s("/a"));
    assert_eq!(cases[0].image, s("a.png"));
    assert_eq!(cases[0].name, s("Alpha Case"));
    assert_eq!(cases[0].price, s("$1"));
    assert_eq!(cases[0].items.as_ref().map(|v| v.len()), Some(0));
    assert!(cases[0].knifes.is_none());
    assert_eq!(cases[1].name, s("Beta Case"));
    assert_eq!(cases[1].url, None);
}

#[test]
fn cases_from_cards_rejects_unnamed_card() {
    let cards = vec![card(Some("/a"), None, None, None)];
    assert!(cases_from_cards(&cards).is_none());
}

#[test]
fn cases_on_page_reads_cards() {
    let body = page(
        "<div><a href=\"/case/alpha\"><img src=\"alpha.png\"><h4>Alpha <b>Case</b></h4><div><p>$1.00</p></div></a></div>\
         <div><a href=\"/collection/dust\"><h4>Dust Collection</h4></a></div>\
         <div><span>nothing</span></div>",
    );
    let cases = cases_on_page(&body).expect("readable");
    assert_eq!(cases.len(), 1);
    assert_eq!(cases[0].url, s("/case/alpha"));
    assert_eq!(cases[0].image, s("alpha.png"));
    assert_eq!(cases[0].name, s("Alpha Case"));
    assert_eq!(cases[0].price, s("$1.00"));
}

#[test]
fn cases_on_page_rejects_nameless_card() {
    let body = page("<div><a href=\"/case/alpha\"><img src=\"alpha.png\"></a></div>");
    assert!(cases_on_page(&body).is_none());
}

#[test]
fn cases_on_empty_page() {
    assert_eq!(cases_on_page("<html></html>").map(|v| v.len()), Some(0));
}

fn skin_card(first: &str, second: &str, rarity: &str, image: &str, price: &str, stat: &str) -> String {
    format!(
        "<div><div><h3><a href=\"/knives\">{}</a><a>{}</a></h3><a><div><p>{}</p></div></a><p></p>\
         <a><img src=\"{}\"></a><div><p><a>{}</a></p></div><div><p><a>{}</a></p></div></div></div>",
        first, second, rarity, image, price, stat
    )
}

#[test]
fn read_case_page_adds_skins_and_knife_placeholder() {
    let body = page(&format!(
        "{}{}",
        skin_card("AK-47", "Redline", "Classified Rifle", "ak.png", "$5", "$9"),
        skin_card("AWP", "Asiimov", "Covert Sniper", "awp.png", "$50", "$90")
    ));
    let mut case = CaseElement::new(s("/case/alpha"), s("a.png"), s("Alpha"), s("$1"));
    case.items = Some(vec![Items::new(s("old"), None, None, None, None)]);
    let filled = case.read_case_page(&body, false).expect("readable");
    assert_eq!(filled.url, None);
    assert_eq!(filled.name, s("Alpha"));
    let items = filled.items.as_ref().expect("skins");
    assert_eq!(items.len(), 3);
    assert_eq!(items[0].name, s("old"));
    assert_eq!(items[1].name, s("AK-47 Redline "));
    assert!(matches!(items[1].rarity, Some(Rarity::Classified)));
    assert_eq!(items[1].nonstatprice, s("$5"));
    assert_eq!(items[1].statprice, s("$9"));
    assert_eq!(items[1].image, s("ak.png"));
    assert_eq!(items[2].name, s("AWP Asiimov "));
    assert!(matches!(items[2].rarity, Some(Rarity::Covert)));
    let knives = filled.knifes.as_ref().expect("placeholder");
    assert_eq!(knives.url, s("/knives"));
    assert_eq!(knives.image, s(""));
    assert_eq!(knives.name, s(""));
    assert_eq!(knives.price, s(""));
}

#[test]
fn read_case_page_for_knives_keeps_knives() {
    let body = page(&skin_card("Karambit", "Fade", "Covert Knife", "k.png", "$500", "$700"));
    let case = CaseElement::new(s("/knife/alpha"), s(""), s(""), s(""));
    let filled = case.read_case_page(&body, true).expect("readable");
    assert!(filled.knifes.is_none());
    assert_eq!(filled.items.as_ref().map(|v| v.len()), Some(1));
}

#[test]
fn read_case_page_without_skin_list() {
    let mut case = CaseElement::new(s("/a"), None, None, None);
    case.items = None;
    let empty = case.read_case_page("<html></html>", true).expect("no skins to add");
    assert!(empty.items.is_none());
    let mut again = CaseElement::new(s("/a"), None, None, None);
    again.items = None;
    let body = page(&skin_card("AK-47", "Redline", "Classified", "ak.png", "$5", "$9"));
    assert!(again.read_case_page(&body, true).is_none());
}

#[test]
fn knives_are_taken_from_cases() {
    let with = CaseElement::new(s("/a"), None, s("A"), None) + CaseElement::new(s("/ka"), None, None, None);
    let without = CaseElement::new(s("/b"), None, s("B"), None);
    let knives = knives_of(vec![with, without]);
    assert_eq!(knives.len(), 1);
    assert_eq!(knives[0].url, s("/ka"));
}

#[test]
fn attaching_knives_then_taking_them_gives_them_back() {
    let cases = vec![
        CaseElement::new(s("/a"), None, s("A"), None),
        CaseElement::new(s("/b"), None, s("B"), None),
    ];
    let knives = vec![
        CaseElement::new(s("/ka"), None, None, None),
        CaseElement::new(s("/kb"), None, None, None),
        CaseElement::new(s("/kc"), None, None, None),
    ];
    let joined = attach_knives(cases, knives);
    assert_eq!(joined.len(), 2);
    assert_eq!(joined[0].name, s("A"));
    assert_eq!(joined[1].name, s("B"));
    let back = knives_of(joined);
    assert_eq!(back.len(), 2);
    assert_eq!(back[0].url, s("/ka"));
    assert_eq!(back[1].url, s("/kb"));
}

#[test]
fn missed_cases_are_counted() {
    let mut full = CaseElement::new(None, None, s("Full"), None);
    full.items = Some(vec![Items::new(s("x"), None, None, None, None)]);
    let empty = CaseElement::new(None, None, s("Empty"), None);
    let also_empty = CaseElement::new(None, None, s("Also"), None);
    assert_eq!(count_missed(&vec![full, empty, also_empty]), 2);
    assert_eq!(count_missed(&Vec::new()), 0);
}
