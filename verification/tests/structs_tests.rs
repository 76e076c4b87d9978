use case_scraper::structs::{CaseElement, Items, Rarity};

fn s(text: &str) -> Option<String> {
    Some(text.to_string())
}

#[test]
fn rarity_without_text_is_unknown() {
    assert!(matches!(Rarity::convert(None), Rarity::Unknown));
}

#[test]
fn rarity_words_are_recognised() {
    assert!(matches!(Rarity::convert(s("Covert Knife")), Rarity::Covert));
    assert!(matches!(Rarity::convert(s("Classified Rifle")), Rarity::Classified));
    assert!(matches!(Rarity::convert(s("Restricted Pistol")), Rarity::Restricted));
    assert!(matches!(Rarity::convert(s("Rare Special Item")), Rarity::Rare));
    assert!(matches!(Rarity::convert(s("Mil-Spec Grade SMG")), Rarity::MilSpec));
    assert!(matches!(Rarity::convert(s("Consumer Grade")), Rarity::Unknown));
    assert!(matches!(Rarity::convert(s("")), Rarity::Unknown));
}

#[test]
fn rarity_ignores_ascii_case() {
    assert!(matches!(Rarity::convert(s("COVERT")), Rarity::Covert));
    assert!(matches!(Rarity::convert(s("cOvErT")), Rarity::Covert));
    assert!(matches!(Rarity::convert(s("MIL-SPEC")), Rarity::MilSpec));
}

#[test]
fn rarity_earlier_word_wins() {
    assert!(matches!(Rarity::convert(s("rare covert")), Rarity::Covert));
    assert!(matches!(Rarity::convert(s("mil-spec restricted")), Rarity::Restricted));
    assert!(matches!(Rarity::convert(s("classified rare")), Rarity::Classified));
}

#[test]
fn rarity_needs_whole_word_run() {
    assert!(matches!(Rarity::convert(s("cov ert")), Rarity::Unknown));
    assert!(matches!(Rarity::convert(s("milspec")), Rarity::Unknown));
}

#[test]
fn new_case_has_empty_skins_and_no_knives() {
    let c = CaseElement::new(s("/case"), s("img.png"), s("Alpha Case"), s("$1.00"));
    assert_eq!(c.url, s("/case"));
    assert_eq!(c.image, s("img.png"));
    assert_eq!(c.name, s("Alpha Case"));
    assert_eq!(c.price, s("$1.00"));
    assert_eq!(c.items.as_ref().map(|v| v.len()), Some(0));
    assert!(c.knifes.is_none());
}

#[test]
fn new_item_keeps_fields() {
    let i = Items::new(s("AK-47 Redline "), Some(Rarity::Classified), s("$5"), s("$9"), s("ak.png"));
    assert_eq!(i.name, s("AK-47 Redline "));
    assert!(matches!(i.rarity, Some(Rarity::Classified)));
    assert_eq!(i.nonstatprice, s("$5"));
    assert_eq!(i.statprice, s("$9"));
    assert_eq!(i.image, s("ak.png"));
}

#[test]
fn adding_attaches_knives_and_keeps_case() {
    let mut case = CaseElement::new(s("/a"), s("a.png"), s("Alpha"), s("$1"));
    case.items = Some(vec![Items::new(s("skin"), None, None, None, None)]);
    let knives = CaseElement::new(s("/k"), s(""), s(""), s(""));
    let joined = case + knives;
    assert_eq!(joined.url, s("/a"));
    assert_eq!(joined.image, s("a.png"));
    assert_eq!(joined.name, s("Alpha"));
    assert_eq!(joined.price, s("$1"));
    assert_eq!(joined.items.as_ref().map(|v| v.len()), Some(1));
    let k = joined.knifes.expect("knives attached");
    assert_eq!(k.url, s("/k"));
}

#[test]
fn cloning_keeps_fields_and_knives() {
    let case = CaseElement::new(s("/a"), None, s("Alpha"), None)
        + CaseElement::new(s("/k"), None, None, None);
    let copy = case.clone();
    assert_eq!(copy.url, s("/a"));
    assert_eq!(copy.image, None);
    assert_eq!(copy.name, s("Alpha"));
    assert_eq!(copy.knifes.as_ref().and_then(|k| k.url.clone()), s("/k"));
}
