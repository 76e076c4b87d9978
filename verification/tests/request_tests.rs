use case_scraper::request::{Card, Listing, Scraping};

fn texts(n: usize) -> Vec<String> {
    (0..n).map(|i| format!("t{}", i)).collect()
}

fn card_html(link: Option<&str>, label: &str) -> String {
    let anchor = match link {
        Some(l) => format!("<a href=\"{}\">{}0</a>", l, label),
        None => format!("<a>{}0</a>", label),
    };
    let mut inner = anchor;
    for i in 1..8 {
        inner.push_str(&format!("<span>{}{}</span>", label, i));
    }
    format!("<div class=\"col-lg-4 col-md-6 col-widen text-center\">{}</div>", inner)
}

#[test]
fn listing_from_cards_reads_fourth_and_eighth_text() {
    let cards = vec![
        Card { link: Some("/one".to_string()), texts: texts(8) },
        Card { link: None, texts: texts(2) },
        Card { link: Some("/two".to_string()), texts: texts(9) },
    ];
    let l = Listing::from_cards(&cards).expect("complete cards");
    assert_eq!(l.links, vec!["/one".to_string(), "/two".to_string()]);
    assert_eq!(l.items, vec!["t3".to_string(), "t3".to_string()]);
    assert_eq!(l.prices, vec!["t7".to_string(), "t7".to_string()]);
}

#[test]
fn listing_from_cards_rejects_short_card() {
    let cards = vec![Card { link: Some("/one".to_string()), texts: texts(7) }];
    assert!(Listing::from_cards(&cards).is_none());
}

#[test]
fn listing_from_no_cards_is_empty() {
    let l = Listing::from_cards(&Vec::new()).expect("empty");
    assert!(l.links.is_empty() && l.items.is_empty() && l.prices.is_empty());
}

#[test]
fn listing_of_page_reads_every_card() {
    let body = format!(
        "<html><body>{}{}{}</body></html>",
        card_html(Some("/a"), "a"),
        card_html(None, "b"),
        card_html(Some("/c"), "c")
    );
    let l = Scraping::listing(&body).expect("readable page");
    assert_eq!(l.links, vec!["/a".to_string(), "/c".to_string()]);
    assert_eq!(l.items, vec!["a3".to_string(), "c3".to_string()]);
    assert_eq!(l.prices, vec!["a7".to_string(), "c7".to_string()]);
}

#[test]
fn page_listing_reads_first_card_only() {
    let body = format!(
        "<html><body>{}{}</body></html>",
        card_html(Some("/a"), "a"),
        card_html(Some("/c"), "c")
    );
    let l = Scraping::page_listing(&body).expect("readable page");
    assert_eq!(l.links, vec!["/a".to_string()]);
    assert_eq!(l.items, vec!["a3".to_string()]);
    assert_eq!(l.prices, vec!["a7".to_string()]);
}

#[test]
fn listing_skips_card_without_anchor() {
    let body = "<html><body><div class=\"col-lg-4 col-md-6 col-widen text-center\"><p>x</p></div></body></html>";
    let l = Scraping::listing(body).expect("readable page");
    assert!(l.links.is_empty());
}

#[test]
fn listing_rejects_card_with_few_texts() {
    let body = "<html><body><div class=\"col-lg-4 col-md-6 col-widen text-center\"><a href=\"/x\">one</a><p>two</p></div></body></html>";
    assert!(Scraping::listing(body).is_none());
}

#[test]
fn listing_of_empty_page_is_empty() {
    let l = Scraping::listing("<html><body></body></html>").expect("readable page");
    assert!(l.links.is_empty());
    let first = Scraping::page_listing("").expect("readable page");
    assert!(first.items.is_empty());
}
