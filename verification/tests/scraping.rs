use brawl_hub::scrape::{
    attribute_or, attributes_or, deck_page_url, get_aetherhub_decklist, scrape, scrape_aetherhub_urls,
};

fn present(texts: &[&str]) -> Vec<Option<String>> {
    texts.iter().map(|t| Some(t.to_string())).collect()
}

#[test]
fn index_keeps_deck_links_in_table_order() {
    let hrefs = present(&["/Deck/abc", "/User/bob", "/Deck/def"]);
    assert_eq!(scrape_aetherhub_urls(&hrefs), vec!["/Deck/abc".to_string(), "/Deck/def".to_string()]);
}

#[test]
fn index_drops_anchors_without_address() {
    let hrefs = vec![None, Some("/Deck/abc".to_string()), None];
    assert_eq!(scrape_aetherhub_urls(&hrefs), vec!["/Deck/abc".to_string()]);
    assert!(scrape_aetherhub_urls(&Vec::new()).is_empty());
}

#[test]
fn index_filter_goes_by_the_prefix_alone() {
    let hrefs = present(&["/deck/abc", "/Deck", "https://aetherhub.com/Deck/x", "/Decks/Historic-Brawl/", "/Dec"]);
    assert_eq!(
        scrape_aetherhub_urls(&hrefs),
        vec!["/Deck".to_string(), "/Decks/Historic-Brawl/".to_string()]
    );
}

#[test]
fn scrape_gives_the_deck_links_only() {
    let hrefs = present(&["/Deck/abc", "/User/bob", "/Deck/def"]);
    assert_eq!(scrape(&hrefs), vec!["/Deck/abc".to_string(), "/Deck/def".to_string()]);
}

#[test]
fn scrape_leaves_out_anchors_without_address() {
    let hrefs = vec![Some("/Deck/abc".to_string()), None, Some("/User/bob".to_string())];
    assert_eq!(scrape(&hrefs), vec!["/Deck/abc".to_string()]);
    assert!(scrape(&vec![None, None]).is_empty());
    assert!(scrape(&Vec::new()).is_empty());
}

#[test]
fn addresses_before_filtering_fall_back_to_the_sentinel() {
    let hrefs = vec![Some("/Deck/abc".to_string()), None, Some("/User/bob".to_string())];
    assert_eq!(
        attributes_or(&hrefs, "whoops no url"),
        vec!["/Deck/abc".to_string(), "whoops no url".to_string(), "/User/bob".to_string()]
    );
}

#[test]
fn absent_attribute_takes_the_fallback() {
    assert_eq!(attribute_or(&None, "fallback"), "fallback");
    assert_eq!(attribute_or(&Some("value".to_string()), "fallback"), "value");
    assert_eq!(attribute_or(&Some(String::new()), "fallback"), "");
    assert_eq!(
        attributes_or(&vec![None, Some("b".to_string())], "a"),
        vec!["a".to_string(), "b".to_string()]
    );
}

#[test]
fn deck_page_address_joins_origin_and_link() {
    assert_eq!(deck_page_url("/Deck/elves-aggro"), "https://aetherhub.com/Deck/elves-aggro");
    assert_eq!(deck_page_url(""), "https://aetherhub.com");
}

#[test]
fn deck_page_names_keep_order_and_copies() {
    let names = vec![
        Some("Llanowar Elves".to_string()),
        None,
        Some("Llanowar Elves".to_string()),
        Some("Forest".to_string()),
    ];
    assert_eq!(
        get_aetherhub_decklist(&names),
        vec![
            "Llanowar Elves".to_string(),
            "no card name".to_string(),
            "Llanowar Elves".to_string(),
            "Forest".to_string()
        ]
    );
    assert!(get_aetherhub_decklist(&Vec::new()).is_empty());
}
