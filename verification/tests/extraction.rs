use aggreg::entry::Entry;
use aggreg::entry::SelectorError;
use aggreg::extract::{extract, join_text, ExtractError};
use aggreg::html::{fits_compiler, fits_parser};
use aggreg::feed::{Feed, FeedItem};

const THREE_ITEMS: &str = "<html><body><ul>\
<li class=\"item\"><h2>First</h2><a href=\"/one\">go</a></li>\
<li class=\"item\"><h2>Second</h2><a href=\"/two\">go</a></li>\
<li class=\"item\"><h2>Third</h2><a href=\"/three\">go</a></li>\
</ul></body></html>";

fn rules(selector: &str, title: &str, anchor: &str, content: &str) -> Entry {
    Entry {
        key: "news".to_string(),
        url: "http://example.com/news".to_string(),
        name: "The News".to_string(),
        anchor: anchor.to_string(),
        content: content.to_string(),
        selector: selector.to_string(),
        title: title.to_string(),
    }
}

fn item(title: Option<&str>, anchor: Option<&str>, content: Option<&str>) -> FeedItem {
    FeedItem {
        anchor: anchor.map(|s| s.to_string()),
        content: content.map(|s| s.to_string()),
        title: title.map(|s| s.to_string()),
    }
}

fn reason_for(text: &str) -> String {
    scraper::Selector::parse(text).unwrap_err().to_string()
}

#[test]
fn two_of_three_items_with_title_and_anchor() {
    let feed = Feed::from(THREE_ITEMS.to_string(), 2, rules("li.item", "h2", "a", ""));
    assert_eq!(feed.key, "news");
    assert_eq!(feed.name(), "The News");
    assert_eq!(feed.error(), &None);
    assert_eq!(
        feed.contents(),
        &vec![
            item(Some("First"), Some("/one"), None),
            item(Some("Second"), Some("/two"), None),
        ]
    );
}

#[test]
fn empty_body_gives_no_records_and_no_error() {
    let feed = Feed::from(String::new(), 5, rules("li.item", "h2", "a", ""));
    assert_eq!(feed.error(), &None);
    assert!(feed.contents().is_empty());
}

#[test]
fn record_count_is_the_smaller_of_matches_and_limit() {
    let entry = rules("li.item", "h2", "", "");
    assert_eq!(extract(THREE_ITEMS, &entry, 1).unwrap().len(), 1);
    assert_eq!(extract(THREE_ITEMS, &entry, 2).unwrap().len(), 2);
    assert_eq!(extract(THREE_ITEMS, &entry, 3).unwrap().len(), 3);
    assert_eq!(extract(THREE_ITEMS, &entry, 4).unwrap().len(), 3);
    assert_eq!(extract(THREE_ITEMS, &entry, usize::MAX).unwrap().len(), 3);
}

#[test]
fn limit_zero_gives_no_records() {
    let entry = rules("li.item", "h2", "a", "");
    assert_eq!(extract(THREE_ITEMS, &entry, 0).unwrap(), Vec::new());
}

#[test]
fn empty_root_gives_no_records() {
    let entry = rules("", "h2", "a", "");
    assert_eq!(extract(THREE_ITEMS, &entry, 5).unwrap(), Vec::new());
    let feed = Feed::from(THREE_ITEMS.to_string(), 5, rules("", "h2", "a", ""));
    assert_eq!(feed.error(), &None);
    assert!(feed.contents().is_empty());
}

#[test]
fn no_rules_at_all_give_no_records() {
    let entry = rules("", "", "", "");
    assert_eq!(extract(THREE_ITEMS, &entry, 5).unwrap(), Vec::new());
}

#[test]
fn root_alone_gives_records_without_fields() {
    let entry = rules("li.item", "", "", "");
    assert_eq!(
        extract(THREE_ITEMS, &entry, 2).unwrap(),
        vec![item(None, None, None), item(None, None, None)]
    );
}

#[test]
fn root_that_matches_nothing_gives_no_records() {
    let entry = rules("div.missing", "h2", "a", "");
    assert_eq!(extract(THREE_ITEMS, &entry, 5).unwrap(), Vec::new());
}

#[test]
fn records_keep_document_order() {
    let entry = rules("li.item", "h2", "", "");
    let records = extract(THREE_ITEMS, &entry, 5).unwrap();
    let titles: Vec<Option<String>> = records.into_iter().map(|r| r.title).collect();
    assert_eq!(
        titles,
        vec![Some("First".to_string()), Some("Second".to_string()), Some("Third".to_string())]
    );
}

#[test]
fn unset_rule_is_absent_from_every_record() {
    let entry = rules("li.item", "", "a", "");
    let records = extract(THREE_ITEMS, &entry, 5).unwrap();
    assert_eq!(records.len(), 3);
    for record in records {
        assert_eq!(record.title, None);
        assert_eq!(record.content, None);
        assert!(record.anchor.is_some());
    }
}

#[test]
fn rule_without_a_match_gives_the_empty_text() {
    let entry = rules("li.item", "h3", "a", "p.body");
    let records = extract(THREE_ITEMS, &entry, 1).unwrap();
    assert_eq!(records, vec![item(Some(""), Some("/one"), Some(""))]);
}

#[test]
fn absent_attribute_gives_the_empty_text() {
    let body = "<ul><li class=\"item\"><a>no target</a></li></ul>";
    let entry = rules("li.item", "", "a", "");
    assert_eq!(extract(body, &entry, 5).unwrap(), vec![item(None, Some(""), None)]);
}

#[test]
fn anchor_reads_href_and_not_the_text() {
    let body = "<ul><li class=\"item\"><a href=\"/target\" title=\"t\">label</a></li></ul>";
    let entry = rules("li.item", "a", "a", "a");
    assert_eq!(
        extract(body, &entry, 5).unwrap(),
        vec![item(Some("label"), Some("/target"), Some("label"))]
    );
}

#[test]
fn last_of_several_matches_decides() {
    let body = "<ul><li class=\"item\">\
<h2>Old</h2><h2>Newer</h2><h2>Newest</h2>\
<a href=\"/first\">x</a><a href=\"/last\">y</a>\
</li></ul>";
    let entry = rules("li.item", "h2", "a", "");
    assert_eq!(
        extract(body, &entry, 5).unwrap(),
        vec![item(Some("Newest"), Some("/last"), None)]
    );
}

#[test]
fn last_match_without_the_attribute_gives_the_empty_text() {
    let body = "<ul><li class=\"item\"><a href=\"/first\">x</a><a>y</a></li></ul>";
    let entry = rules("li.item", "", "a", "");
    assert_eq!(extract(body, &entry, 5).unwrap(), vec![item(None, Some(""), None)]);
}

#[test]
fn text_of_nested_elements_is_joined_without_separator() {
    let body = "<ul><li class=\"item\"><h2>Hello <b>big</b> <i>wide</i> world</h2></li></ul>";
    let entry = rules("li.item", "h2", "", "");
    assert_eq!(
        extract(body, &entry, 5).unwrap(),
        vec![item(Some("Hello big wide world"), None, None)]
    );
}

#[test]
fn rules_look_inside_their_own_element_only() {
    let body = "<h2>Outside</h2><ul>\
<li class=\"item\"><h2>One</h2></li>\
<li class=\"item\"><p>none here</p></li>\
</ul><h2>After</h2>";
    let entry = rules("li.item", "h2", "", "");
    assert_eq!(
        extract(body, &entry, 5).unwrap(),
        vec![item(Some("One"), None, None), item(Some(""), None, None)]
    );
}

#[test]
fn malformed_markup_is_no_error() {
    let body = "<ul><li class=item><h2>Broken</h2><li class=item><h2>Also</ul></div>";
    let entry = rules("li.item", "h2", "", "");
    let feed = Feed::from(body.to_string(), 5, entry);
    assert_eq!(feed.error(), &None);
    assert_eq!(
        feed.contents(),
        &vec![item(Some("Broken"), None, None), item(Some("Also"), None, None)]
    );
}

#[test]
fn bad_root_selector_fails_the_feed() {
    let feed = Feed::from(THREE_ITEMS.to_string(), 5, rules("li..item", "h2", "a", ""));
    assert_eq!(feed.key, "news");
    assert_eq!(feed.name(), "The News");
    assert_eq!(feed.error(), &Some(reason_for("li..item")));
    assert!(feed.contents().is_empty());
}

#[test]
fn bad_field_selector_fails_the_feed() {
    let entry = rules("li.item", "h2", "a[", "");
    let failed = extract(THREE_ITEMS, &entry, 5).unwrap_err();
    assert_eq!(failed.message(), reason_for("a["));
    assert!(!failed.message().is_empty());
    assert!(matches!(failed, ExtractError::Selector(SelectorError::Invalid(_))));
}

#[test]
fn bad_selector_fails_even_without_a_root() {
    let entry = rules("", "", "", ")");
    let failed = extract(THREE_ITEMS, &entry, 5).unwrap_err();
    assert_eq!(failed.message(), reason_for(")"));
}

#[test]
fn first_bad_selector_is_the_one_reported() {
    let entry = rules("li.item", "h2:", "a[", "::");
    let failed = extract(THREE_ITEMS, &entry, 5).unwrap_err();
    assert_eq!(failed.message(), reason_for("h2:"));
    let entry = rules(":::", "h2", "a[", "");
    let failed = extract(THREE_ITEMS, &entry, 5).unwrap_err();
    assert_eq!(failed.message(), reason_for(":::"));
}

#[test]
fn to_selectors_lists_the_configured_rules_root_first() {
    let compiled = rules("li.item", "h2", "a", "p").to_selectors().unwrap();
    let names: Vec<&str> = compiled.iter().map(|rule| rule.0).collect();
    assert_eq!(names, vec!["selector", "title", "anchor", "content"]);
    let attributes: Vec<Option<&str>> = compiled.iter().map(|rule| rule.2).collect();
    assert_eq!(attributes, vec![None, None, Some("href"), None]);
    assert_eq!(compiled[0].1, scraper::Selector::parse("li.item").unwrap());
    assert_eq!(compiled[3].1, scraper::Selector::parse("p").unwrap());
}

#[test]
fn to_selectors_leaves_empty_rules_out() {
    let compiled = rules("", "h2", "", "p").to_selectors().unwrap();
    let names: Vec<&str> = compiled.iter().map(|rule| rule.0).collect();
    assert_eq!(names, vec!["title", "content"]);
    assert!(rules("", "", "", "").to_selectors().unwrap().is_empty());
}

#[test]
fn to_selectors_reports_a_text_that_is_no_selector() {
    let failed = rules("li.item", "h2", "a", "p >").to_selectors().unwrap_err();
    assert_eq!(failed.message(), reason_for("p >"));
}

#[test]
fn join_text_concatenates_in_order() {
    let parts = vec!["ab".to_string(), String::new(), "c".to_string(), " d".to_string()];
    assert_eq!(join_text(&parts), "abc d");
    assert_eq!(join_text(&Vec::new()), "");
}

#[test]
fn refusals_are_worded() {
    assert_eq!(SelectorError::TooLong.message(), "the selector is too long");
    assert_eq!(SelectorError::Invalid("why".to_string()).message(), "why");
    assert_eq!(ExtractError::PageTooLong.message(), "the page is too long");
    assert_eq!(
        ExtractError::Selector(SelectorError::TooLong).message(),
        "the selector is too long"
    );
    assert_eq!(
        ExtractError::Selector(SelectorError::Invalid("why".to_string())).message(),
        "why"
    );
}

#[test]
fn texts_of_ordinary_length_fit_the_parsers() {
    assert!(fits_parser(""));
    assert!(fits_parser("li.item"));
    assert!(fits_parser(THREE_ITEMS));
    assert!(fits_compiler(""));
    assert!(fits_compiler("li.item"));
}

fn page_of(bytes: usize) -> String {
    String::from_utf8(vec![0u8; bytes]).unwrap()
}

#[test]
fn page_fits_the_parser_up_to_its_limit() {
    let longest = page_of(1usize << 29);
    assert!(fits_parser(&longest));
    assert!(fits_compiler(&longest));
    let longer = page_of((1usize << 29) + 1);
    assert!(!fits_parser(&longer));
    assert!(fits_compiler(&longer));
}

#[test]
fn page_that_is_too_long_fails_the_feed() {
    let body = page_of((1usize << 29) + 1);
    let failed = extract(&body, &rules("li.item", "h2", "a", ""), 5).unwrap_err();
    assert!(matches!(failed, ExtractError::PageTooLong));
    let failed = extract(&body, &rules("", "", "", ""), 5).unwrap_err();
    assert!(matches!(failed, ExtractError::PageTooLong));
    let feed = Feed::from(body, 5, rules("li.item", "h2", "a", ""));
    assert_eq!(feed.key, "news");
    assert_eq!(feed.name(), "The News");
    assert_eq!(feed.error(), &Some("the page is too long".to_string()));
    assert!(feed.contents().is_empty());
}

#[test]
fn refused_rule_comes_before_a_page_that_is_too_long() {
    let body = page_of((1usize << 29) + 1);
    let failed = extract(&body, &rules("li..item", "h2", "a", ""), 5).unwrap_err();
    assert_eq!(failed.message(), reason_for("li..item"));
    assert!(matches!(failed, ExtractError::Selector(SelectorError::Invalid(_))));
}

#[test]
fn bad_selector_is_told_apart_from_a_long_one() {
    let failed = rules("li.item", "h2", "a", "p >").to_selectors().unwrap_err();
    assert!(matches!(failed, SelectorError::Invalid(_)));
}
