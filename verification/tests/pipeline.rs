use aggreg::entry::Entry;
use aggreg::feed::FeedItem;
use aggreg::pipeline::{run, settle};

const PAGE: &str = "<ul>\
<li class=\"item\"><h2>One</h2><a href=\"/1\">x</a></li>\
<li class=\"item\"><h2>Two</h2><a href=\"/2\">x</a></li>\
</ul>";

fn feed(key: &str, selector: &str, title: &str) -> Entry {
    Entry {
        key: key.to_string(),
        url: format!("http://example.com/{}", key),
        name: format!("Feed {}", key),
        anchor: String::new(),
        content: String::new(),
        selector: selector.to_string(),
        title: title.to_string(),
    }
}

fn titled(title: &str) -> FeedItem {
    FeedItem { anchor: None, content: None, title: Some(title.to_string()) }
}

#[test]
fn settle_reports_a_failed_fetch() {
    let settled = settle(feed("a", "li.item", "h2"), Err("connection refused".to_string()), 5);
    assert_eq!(settled.key, "a");
    assert_eq!(settled.name(), "Feed a");
    assert_eq!(settled.error(), &Some("connection refused".to_string()));
    assert!(settled.contents().is_empty());
}

#[test]
fn settle_extracts_from_a_fetched_page() {
    let settled = settle(feed("a", "li.item", "h2"), Ok(PAGE.to_string()), 1);
    assert_eq!(settled.error(), &None);
    assert_eq!(settled.contents(), &vec![titled("One")]);
}

#[test]
fn settle_never_reads_the_rules_of_a_failed_fetch() {
    let settled = settle(feed("a", "li..item", "h2["), Err("timed out".to_string()), 5);
    assert_eq!(settled.error(), &Some("timed out".to_string()));
}

#[test]
fn run_gives_one_outcome_for_each_feed() {
    let jobs = vec![
        (feed("a", "li.item", "h2"), Ok(PAGE.to_string())),
        (feed("b", "li.item", "h2"), Ok(String::new())),
        (feed("c", "li.item", "h2"), Err("no route".to_string())),
        (feed("d", "", ""), Ok(PAGE.to_string())),
    ];
    let feeds = run(jobs, 5);
    let keys: Vec<&str> = feeds.iter().map(|f| f.key.as_str()).collect();
    assert_eq!(keys, vec!["a", "b", "c", "d"]);
}

#[test]
fn run_of_no_jobs_gives_no_outcomes() {
    assert!(run(Vec::new(), 5).is_empty());
}

#[test]
fn one_failed_fetch_leaves_the_other_feeds_their_records() {
    let jobs = vec![
        (feed("a", "li.item", "h2"), Err("connection refused".to_string())),
        (feed("b", "li.item", "h2"), Ok(PAGE.to_string())),
        (feed("c", "li.item", "h2"), Ok(PAGE.to_string())),
    ];
    let feeds = run(jobs, 1);
    assert_eq!(feeds.len(), 3);
    assert_eq!(feeds[0].key, "a");
    assert_eq!(feeds[0].error(), &Some("connection refused".to_string()));
    assert!(feeds[0].contents().is_empty());
    assert_eq!(feeds[1].key, "b");
    assert_eq!(feeds[1].error(), &None);
    assert_eq!(feeds[1].contents(), &vec![titled("One")]);
    assert_eq!(feeds[2].key, "c");
    assert_eq!(feeds[2].error(), &None);
    assert_eq!(feeds[2].contents(), &vec![titled("One")]);
}

#[test]
fn one_bad_selector_leaves_the_other_feeds_their_records() {
    let jobs = vec![
        (feed("a", "li.item", "h2"), Ok(PAGE.to_string())),
        (feed("b", "li..item", "h2"), Ok(PAGE.to_string())),
    ];
    let feeds = run(jobs, 5);
    assert_eq!(feeds[0].error(), &None);
    assert_eq!(feeds[0].contents(), &vec![titled("One"), titled("Two")]);
    assert_eq!(
        feeds[1].error(),
        &Some(scraper::Selector::parse("li..item").unwrap_err().to_string())
    );
    assert!(feeds[1].contents().is_empty());
}

#[test]
fn page_that_is_too_long_leaves_the_other_feeds_their_records() {
    let long = String::from_utf8(vec![0u8; (1usize << 29) + 1]).unwrap();
    let jobs = vec![
        (feed("a", "li.item", "h2"), Ok(long)),
        (feed("b", "li.item", "h2"), Ok(PAGE.to_string())),
    ];
    let feeds = run(jobs, 5);
    assert_eq!(feeds.len(), 2);
    assert_eq!(feeds[0].key, "a");
    assert_eq!(feeds[0].error(), &Some("the page is too long".to_string()));
    assert!(feeds[0].contents().is_empty());
    assert_eq!(feeds[1].error(), &None);
    assert_eq!(feeds[1].contents(), &vec![titled("One"), titled("Two")]);
}
