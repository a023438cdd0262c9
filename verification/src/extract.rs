//! The extraction engine: from the text of a page and the rules of a feed
//! to the records of that page.

use vstd::prelude::*;
use vstd::string::StringExecFns;
use scraper::{ElementRef, Selector};
use crate::entry::{
    attribute_view, compiled_rules, defect_text, field_rules, first_defect, rule, rules_view,
    text_or_empty, Defect, Entry, EntryView, Rule, SelectorError,
};
use crate::feed::{first_value, lemma_first_value_found, lemma_first_value_missing, records_view,
    rows_view, Feed, FeedItem, Record, Row};
use crate::html;
use crate::html::{
    document_matches, element_attribute, element_matches, element_text, fits_parser, page_fits,
    parsed_document, parsed_selector,
};

verus! {

/// The texts of a list, each as a value.
pub open spec fn texts_view(parts: Seq<String>) -> Seq<Seq<char>> {
    Seq::new(parts.len(), |i: int| parts[i]@)
}

/// The text of an element: its text nodes one after the other, with
/// nothing between them.
pub open spec fn joined_text(element: ElementRef) -> Seq<char> {
    element_text(element).flatten()
}

/// The value that a rule gives inside `element`. Of the descendants that
/// match `selector` the last one decides: its attribute where the rule
/// names one, its text otherwise. No match, or no such attribute, gives the
/// empty text.
pub open spec fn rule_value(
    element: ElementRef,
    selector: Selector,
    attribute: Option<Seq<char>>,
) -> Seq<char> {
    let found = element_matches(element, selector);
    if found.len() == 0 {
        Seq::empty()
    } else {
        match attribute {
            Some(name) => text_or_empty(element_attribute(found.last(), name)),
            None => joined_text(found.last()),
        }
    }
}

/// The field that the rule text `text` gives inside `element`: absent where
/// the text is empty, the rule's value otherwise.
pub open spec fn field(element: ElementRef, text: Seq<char>, attribute: Option<Seq<char>>) -> Option<
    Seq<char>,
> {
    if text.len() == 0 {
        None
    } else {
        Some(rule_value(element, parsed_selector(text)->Ok_0, attribute))
    }
}

/// The record of one matched element.
pub open spec fn record(element: ElementRef, entry: EntryView) -> Record {
    Record {
        anchor: field(element, entry.anchor, Some("href"@)),
        content: field(element, entry.content, None),
        title: field(element, entry.title, None),
    }
}

/// The elements that the root rule of `entry` matches in the page `body`.
/// Without a root rule there are none.
pub open spec fn root_matches(body: Seq<char>, entry: EntryView) -> Seq<ElementRef<'static>> {
    if entry.selector.len() == 0 {
        Seq::empty()
    } else {
        document_matches(parsed_document(body), parsed_selector(entry.selector)->Ok_0)
    }
}

/// The first `limit` elements of `found`, or all of them where there are
/// no more than that.
pub open spec fn kept(found: Seq<ElementRef<'static>>, limit: nat) -> Seq<ElementRef<'static>> {
    if limit < found.len() {
        found.take(limit as int)
    } else {
        found
    }
}

/// Why a page gives no records, as a value.
pub enum Fault {
    /// A rule of the feed is refused.
    Rule(Defect),
    /// The page is longer than the page parser is given.
    PageTooLong,
}

/// What a feed that gives no records is reported with: the words of the
/// refused rule, or the library's own for a page that is too long.
pub open spec fn fault_text(fault: Fault) -> Seq<char> {
    match fault {
        Fault::Rule(refused) => defect_text(refused),
        Fault::PageTooLong => "the page is too long"@,
    }
}

/// Why a page gives no records.
#[derive(Debug)]
pub enum ExtractError {
    /// A rule of the feed is refused.
    Selector(SelectorError),
    /// The page is longer than the page parser is given.
    PageTooLong,
}

impl View for ExtractError {
    type V = Fault;

    open spec fn view(&self) -> Fault {
        match self {
            ExtractError::Selector(refused) => Fault::Rule(refused@),
            ExtractError::PageTooLong => Fault::PageTooLong,
        }
    }
}

impl ExtractError {
    /// The words that the failure is reported with.
    pub fn message(&self) -> (message: String)
        ensures
            message@ == fault_text(self@),
    {
        match self {
            ExtractError::Selector(refused) => refused.message(),
            ExtractError::PageTooLong => "the page is too long".to_owned(),
        }
    }
}

/// What extraction gives for the page `body` under the rules of `entry`.
/// The first rule that is refused is the fault; where all rules are
/// acceptable, a page that does not fit the parser is. Otherwise there is
/// one record for each of the first `limit` root matches, in their order.
pub open spec fn extraction(body: Seq<char>, entry: EntryView, limit: nat) -> Result<
    Seq<Record>,
    Fault,
> {
    match first_defect(entry) {
        Some(refused) => Err(Fault::Rule(refused)),
        None => if !page_fits(body) {
            Err(Fault::PageTooLong)
        } else {
            let elements = kept(root_matches(body, entry), limit);
            Ok(Seq::new(elements.len(), |i: int| record(elements[i], entry)))
        },
    }
}

/// The smaller of two numbers.
pub open spec fn at_most(count: nat, limit: nat) -> nat {
    if count <= limit {
        count
    } else {
        limit
    }
}

/// Where every configured rule is acceptable and the page fits the
/// parser, extraction succeeds, and the number of records is the number of
/// root matches or the limit, whichever is smaller: none for a limit of
/// zero, and none without a root rule.
pub proof fn lemma_record_count(body: Seq<char>, entry: EntryView, limit: nat)
    requires
        first_defect(entry) is None,
        page_fits(body),
    ensures
        extraction(body, entry, limit) is Ok,
        extraction(body, entry, limit)->Ok_0.len() == at_most(
            root_matches(body, entry).len(),
            limit,
        ),
        limit == 0 ==> extraction(body, entry, limit)->Ok_0.len() == 0,
        entry.selector.len() == 0 ==> extraction(body, entry, limit)->Ok_0.len() == 0,
{
}

/// The records come in the order of the root matches: the record at
/// position `i` is that of the root match at position `i`.
pub proof fn lemma_records_in_order(body: Seq<char>, entry: EntryView, limit: nat, i: int)
    requires
        extraction(body, entry, limit) matches Ok(records) && 0 <= i < records.len(),
    ensures
        i < root_matches(body, entry).len(),
        extraction(body, entry, limit)->Ok_0[i] == record(root_matches(body, entry)[i], entry),
{
}

/// A field is part of a record exactly where its rule is configured: a
/// rule left unset never shows in any record, and a configured one always
/// does, even where it found nothing.
pub proof fn lemma_field_present_iff_configured(
    body: Seq<char>,
    entry: EntryView,
    limit: nat,
    i: int,
)
    requires
        extraction(body, entry, limit) matches Ok(records) && 0 <= i < records.len(),
    ensures
        extraction(body, entry, limit)->Ok_0[i].anchor is Some <==> entry.anchor.len() > 0,
        extraction(body, entry, limit)->Ok_0[i].content is Some <==> entry.content.len() > 0,
        extraction(body, entry, limit)->Ok_0[i].title is Some <==> entry.title.len() > 0,
{
}

/// The elements that a configured rule text matches inside `element`.
pub open spec fn rule_matches(element: ElementRef, text: Seq<char>) -> Seq<ElementRef<'static>> {
    element_matches(element, parsed_selector(text)->Ok_0)
}

/// A configured rule that matches nothing inside its element gives the
/// empty text, and the field is still part of the record.
pub proof fn lemma_no_match_gives_empty(body: Seq<char>, entry: EntryView, limit: nat, i: int)
    requires
        extraction(body, entry, limit) matches Ok(records) && 0 <= i < records.len(),
    ensures
        entry.anchor.len() > 0 && rule_matches(root_matches(body, entry)[i], entry.anchor).len()
            == 0 ==> extraction(body, entry, limit)->Ok_0[i].anchor == Some(Seq::<char>::empty()),
        entry.content.len() > 0 && rule_matches(root_matches(body, entry)[i], entry.content).len()
            == 0 ==> extraction(body, entry, limit)->Ok_0[i].content == Some(Seq::<char>::empty()),
        entry.title.len() > 0 && rule_matches(root_matches(body, entry)[i], entry.title).len()
            == 0 ==> extraction(body, entry, limit)->Ok_0[i].title == Some(Seq::<char>::empty()),
{
}

/// Where the element that the anchor rule settles on has no `href`, the
/// anchor is the empty text.
pub proof fn lemma_absent_attribute_gives_empty(
    body: Seq<char>,
    entry: EntryView,
    limit: nat,
    i: int,
)
    requires
        extraction(body, entry, limit) matches Ok(records) && 0 <= i < records.len(),
        entry.anchor.len() > 0,
        rule_matches(root_matches(body, entry)[i], entry.anchor).len() > 0,
        element_attribute(
            rule_matches(root_matches(body, entry)[i], entry.anchor).last(),
            "href"@,
        ) is None,
    ensures
        extraction(body, entry, limit)->Ok_0[i].anchor == Some(Seq::<char>::empty()),
{
}

/// Where a configured rule matches several elements, the last of them
/// gives the field: its text for title and content, its `href` for the
/// anchor.
pub proof fn lemma_last_match_decides(body: Seq<char>, entry: EntryView, limit: nat, i: int)
    requires
        extraction(body, entry, limit) matches Ok(records) && 0 <= i < records.len(),
    ensures
        entry.title.len() > 0 && rule_matches(root_matches(body, entry)[i], entry.title).len() > 0
            ==> extraction(body, entry, limit)->Ok_0[i].title == Some(
            joined_text(rule_matches(root_matches(body, entry)[i], entry.title).last()),
        ),
        entry.content.len() > 0 && rule_matches(root_matches(body, entry)[i], entry.content).len()
            > 0 ==> extraction(body, entry, limit)->Ok_0[i].content == Some(
            joined_text(rule_matches(root_matches(body, entry)[i], entry.content).last()),
        ),
        entry.anchor.len() > 0 && rule_matches(root_matches(body, entry)[i], entry.anchor).len()
            > 0 ==> extraction(body, entry, limit)->Ok_0[i].anchor == Some(
            text_or_empty(
                element_attribute(
                    rule_matches(root_matches(body, entry)[i], entry.anchor).last(),
                    "href"@,
                ),
            ),
        ),
{
}

/// Extraction fails on exactly two grounds: a rule that is refused, and,
/// where there is none, a page that does not fit the parser.
pub proof fn lemma_extraction_fails_iff(body: Seq<char>, entry: EntryView, limit: nat)
    ensures
        extraction(body, entry, limit) is Err <==> first_defect(entry) is Some || !page_fits(body),
        extraction(body, entry, limit) == Err::<Seq<Record>, Fault>(Fault::PageTooLong) <==> (
        first_defect(entry) is None && !page_fits(body)),
{
}

/// The rows that `rules` give inside `element`, one for each rule.
pub open spec fn rule_rows(element: ElementRef, rules: Seq<Rule>) -> Seq<(Seq<char>, Seq<char>)> {
    Seq::new(
        rules.len(),
        |j: int| (rules[j].name, rule_value(element, rules[j].selector, rules[j].attribute)),
    )
}

/// Looking the three field names up among the rows of the configured field
/// rules gives the record.
pub proof fn lemma_rows_give_record(element: ElementRef, entry: EntryView)
    ensures
        first_value(rule_rows(element, field_rules(entry)), "anchor"@) == record(
            element,
            entry,
        ).anchor,
        first_value(rule_rows(element, field_rules(entry)), "content"@) == record(
            element,
            entry,
        ).content,
        first_value(rule_rows(element, field_rules(entry)), "title"@) == record(
            element,
            entry,
        ).title,
{
    reveal_strlit("anchor");
    reveal_strlit("content");
    reveal_strlit("title");
    let title = rule("title"@, entry.title, None);
    let anchor = rule("anchor"@, entry.anchor, Some("href"@));
    let content = rule("content"@, entry.content, None);
    let rules = field_rules(entry);
    let rows = rule_rows(element, rules);
    assert("title"@.len() == 5 && "anchor"@.len() == 6 && "content"@.len() == 7);
    assert(rules == title + anchor + content);
    assert forall|j: int| 0 <= j < rows.len() implies #[trigger] rows[j].0 == rules[j].name by {}
    if entry.title.len() == 0 {
        lemma_first_value_missing(rows, "title"@);
    } else {
        lemma_first_value_found(rows, "title"@, 0);
    }
    if entry.anchor.len() == 0 {
        lemma_first_value_missing(rows, "anchor"@);
    } else {
        lemma_first_value_found(rows, "anchor"@, title.len() as int);
    }
    if entry.content.len() == 0 {
        lemma_first_value_missing(rows, "content"@);
    } else {
        lemma_first_value_found(rows, "content"@, (title.len() + anchor.len()) as int);
    }
}

/// Joins texts, one after the other, with nothing between them.
pub fn join_text(parts: &Vec<String>) -> (joined: String)
    ensures
        joined@ == texts_view(parts@).flatten(),
{
    let mut joined = String::new();
    let mut i: usize = 0;
    assert(texts_view(parts@).take(0) =~= Seq::<Seq<char>>::empty());
    while i < parts.len()
        invariant
            i <= parts.len(),
            joined@ == texts_view(parts@).take(i as int).flatten(),
        decreases parts.len() - i,
    {
        proof {
            let done = texts_view(parts@).take(i as int);
            assert(texts_view(parts@).take(i + 1) =~= done.push(parts@[i as int]@));
            done.lemma_flatten_push(parts@[i as int]@);
        }
        joined.append(parts[i].as_str());
        i += 1;
    }
    assert(texts_view(parts@).take(parts.len() as int) =~= texts_view(parts@));
    joined
}

/// The row that one rule gives inside one element.
fn rule_row(element: &ElementRef, key: &str, selector: &Selector, attribute: Option<&str>) -> (row:
    Row)
    ensures
        row@ == (key@, rule_value(*element, *selector, attribute_view(attribute))),
{
    let mut fields = html::select_in_element(element, selector);
    let new_key = key.to_owned();

    match fields.pop() {
        Some(field) => match attribute {
            Some(attr) => {
                let value = html::attribute(&field, attr);
                match value {
                    Some(v) => Row(new_key, v.to_owned()),
                    None => Feed::empty_row(new_key),
                }
            },
            None => {
                let nodes = html::text_nodes(&field);
                assert(texts_view(nodes@) =~= element_text(field));
                Row(new_key, join_text(&nodes))
            },
        },
        None => Feed::empty_row(new_key),
    }
}

/// The rows that the compiled rules give inside one element, in the order
/// of the rules.
fn element_rows(
    element: &ElementRef,
    rules: &Vec<(&'static str, Selector, Option<&'static str>)>,
) -> (rows: Vec<Row>)
    ensures
        rows_view(rows@) == rule_rows(*element, rules_view(rules@)),
{
    let mut rows: Vec<Row> = Vec::new();
    let mut j: usize = 0;
    while j < rules.len()
        invariant
            j <= rules.len(),
            rows@.len() == j,
            forall|k: int|
                0 <= k < j ==> (#[trigger] rows@[k])@ == rule_rows(*element, rules_view(rules@))[k],
        decreases rules.len() - j,
    {
        let row = rule_row(element, rules[j].0, &rules[j].1, rules[j].2);
        rows.push(row);
        j += 1;
    }
    assert(rows_view(rows@) =~= rule_rows(*element, rules_view(rules@)));
    rows
}

/// Extracts the records of the page `body` under the rules of `entry`. All
/// configured rules are compiled first, and the first that is refused is
/// the error. A page of more than 2^29 bytes is not parsed and is the
/// error where no rule is. Otherwise the root rule picks the elements, of
/// which the first `limit` are kept in their order, and each gives one
/// record. An entry without a root rule gives no records.
pub fn extract(body: &str, entry: &Entry, limit: usize) -> (r: Result<Vec<FeedItem>, ExtractError>)
    ensures
        match extraction(body@, entry@, limit as nat) {
            Ok(records) => r matches Ok(items) && records_view(items@) == records,
            Err(fault) => r matches Err(e) && e@ == fault,
        },
{
    let mut selectors = match entry.to_selectors() {
        Ok(compiled) => compiled,
        Err(e) => { return Err(ExtractError::Selector(e)); },
    };
    if !fits_parser(body) {
        return Err(ExtractError::PageTooLong);
    }
    let document = html::parse_document(body);
    let mut elements: Vec<ElementRef> = if entry.selector.as_str().is_empty() {
        assert(rules_view(selectors@) =~= field_rules(entry@));
        Vec::new()
    } else {
        assert(compiled_rules(entry@)[0].selector == parsed_selector(entry@.selector)->Ok_0);
        assert(rules_view(selectors@).len() > 0);
        let ghost before = selectors@;
        let main_selector = selectors.remove(0);
        assert forall|k: int| 0 <= k < selectors@.len() implies rules_view(selectors@)[k]
            == field_rules(entry@)[k] by {
            assert(selectors@[k] == before[k + 1]);
            assert(rules_view(before)[k + 1] == compiled_rules(entry@)[k + 1]);
        }
        assert(rules_view(selectors@) =~= field_rules(entry@));
        html::select_in_document(&document, &main_selector.1)
    };
    assert(elements@ == root_matches(body@, entry@));
    elements.truncate(limit);
    assert(elements@ == kept(root_matches(body@, entry@), limit as nat));

    let mut feed: Vec<FeedItem> = Vec::new();
    let mut i: usize = 0;
    while i < elements.len()
        invariant
            i <= elements.len(),
            feed@.len() == i,
            rules_view(selectors@) == field_rules(entry@),
            forall|k: int| 0 <= k < i ==> (#[trigger] feed@[k])@ == record(elements@[k], entry@),
        decreases elements.len() - i,
    {
        let rows = element_rows(&elements[i], &selectors);
        proof {
            lemma_rows_give_record(elements@[i as int], entry@);
        }
        feed.push(FeedItem::from(rows));
        i += 1;
    }
    assert(records_view(feed@) =~= extraction(body@, entry@, limit as nat)->Ok_0);
    Ok(feed)
}

} // verus!
