//! The field selector set of one feed: where its page is, and which
//! selectors cut records out of it.

use vstd::prelude::*;
use scraper::Selector;
use yaml_rust::Yaml;
use crate::html::{
    error_text, fits_compiler, parse_selector, parsed_selector, rule_fits, selector_error_text,
};
use crate::yaml::{member, text, yaml_member, yaml_text};

verus! {

/// The text that a configuration lookup stands for: what was found, or
/// nothing at all where the key was missing or held no string.
pub open spec fn text_or_empty(found: Option<Seq<char>>) -> Seq<char> {
    match found {
        Some(s) => s,
        None => Seq::empty(),
    }
}

/// What `options` holds under `field`, as text.
pub open spec fn option_text(options: Yaml, field: Seq<char>) -> Seq<char> {
    text_or_empty(yaml_text(yaml_member(options, field)))
}

/// The mathematical value of an [`Entry`]. A rule whose text is empty is
/// not configured.
pub struct EntryView {
    pub key: Seq<char>,
    pub url: Seq<char>,
    pub name: Seq<char>,
    pub anchor: Seq<char>,
    pub content: Seq<char>,
    pub selector: Seq<char>,
    pub title: Seq<char>,
}

/// One compiled rule: the field it fills, the selector that finds the
/// field's element, and the attribute to read in place of the text.
pub struct Rule {
    pub name: Seq<char>,
    pub selector: Selector,
    pub attribute: Option<Seq<char>>,
}

/// Why a rule text is refused, as a value.
pub enum Defect {
    /// The text is longer than the selector compiler is given.
    TooLong,
    /// The text is no selector; the compiler's reason is kept.
    Invalid(Seq<char>),
}

/// What a refused rule text is reported with: the library's own words for
/// a text that is too long, the compiler's reason for one that is no
/// selector.
pub open spec fn defect_text(defect: Defect) -> Seq<char> {
    match defect {
        Defect::TooLong => "the selector is too long"@,
        Defect::Invalid(reason) => reason,
    }
}

/// A rule's text is acceptable when it is empty, or fits the compiler and
/// compiles.
pub open spec fn acceptable(text: Seq<char>) -> bool {
    text.len() == 0 || (rule_fits(text) && parsed_selector(text) is Ok)
}

/// Why a text that is not acceptable is refused.
pub open spec fn defect(text: Seq<char>) -> Defect {
    if !rule_fits(text) {
        Defect::TooLong
    } else {
        Defect::Invalid(selector_error_text(parsed_selector(text)->Err_0))
    }
}

/// The defect of the first rule of `entry` that is not acceptable, going
/// through root, title, anchor and content in this order; `None` where all
/// four are acceptable.
pub open spec fn first_defect(entry: EntryView) -> Option<Defect> {
    if !acceptable(entry.selector) {
        Some(defect(entry.selector))
    } else if !acceptable(entry.title) {
        Some(defect(entry.title))
    } else if !acceptable(entry.anchor) {
        Some(defect(entry.anchor))
    } else if !acceptable(entry.content) {
        Some(defect(entry.content))
    } else {
        None
    }
}

/// The rule that a text configures under `name`: none for the empty text,
/// one otherwise.
pub open spec fn rule(name: Seq<char>, text: Seq<char>, attribute: Option<Seq<char>>) -> Seq<Rule> {
    if text.len() == 0 {
        Seq::empty()
    } else {
        seq![Rule { name, selector: parsed_selector(text)->Ok_0, attribute }]
    }
}

/// The configured field rules of `entry`: title, anchor, content, each
/// present only where its text is not empty. The anchor reads `href`.
pub open spec fn field_rules(entry: EntryView) -> Seq<Rule> {
    rule("title"@, entry.title, None) + rule("anchor"@, entry.anchor, Some("href"@)) + rule(
        "content"@,
        entry.content,
        None,
    )
}

/// All configured rules of `entry`, the root rule first.
pub open spec fn compiled_rules(entry: EntryView) -> Seq<Rule> {
    rule("selector"@, entry.selector, None) + field_rules(entry)
}

/// The attribute of a compiled rule, as text.
pub open spec fn attribute_view(attribute: Option<&str>) -> Option<Seq<char>> {
    match attribute {
        Some(a) => Some(a@),
        None => None,
    }
}

/// The rules that a list of compiled selectors stands for.
pub open spec fn rules_view(compiled: Seq<(&'static str, Selector, Option<&'static str>)>) -> Seq<
    Rule,
> {
    Seq::new(
        compiled.len(),
        |i: int|
            Rule {
                name: compiled[i].0@,
                selector: compiled[i].1,
                attribute: attribute_view(compiled[i].2),
            },
    )
}

/// Why a rule text is refused.
#[derive(Debug)]
pub enum SelectorError {
    /// The text is longer than the selector compiler is given.
    TooLong,
    /// The text is no selector; the compiler's reason is kept.
    Invalid(String),
}

impl View for SelectorError {
    type V = Defect;

    open spec fn view(&self) -> Defect {
        match self {
            SelectorError::TooLong => Defect::TooLong,
            SelectorError::Invalid(reason) => Defect::Invalid(reason@),
        }
    }
}

impl SelectorError {
    /// The words that the refusal is reported with.
    pub fn message(&self) -> (message: String)
        ensures
            message@ == defect_text(self@),
    {
        match self {
            SelectorError::TooLong => "the selector is too long".to_owned(),
            SelectorError::Invalid(reason) => reason.clone(),
        }
    }
}

/// One feed: where its page is, and which selectors cut records out of it.
#[derive(Debug)]
pub struct Entry {
    pub key: String,
    pub url: String,
    pub name: String,
    pub anchor: String,
    pub content: String,
    pub selector: String,
    pub title: String,
}

impl View for Entry {
    type V = EntryView;

    open spec fn view(&self) -> EntryView {
        EntryView {
            key: self.key@,
            url: self.url@,
            name: self.name@,
            anchor: self.anchor@,
            content: self.content@,
            selector: self.selector@,
            title: self.title@,
        }
    }
}

/// Compiles `text` and appends it to `compiled` under `name`, unless it is
/// empty. A text that is refused leaves the list as it was.
fn push_rule(
    compiled: &mut Vec<(&'static str, Selector, Option<&'static str>)>,
    name: &'static str,
    text: &String,
    attribute: Option<&'static str>,
) -> (r: Result<(), SelectorError>)
    ensures
        r is Ok <==> acceptable(text@),
        r matches Err(e) ==> e@ == defect(text@) && *final(compiled) == *old(compiled),
        r is Ok ==> rules_view(final(compiled)@) == rules_view(old(compiled)@) + rule(
            name@,
            text@,
            attribute_view(attribute),
        ),
{
    if text.as_str().is_empty() {
        return Ok(());
    }
    if !fits_compiler(text.as_str()) {
        return Err(SelectorError::TooLong);
    }
    match parse_selector(text.as_str()) {
        Ok(selector) => {
            compiled.push((name, selector, attribute));
            Ok(())
        },
        Err(error) => Err(SelectorError::Invalid(error_text(&error))),
    }
}

impl Entry {
    fn get_from_yaml(option: &Yaml) -> (r: String)
        ensures
            r@ == text_or_empty(yaml_text(*option)),
    {
        let result = text(option);
        match result {
            Some(st) => st.to_owned(),
            None => String::new(),
        }
    }

    /// Reads a feed from its configuration mapping. A key that is missing,
    /// or that holds anything but a string, reads as the empty text.
    pub fn from(key: &String, options: &Yaml) -> (e: Entry)
        ensures
            e@ == (EntryView {
                key: key@,
                url: option_text(*options, "url"@),
                name: option_text(*options, "name"@),
                anchor: option_text(*options, "anchor"@),
                content: option_text(*options, "content"@),
                selector: option_text(*options, "selector"@),
                title: option_text(*options, "title"@),
            }),
    {
        let url = Entry::get_from_yaml(member(options, "url"));
        let title = Entry::get_from_yaml(member(options, "title"));
        let selector = Entry::get_from_yaml(member(options, "selector"));
        let anchor = Entry::get_from_yaml(member(options, "anchor"));
        let content = Entry::get_from_yaml(member(options, "content"));
        let name = Entry::get_from_yaml(member(options, "name"));

        Entry { key: key.clone(), name, url, title, selector, anchor, content }
    }

    /// Compiles the configured rules, the root rule first, then title,
    /// anchor and content. A rule with an empty text is left out. The first
    /// text that is too long for the compiler, or that is no selector,
    /// ends the work and is the error.
    pub fn to_selectors(&self) -> (r: Result<
        Vec<(&'static str, Selector, Option<&'static str>)>,
        SelectorError,
    >)
        ensures
            match first_defect(self@) {
                Some(refused) => r matches Err(e) && e@ == refused,
                None => r matches Ok(compiled) && rules_view(compiled@) == compiled_rules(self@),
            },
    {
        let mut compiled: Vec<(&'static str, Selector, Option<&'static str>)> = Vec::new();
        assert(rules_view(compiled@) == Seq::<Rule>::empty());
        match push_rule(&mut compiled, "selector", &self.selector, None) {
            Err(e) => { return Err(e); },
            Ok(()) => {},
        }
        match push_rule(&mut compiled, "title", &self.title, None) {
            Err(e) => { return Err(e); },
            Ok(()) => {},
        }
        match push_rule(&mut compiled, "anchor", &self.anchor, Some("href")) {
            Err(e) => { return Err(e); },
            Ok(()) => {},
        }
        match push_rule(&mut compiled, "content", &self.content, None) {
            Err(e) => { return Err(e); },
            Ok(()) => {},
        }
        Ok(compiled)
    }
}

} // verus!
