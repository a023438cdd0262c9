//! The boundary to `scraper`: parsing a page, compiling a selector, and
//! asking which elements a selector matches. Documents, selectors and
//! elements pass through the library as the crate made them; every question
//! about one of them is asked through a function of this file.

use vstd::prelude::*;
use scraper::error::SelectorErrorKind;
use scraper::{ElementRef, Html, Selector};

verus! {

/// A parsed page.
#[verifier::external_type_specification]
#[verifier::external_body]
pub struct ExHtml(Html);

/// A compiled selector group.
#[verifier::external_type_specification]
#[verifier::external_body]
pub struct ExSelector(Selector);

/// One element of a parsed page.
#[verifier::external_type_specification]
#[verifier::external_body]
pub struct ExElementRef<'a>(ElementRef<'a>);

/// Why a text is no selector.
#[verifier::external_type_specification]
#[verifier::external_body]
pub struct ExSelectorErrorKind(SelectorErrorKind);

/// The length of a text in bytes, as `str::len` counts it.
pub open spec fn byte_length(text: Seq<char>) -> usize {
    vstd::utf8::encode_utf8(text).len() as usize
}

/// Whether a rule text is short enough to be handed to the selector
/// compiler, which counts the lines of its input in 32 bits: a text of no
/// more than `u32::MAX` bytes.
pub open spec fn rule_fits(text: Seq<char>) -> bool {
    byte_length(text) <= u32::MAX
}

/// Whether a page is short enough to be handed to the page parser. The
/// parser gathers text, comments, names and attribute values in buffers
/// that it grows to the next power of two in 32 bits, so that none of them
/// can pass 2^31 bytes. Every character that it stores there stands for at
/// least one byte of the page and takes at most four bytes. A page of no
/// more than 2^29 bytes therefore fills no buffer beyond what it can grow
/// to.
pub open spec fn page_fits(body: Seq<char>) -> bool {
    4 * byte_length(body) <= 0x8000_0000
}

/// The page that parsing `body` gives. Parsing recovers from malformed
/// markup, so every page that fits has one.
pub uninterp spec fn parsed_document(body: Seq<char>) -> Html;

/// What compiling `text` as a selector group gives: the selector, or the
/// reason why `text` is none.
pub uninterp spec fn parsed_selector(text: Seq<char>) -> Result<Selector, SelectorErrorKind>;

/// The message that a compilation failure displays.
pub uninterp spec fn selector_error_text(error: SelectorErrorKind) -> Seq<char>;

/// The elements of `document` that match `selector`, in the order in which
/// the document's iterator yields them.
pub uninterp spec fn document_matches(document: Html, selector: Selector) -> Seq<
    ElementRef<'static>,
>;

/// The descendants of `element` that match `selector`, in the order in
/// which the element's iterator yields them.
pub uninterp spec fn element_matches(element: ElementRef, selector: Selector) -> Seq<
    ElementRef<'static>,
>;

/// The value of the attribute `name` of `element`, where it has one.
pub uninterp spec fn element_attribute(element: ElementRef, name: Seq<char>) -> Option<Seq<char>>;

/// The text nodes below `element`, in the order in which the element's
/// iterator yields them.
pub uninterp spec fn element_text(element: ElementRef) -> Seq<Seq<char>>;

/// `Html::parse_document`. The parser panics where one of its buffers
/// would have to grow beyond 2^31 bytes, so a page that could make one do
/// so is left out.
#[verifier::external_body]
pub(crate) fn parse_document(body: &str) -> (document: Html)
    requires
        page_fits(body@),
    ensures
        document == parsed_document(body@),
{
    Html::parse_document(body)
}

/// `Selector::parse`. The tokenizer behind it counts the lines of the text
/// in 32 bits, so a text of more than `u32::MAX` bytes is left out.
#[verifier::external_body]
pub(crate) fn parse_selector(text: &str) -> (parsed: Result<Selector, SelectorErrorKind>)
    requires
        rule_fits(text@),
    ensures
        parsed == parsed_selector(text@),
{
    Selector::parse(text)
}

/// The `to_string` of a `SelectorErrorKind`, which is its `Display`.
#[verifier::external_body]
pub(crate) fn error_text(error: &SelectorErrorKind) -> (message: String)
    ensures
        message@ == selector_error_text(*error),
{
    error.to_string()
}

/// `Html::select`, with everything that the iterator yields collected in
/// the order in which it yields.
#[verifier::external_body]
pub(crate) fn select_in_document<'a>(document: &'a Html, selector: &Selector) -> (found: Vec<
    ElementRef<'a>,
>)
    ensures
        found@ == document_matches(*document, *selector),
{
    document.select(selector).collect()
}

/// `ElementRef::select`, collected in the same way.
#[verifier::external_body]
pub(crate) fn select_in_element<'a>(element: &ElementRef<'a>, selector: &Selector) -> (found: Vec<
    ElementRef<'a>,
>)
    ensures
        found@ == element_matches(*element, *selector),
{
    element.select(selector).collect()
}

/// `ElementRef::attr`: the attribute's value, or `None` where the element
/// has no attribute of that name.
#[verifier::external_body]
pub(crate) fn attribute<'a>(element: &ElementRef<'a>, name: &str) -> (value: Option<&'a str>)
    ensures
        value is Some <==> element_attribute(*element, name@) is Some,
        value matches Some(v) ==> v@ == element_attribute(*element, name@)->Some_0,
{
    element.attr(name)
}

/// `ElementRef::text`, with each text node that the iterator yields copied
/// into a `String`, in the order in which it yields.
#[verifier::external_body]
pub(crate) fn text_nodes(element: &ElementRef) -> (nodes: Vec<String>)
    ensures
        nodes@.len() == element_text(*element).len(),
        forall|i: int| 0 <= i < nodes@.len() ==> nodes@[i]@ == #[trigger] element_text(*element)[i],
{
    element.text().map(|node| node.to_string()).collect()
}

/// Tests whether a page is short enough to be handed to the page parser.
pub fn fits_parser(body: &str) -> (short: bool)
    ensures
        short == page_fits(body@),
{
    body.len() <= 0x2000_0000
}

/// Tests whether a rule text is short enough to be handed to the selector
/// compiler.
pub fn fits_compiler(text: &str) -> (short: bool)
    ensures
        short == rule_fits(text@),
{
    text.len() <= 0xffff_ffff
}

} // verus!
