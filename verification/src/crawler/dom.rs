//! Reading elements out of an HTML page with a CSS selector (through `scraper`),
//! and the text that the crawler makes of an element.

use vstd::prelude::*;

use crate::models::{opt_view, string_views};
use crate::text::{chars_of, join, join_chars, trim, trim_chars, views};

verus! {

/// What the crawler reads of one element that a CSS selector picked out of a page.
#[derive(Debug)]
pub struct HtmlElement {
    /// The element's descendant text nodes, in document order (`ElementRef::text`).
    pub text: Vec<String>,
    /// The values of the requested attributes, in the order they were requested
    /// (`ElementRef::attr`).
    pub attrs: Vec<Option<String>>,
    /// The element's own markup, itself included (`ElementRef::html`).
    pub html: String,
}

pub struct ElementView {
    pub text: Seq<Seq<char>>,
    pub attrs: Seq<Option<Seq<char>>>,
    pub html: Seq<char>,
}

impl View for HtmlElement {
    type V = ElementView;

    open spec fn view(&self) -> ElementView {
        ElementView {
            text: string_views(self.text@),
            attrs: self.attrs@.map_values(|a: Option<String>| opt_view(a)),
            html: self.html@,
        }
    }
}

pub open spec fn element_views(v: Seq<HtmlElement>) -> Seq<ElementView> {
    v.map_values(|e: HtmlElement| e@)
}

pub open spec fn str_views(v: Seq<&str>) -> Seq<Seq<char>> {
    v.map_values(|s: &str| s@)
}

/// The elements of the HTML document `html` that the CSS selector group `selector`
/// matches, in document order, each with the values of the attributes `attr_names`;
/// `None` where `selector` does not parse.
pub uninterp spec fn css_select(
    html: Seq<char>,
    selector: Seq<char>,
    attr_names: Seq<Seq<char>>,
) -> Option<Seq<ElementView>>;

/// Parses `html` as a document (`scraper::Html::parse_document`), parses `selector`
/// (`scraper::Selector::parse`) and walks the matches (`Html::select`), reading of each
/// its text nodes, the requested attributes and its markup. The claim is only that the
/// result is a function of the three arguments (named `css_select`), that a selector
/// that does not parse gives `None`, and that each element carries one attribute value
/// per requested name; which elements match is scraper's and html5ever's to decide.
#[verifier::external_body]
pub(crate) fn select_elements(html: &str, selector: &str, attr_names: &[&str]) -> (r: Option<
    Vec<HtmlElement>,
>)
    ensures
        r matches Some(v) ==> css_select(html@, selector@, str_views(attr_names@)) == Some(
            element_views(v@),
        ),
        r is None ==> css_select(html@, selector@, str_views(attr_names@)) is None,
        r matches Some(v) ==> forall|i: int|
            0 <= i < v.len() ==> (#[trigger] v@[i]).attrs@.len() == attr_names@.len(),
{
    let selector = scraper::Selector::parse(selector).ok()?;
    let document = scraper::Html::parse_document(html);
    Some(document.select(&selector).map(|e| HtmlElement {
        text: e.text().map(String::from).collect(),
        attrs: attr_names.iter().map(|a| e.attr(a).map(String::from)).collect(),
        html: e.html(),
    }).collect())
}

/// The text of an element as the crawler reads it: its text nodes joined with
/// single spaces, whitespace trimmed at both ends.
pub open spec fn element_text(e: ElementView) -> Seq<char> {
    trim(join(e.text, seq![' ']))
}

/// The text pieces `text` joined with single spaces, whitespace trimmed at both ends.
pub fn joined_text(text: &Vec<String>) -> (r: Vec<char>)
    ensures
        r@ == trim(join(string_views(text@), seq![' '])),
{
    let mut pieces: Vec<Vec<char>> = Vec::new();
    for i in 0..text.len()
        invariant
            views(pieces@) == string_views(text@).take(i as int),
    {
        let ghost before = pieces@;
        let p = chars_of(text[i].as_str());
        pieces.push(p);
        assert(views(pieces@) == views(before).push(p@));
        assert(string_views(text@).take(i + 1) == string_views(text@).take(i as int).push(
            text@[i as int]@,
        ));
    }
    assert(string_views(text@).take(text.len() as int) == string_views(text@));
    let mut sep: Vec<char> = Vec::new();
    sep.push(' ');
    assert(sep@ == seq![' ']);
    let joined = join_chars(&pieces, &sep);
    trim_chars(&joined)
}

pub fn element_text_exec(e: &HtmlElement) -> (r: Vec<char>)
    ensures
        r@ == element_text(e@),
{
    joined_text(&e.text)
}

} // verus!
