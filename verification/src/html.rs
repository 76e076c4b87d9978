//! Reading parsed HTML pages.
//!
//! Parsing a page and matching CSS selectors is done by the `scraper` crate.
//! An element is identified by the steps that reach it from the page: the
//! `k`-th match of a selector within the page, then the `k'`-th match of a
//! further selector within that element, and so on. What `scraper` returns
//! for an element is a function of the page's source text and these steps
//! alone; the names below stand for those results.

use vstd::prelude::*;
use crate::structs::opt_text;
use crate::text::{concat_parts, join_strings};

verus! {

#[verifier::external_type_specification]
#[verifier::external_body]
pub struct ExHtml(scraper::Html);

#[verifier::external_type_specification]
#[verifier::external_body]
pub struct ExSelector(scraper::Selector);

#[verifier::external_type_specification]
#[verifier::external_body]
pub struct ExElementRef<'a>(scraper::ElementRef<'a>);

/// Whether `scraper::Selector::parse` accepts the selector text.
pub uninterp spec fn selector_parses(selector: Seq<char>) -> bool;

/// How many elements `scraper::Html::select` yields for the selector on the
/// page parsed from `source`.
pub uninterp spec fn page_match_count(source: Seq<char>, selector: Seq<char>) -> nat;

/// How many elements `scraper::ElementRef::select` yields for the selector
/// within the element that `path` reaches on the page parsed from `source`.
pub uninterp spec fn element_match_count(
    source: Seq<char>,
    path: Seq<(Seq<char>, int)>,
    selector: Seq<char>,
) -> nat;

/// The text nodes that `scraper::ElementRef::text` yields, in document order,
/// for the element that `path` reaches.
pub uninterp spec fn element_texts(source: Seq<char>, path: Seq<(Seq<char>, int)>) -> Seq<
    Seq<char>,
>;

/// The value that `scraper::ElementRef::attr` gives for the attribute `name`
/// of the element that `path` reaches.
pub uninterp spec fn element_attr(
    source: Seq<char>,
    path: Seq<(Seq<char>, int)>,
    name: Seq<char>,
) -> Option<Seq<char>>;

/// A parsed HTML page, with the text it was parsed from.
pub(crate) struct Page {
    html: scraper::Html,
    source: Ghost<Seq<char>>,
}

/// A parsed CSS selector, with its text.
pub(crate) struct Query {
    selector: scraper::Selector,
    text: Ghost<Seq<char>>,
}

/// An element of a page, with the steps that reach it.
pub(crate) struct Node<'a> {
    element: scraper::ElementRef<'a>,
    source: Ghost<Seq<char>>,
    path: Ghost<Seq<(Seq<char>, int)>>,
}

impl Page {
    pub(crate) closed spec fn source(&self) -> Seq<char> {
        self.source@
    }

    /// Parses a whole HTML document with `scraper::Html::parse_document`,
    /// which accepts every input.
    #[verifier::external_body]
    pub(crate) fn parse(text: &str) -> (p: Page)
        ensures
            p.source() == text@,
    {
        Page { html: scraper::Html::parse_document(text), source: Ghost(text@) }
    }

    /// The elements of the page that match the selector, in document order,
    /// as `scraper::Html::select` yields them; the `i`-th is reached by the
    /// single step `(selector, i)`.
    #[verifier::external_body]
    pub(crate) fn select<'a>(&'a self, query: &Query) -> (nodes: Vec<Node<'a>>)
        ensures
            nodes@.len() == page_match_count(self.source(), query.text()),
            forall|i: int|
                0 <= i < nodes@.len() ==> (#[trigger] nodes@[i]).source() == self.source()
                    && nodes@[i].path() == seq![(query.text(), i)],
    {
        self.html.select(&query.selector).enumerate().map(
            |(i, element)|
                Node {
                    element,
                    source: Ghost(self.source@),
                    path: Ghost(seq![(query.text@, i as int)]),
                },
        ).collect()
    }
}

impl Query {
    pub(crate) closed spec fn text(&self) -> Seq<char> {
        self.text@
    }

    /// Parses a CSS selector with `scraper::Selector::parse`; `None` where it
    /// reports an error.
    #[verifier::external_body]
    pub(crate) fn parse(text: &str) -> (q: Option<Query>)
        ensures
            q.is_some() == selector_parses(text@),
            q matches Some(q) ==> q.text() == text@,
    {
        match scraper::Selector::parse(text) {
            Ok(selector) => Some(Query { selector, text: Ghost(text@) }),
            Err(_) => None,
        }
    }
}

impl<'a> Node<'a> {
    pub(crate) closed spec fn source(&self) -> Seq<char> {
        self.source@
    }

    pub(crate) closed spec fn path(&self) -> Seq<(Seq<char>, int)> {
        self.path@
    }

    /// The descendants of this element that match the selector, in document
    /// order, as `scraper::ElementRef::select` yields them; the `i`-th is
    /// reached by this element's steps followed by `(selector, i)`.
    #[verifier::external_body]
    pub(crate) fn select(&self, query: &Query) -> (nodes: Vec<Node<'a>>)
        ensures
            nodes@.len() == element_match_count(self.source(), self.path(), query.text()),
            forall|i: int|
                0 <= i < nodes@.len() ==> (#[trigger] nodes@[i]).source() == self.source()
                    && nodes@[i].path() == self.path().push((query.text(), i)),
    {
        self.element.select(&query.selector).enumerate().map(
            |(i, element)|
                Node {
                    element,
                    source: Ghost(self.source@),
                    path: Ghost(self.path@.push((query.text@, i as int))),
                },
        ).collect()
    }

    /// The text nodes below this element, in document order, as
    /// `scraper::ElementRef::text` yields them.
    #[verifier::external_body]
    pub(crate) fn texts(&self) -> (v: Vec<String>)
        ensures
            v@.map_values(|s: String| s@) == element_texts(self.source(), self.path()),
    {
        self.element.text().map(|t| t.to_string()).collect()
    }

    /// The value of an attribute of this element, as `scraper::ElementRef::attr`
    /// gives it.
    #[verifier::external_body]
    pub(crate) fn attr(&self, name: &str) -> (v: Option<String>)
        ensures
            match v {
                Some(s) => element_attr(self.source(), self.path(), name@) == Some(s@),
                None => element_attr(self.source(), self.path(), name@).is_none(),
            },
    {
        self.element.attr(name).map(|t| t.to_string())
    }
}

/// The joined text of the first element that the selector matches within the
/// element `path` reaches, if there is one.
pub open spec fn first_text_of(
    source: Seq<char>,
    path: Seq<(Seq<char>, int)>,
    selector: Seq<char>,
) -> Option<Seq<char>> {
    if element_match_count(source, path, selector) > 0 {
        Some(concat_parts(element_texts(source, path.push((selector, 0)))))
    } else {
        None
    }
}

/// The attribute `name` of the first element that the selector matches within
/// the element `path` reaches, if there is such an element and it has the
/// attribute.
pub open spec fn first_attr_of(
    source: Seq<char>,
    path: Seq<(Seq<char>, int)>,
    selector: Seq<char>,
    name: Seq<char>,
) -> Option<Seq<char>> {
    if element_match_count(source, path, selector) > 0 {
        element_attr(source, path.push((selector, 0)), name)
    } else {
        None
    }
}

/// The joined text of the first match of `query` within `node`.
pub(crate) fn first_text(node: &Node, query: &Query) -> (r: Option<String>)
    ensures
        opt_text(r) == first_text_of(node.source(), node.path(), query.text()),
{
    let found = node.select(query);
    if found.len() == 0 {
        None
    } else {
        let texts = found[0].texts();
        Some(join_strings(&texts))
    }
}

/// The attribute `name` of the first match of `query` within `node`.
pub(crate) fn first_attr(node: &Node, query: &Query, name: &str) -> (r: Option<String>)
    ensures
        opt_text(r) == first_attr_of(node.source(), node.path(), query.text(), name@),
{
    let found = node.select(query);
    if found.len() == 0 {
        None
    } else {
        found[0].attr(name)
    }
}


/// The joined text of a first match is the joined text nodes of the match
/// with index 0, and there is none without a match.
pub proof fn law_first_text_of(source: Seq<char>, path: Seq<(Seq<char>, int)>, selector: Seq<char>)
    ensures
        first_text_of(source, path, selector) == (if element_match_count(source, path, selector)
            > 0 {
            Some(concat_parts(element_texts(source, path.push((selector, 0int)))))
        } else {
            None
        }),
{
}

/// The attribute of a first match is that of the match with index 0, and
/// there is none without a match.
pub proof fn law_first_attr_of(
    source: Seq<char>,
    path: Seq<(Seq<char>, int)>,
    selector: Seq<char>,
    name: Seq<char>,
)
    ensures
        first_attr_of(source, path, selector, name) == (if element_match_count(
            source,
            path,
            selector,
        ) > 0 {
            element_attr(source, path.push((selector, 0int)), name)
        } else {
            None
        }),
{
}

} // verus!
