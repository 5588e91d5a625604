//! An HTML page, parsed once, and queries on it. The queries are those of the `select`
//! crate; nodes are named by their index in the parsed document.

use vstd::prelude::*;

use crate::error::ScrapeError;
use crate::text::texts;

use select::document::Document;
use select::predicate::{Attr, Class, Name, Predicate};

verus! {

#[verifier::external_type_specification]
#[verifier::external_body]
pub struct ExDocument(select::document::Document);

/// A page: its HTML source and the document that `select` parsed from it.
pub(crate) struct Page {
    html: String,
    doc: Document,
}

impl Page {
    /// The HTML source the page was parsed from.
    pub closed spec fn source(&self) -> Seq<char> {
        self.html@
    }

    /// Parses `html` with `select::document::Document::from`. The contract states only that
    /// the page keeps `html` as its source; the queries below speak of that source.
    #[verifier::external_body]
    pub(crate) fn parse(html: &str) -> (p: Page)
        ensures
            p.source() == html@,
    {
        Page { html: html.to_string(), doc: Document::from(html) }
    }
}

/// The nodes that `Document::find(Class(class))` yields for the document parsed from `html`.
pub uninterp spec fn doc_class(html: Seq<char>, class: Seq<char>) -> Seq<usize>;

/// The nodes that `Document::find(Name(name))` yields.
pub uninterp spec fn doc_name(html: Seq<char>, name: Seq<char>) -> Seq<usize>;

/// The nodes that `Document::find(Attr(key, value))` yields.
pub uninterp spec fn doc_attr(html: Seq<char>, key: Seq<char>, value: Seq<char>) -> Seq<usize>;

/// The nodes that `Document::find(Class(class).descendant(Name(name)))` yields.
pub uninterp spec fn doc_class_name(html: Seq<char>, class: Seq<char>, name: Seq<char>) -> Seq<usize>;

/// The nodes that `Document::find(Attr(key, value).descendant(Name(name)))` yields.
pub uninterp spec fn doc_attr_name(html: Seq<char>, key: Seq<char>, value: Seq<char>, name: Seq<char>) -> Seq<usize>;

/// The nodes that `Node::find(Name(name))` yields below node `node`; none when there is no
/// such node.
pub uninterp spec fn node_name(html: Seq<char>, node: usize, name: Seq<char>) -> Seq<usize>;

/// The nodes that `Node::find(Class(class).descendant(Name(name)))` yields below node `node`.
pub uninterp spec fn node_class_name(html: Seq<char>, node: usize, class: Seq<char>, name: Seq<char>) -> Seq<usize>;

/// The nodes that `Node::find(Name(outer).descendant(Name(inner)))` yields below node `node`.
pub uninterp spec fn node_name_name(html: Seq<char>, node: usize, outer: Seq<char>, inner: Seq<char>) -> Seq<usize>;

/// What `Node::text` gives for node `node`; none when there is no such node.
pub uninterp spec fn node_text(html: Seq<char>, node: usize) -> Option<Seq<char>>;

/// What `Node::attr(attr)` gives for node `node`; none when there is no such node or it
/// lacks the attribute.
pub uninterp spec fn node_attr(html: Seq<char>, node: usize, attr: Seq<char>) -> Option<Seq<char>>;

/// The nodes of the page with class `class`, in document order (`Document::find` with
/// `Class`); the contract names the result.
#[verifier::external_body]
pub(crate) fn find_class(page: &Page, class: &str) -> (r: Vec<usize>)
    ensures
        r@ == doc_class(page.source(), class@),
{
    page.doc.find(Class(class)).map(|n| n.index()).collect()
}

/// The elements of the page named `name` (`Document::find` with `Name`).
#[verifier::external_body]
pub(crate) fn find_name(page: &Page, name: &str) -> (r: Vec<usize>)
    ensures
        r@ == doc_name(page.source(), name@),
{
    page.doc.find(Name(name)).map(|n| n.index()).collect()
}

/// The elements of the page whose attribute `key` is `value` (`Document::find` with `Attr`).
#[verifier::external_body]
pub(crate) fn find_attr(page: &Page, key: &str, value: &str) -> (r: Vec<usize>)
    ensures
        r@ == doc_attr(page.source(), key@, value@),
{
    page.doc.find(Attr(key, value)).map(|n| n.index()).collect()
}

/// The elements named `name` inside an element with class `class` (`Document::find` with
/// `Class(..).descendant(Name(..))`).
#[verifier::external_body]
pub(crate) fn find_class_name(page: &Page, class: &str, name: &str) -> (r: Vec<usize>)
    ensures
        r@ == doc_class_name(page.source(), class@, name@),
{
    page.doc.find(Class(class).descendant(Name(name))).map(|n| n.index()).collect()
}

/// The elements named `name` inside an element whose attribute `key` is `value`
/// (`Document::find` with `Attr(..).descendant(Name(..))`).
#[verifier::external_body]
pub(crate) fn find_attr_name(page: &Page, key: &str, value: &str, name: &str) -> (r: Vec<usize>)
    ensures
        r@ == doc_attr_name(page.source(), key@, value@, name@),
{
    page.doc.find(Attr(key, value).descendant(Name(name))).map(|n| n.index()).collect()
}

/// The elements named `name` below node `node` (`Node::find` with `Name`).
#[verifier::external_body]
pub(crate) fn find_name_in(page: &Page, node: usize, name: &str) -> (r: Vec<usize>)
    ensures
        r@ == node_name(page.source(), node, name@),
{
    match page.doc.nth(node) {
        Some(n) => n.find(Name(name)).map(|m| m.index()).collect(),
        None => Vec::new(),
    }
}

/// The elements named `name` inside an element with class `class`, below node `node`
/// (`Node::find` with `Class(..).descendant(Name(..))`).
#[verifier::external_body]
pub(crate) fn find_class_name_in(page: &Page, node: usize, class: &str, name: &str) -> (r: Vec<usize>)
    ensures
        r@ == node_class_name(page.source(), node, class@, name@),
{
    match page.doc.nth(node) {
        Some(n) => n.find(Class(class).descendant(Name(name))).map(|m| m.index()).collect(),
        None => Vec::new(),
    }
}

/// The elements named `inner` inside an element named `outer`, below node `node`
/// (`Node::find` with `Name(..).descendant(Name(..))`).
#[verifier::external_body]
pub(crate) fn find_name_name_in(page: &Page, node: usize, outer: &str, inner: &str) -> (r: Vec<usize>)
    ensures
        r@ == node_name_name(page.source(), node, outer@, inner@),
{
    match page.doc.nth(node) {
        Some(n) => n.find(Name(outer).descendant(Name(inner))).map(|m| m.index()).collect(),
        None => Vec::new(),
    }
}

/// The text of node `node` and all below it (`Node::text`).
#[verifier::external_body]
pub(crate) fn text_of(page: &Page, node: usize) -> (r: Option<String>)
    ensures
        match r {
            Some(t) => node_text(page.source(), node) == Some(t@),
            None => node_text(page.source(), node) is None,
        },
{
    match page.doc.nth(node) {
        Some(n) => Some(n.text()),
        None => None,
    }
}

/// The value of attribute `attr` of node `node` (`Node::attr`).
#[verifier::external_body]
pub(crate) fn attr_of(page: &Page, node: usize, attr: &str) -> (r: Option<String>)
    ensures
        match r {
            Some(t) => node_attr(page.source(), node, attr@) == Some(t@),
            None => node_attr(page.source(), node, attr@) is None,
        },
{
    match page.doc.nth(node) {
        Some(n) => match n.attr(attr) {
            Some(v) => Some(v.to_string()),
            None => None,
        },
        None => None,
    }
}

/// The text of the first of `nodes`, which must be there.
pub open spec fn first_text_of(html: Seq<char>, nodes: Seq<usize>) -> Result<Seq<char>, ScrapeError> {
    if nodes.len() == 0 {
        Err(ScrapeError::MissingElement)
    } else {
        match node_text(html, nodes[0]) {
            Some(t) => Ok(t),
            None => Err(ScrapeError::MissingElement),
        }
    }
}

/// The attribute `attr` of the first of `nodes`, which must be there and have it.
pub open spec fn first_attr_of(html: Seq<char>, nodes: Seq<usize>, attr: Seq<char>) -> Result<Seq<char>, ScrapeError> {
    if nodes.len() == 0 {
        Err(ScrapeError::MissingElement)
    } else {
        match node_attr(html, nodes[0], attr) {
            Some(t) => Ok(t),
            None => Err(ScrapeError::MissingAttribute),
        }
    }
}

/// The texts of `nodes`, in order.
pub open spec fn texts_of(html: Seq<char>, nodes: Seq<usize>) -> Result<Seq<Seq<char>>, ScrapeError>
    decreases nodes.len(),
{
    if nodes.len() == 0 {
        Ok(seq![])
    } else {
        match texts_of(html, nodes.drop_last()) {
            Err(e) => Err(e),
            Ok(r) => match node_text(html, nodes.last()) {
                Some(t) => Ok(r.push(t)),
                None => Err(ScrapeError::MissingElement),
            },
        }
    }
}

/// The attribute `attr` of each of `nodes`, in order; each must have it.
pub open spec fn attrs_of(html: Seq<char>, nodes: Seq<usize>, attr: Seq<char>) -> Result<Seq<Seq<char>>, ScrapeError>
    decreases nodes.len(),
{
    if nodes.len() == 0 {
        Ok(seq![])
    } else {
        match attrs_of(html, nodes.drop_last(), attr) {
            Err(e) => Err(e),
            Ok(r) => match node_attr(html, nodes.last(), attr) {
                Some(t) => Ok(r.push(t)),
                None => Err(ScrapeError::MissingAttribute),
            },
        }
    }
}

/// A result holding a string, as a mathematical value.
pub open spec fn text_result(r: Result<String, ScrapeError>) -> Result<Seq<char>, ScrapeError> {
    match r {
        Ok(s) => Ok(s@),
        Err(e) => Err(e),
    }
}

/// A result holding strings, as mathematical values.
pub open spec fn texts_result(r: Result<Vec<String>, ScrapeError>) -> Result<Seq<Seq<char>>, ScrapeError> {
    match r {
        Ok(v) => Ok(texts(v@)),
        Err(e) => Err(e),
    }
}

/// The text of the first of `nodes`.
pub(crate) fn first_text(page: &Page, nodes: &Vec<usize>) -> (r: Result<String, ScrapeError>)
    ensures
        text_result(r) == first_text_of(page.source(), nodes@),
{
    if nodes.len() == 0 {
        return Err(ScrapeError::MissingElement);
    }
    match text_of(page, nodes[0]) {
        Some(t) => Ok(t),
        None => Err(ScrapeError::MissingElement),
    }
}

/// The attribute `attr` of the first of `nodes`.
pub(crate) fn first_attr(page: &Page, nodes: &Vec<usize>, attr: &str) -> (r: Result<String, ScrapeError>)
    ensures
        text_result(r) == first_attr_of(page.source(), nodes@, attr@),
{
    if nodes.len() == 0 {
        return Err(ScrapeError::MissingElement);
    }
    match attr_of(page, nodes[0], attr) {
        Some(t) => Ok(t),
        None => Err(ScrapeError::MissingAttribute),
    }
}

/// The texts of `nodes`, in order.
pub(crate) fn all_texts(page: &Page, nodes: &Vec<usize>) -> (r: Result<Vec<String>, ScrapeError>)
    ensures
        texts_result(r) == texts_of(page.source(), nodes@),
{
    let mut out: Vec<String> = Vec::new();
    let n = nodes.len();
    let mut i: usize = 0;
    assert(nodes@.take(0) =~= seq![]);
    assert(texts(out@) =~= seq![]);
    while i < n
        invariant
            i <= n,
            n == nodes@.len(),
            out@.len() == i,
            texts_of(page.source(), nodes@.take(i as int)) == Ok::<Seq<Seq<char>>, ScrapeError>(texts(out@)),
        decreases n - i,
    {
        assert(nodes@.take(i + 1).drop_last() =~= nodes@.take(i as int));
        match text_of(page, nodes[i]) {
            Some(t) => {
                let ghost before = texts(out@);
                out.push(t);
                assert(texts(out@) =~= before.push(out@[i as int]@));
            },
            None => {
                proof { lemma_texts_failed(page.source(), nodes@, (i + 1) as int); }
                return Err(ScrapeError::MissingElement);
            },
        }
        i = i + 1;
    }
    assert(nodes@.take(n as int) =~= nodes@);
    Ok(out)
}

/// The attribute `attr` of each of `nodes`, in order.
pub(crate) fn all_attrs(page: &Page, nodes: &Vec<usize>, attr: &str) -> (r: Result<Vec<String>, ScrapeError>)
    ensures
        texts_result(r) == attrs_of(page.source(), nodes@, attr@),
{
    let mut out: Vec<String> = Vec::new();
    let n = nodes.len();
    let mut i: usize = 0;
    assert(nodes@.take(0) =~= seq![]);
    assert(texts(out@) =~= seq![]);
    while i < n
        invariant
            i <= n,
            n == nodes@.len(),
            out@.len() == i,
            attrs_of(page.source(), nodes@.take(i as int), attr@) == Ok::<Seq<Seq<char>>, ScrapeError>(texts(out@)),
        decreases n - i,
    {
        assert(nodes@.take(i + 1).drop_last() =~= nodes@.take(i as int));
        match attr_of(page, nodes[i], attr) {
            Some(t) => {
                let ghost before = texts(out@);
                out.push(t);
                assert(texts(out@) =~= before.push(out@[i as int]@));
            },
            None => {
                proof { lemma_attrs_failed(page.source(), nodes@, attr@, (i + 1) as int); }
                return Err(ScrapeError::MissingAttribute);
            },
        }
        i = i + 1;
    }
    assert(nodes@.take(n as int) =~= nodes@);
    Ok(out)
}

/// Once reading texts has failed, later nodes change nothing.
proof fn lemma_texts_failed(html: Seq<char>, nodes: Seq<usize>, k: int)
    requires
        0 <= k <= nodes.len(),
        texts_of(html, nodes.take(k)) is Err,
    ensures
        texts_of(html, nodes) == texts_of(html, nodes.take(k)),
    decreases nodes.len() - k,
{
    if k < nodes.len() {
        assert(nodes.take(k + 1).drop_last() =~= nodes.take(k));
        lemma_texts_failed(html, nodes, k + 1);
    } else {
        assert(nodes.take(k) =~= nodes);
    }
}

/// Once reading attributes has failed, later nodes change nothing.
proof fn lemma_attrs_failed(html: Seq<char>, nodes: Seq<usize>, attr: Seq<char>, k: int)
    requires
        0 <= k <= nodes.len(),
        attrs_of(html, nodes.take(k), attr) is Err,
    ensures
        attrs_of(html, nodes, attr) == attrs_of(html, nodes.take(k), attr),
    decreases nodes.len() - k,
{
    if k < nodes.len() {
        assert(nodes.take(k + 1).drop_last() =~= nodes.take(k));
        lemma_attrs_failed(html, nodes, attr, k + 1);
    } else {
        assert(nodes.take(k) =~= nodes);
    }
}

} // verus!
