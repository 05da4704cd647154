//! The html_parser boundary: trusted wrappers that mirror its DOM into
//! plain values.

use vstd::prelude::*;

use crate::error::Error;
use crate::html::{RawDom, RawDomKind, RawHtml};
use crate::span::Span;

verus! {

#[verifier::external_type_specification]
#[verifier::external_body]
pub struct ExHtmlElement(html_parser::Element);

/// A reference to one html_parser DOM node, held opaquely.
#[verifier::external_body]
pub(crate) struct HtmlNodeRef<'a> {
    inner: &'a html_parser::Node,
}

/// Relies on `html_parser::Dom::parse`: parses HTML text and mirrors the
/// DOM (its tree kind, diagnostics and nodes) into plain values. Whether
/// the grammar accepts the text, the message when it does not, and the
/// whole accepted DOM up to each element's attribute order (the one thing
/// its hash maps leave open) are functions of the text alone: the mirror's
/// canonical form is exactly `html_dom_of` the text.
#[verifier::external_body]
pub(crate) fn html_parse(input: &str) -> (r: Result<RawDom, Error>)
    ensures
        (r is Ok) == (crate::html::html_parse_outcome(input@) is None),
        (match r {
            Ok(d) => crate::html::canon_dom(d@) == crate::html::html_dom_of(input@),
            Err(e) => crate::html::html_parse_outcome(input@) == Option::Some(e.message@),
        }),
{
    let dom = match html_parser::Dom::parse(input) {
        Ok(d) => d,
        Err(e) => return Err(Error { message: e.to_string() }),
    };
    let kind = match dom.tree_type {
        html_parser::DomVariant::Document => RawDomKind::Document,
        html_parser::DomVariant::DocumentFragment => RawDomKind::Fragment,
        html_parser::DomVariant::Empty => RawDomKind::Empty,
    };
    let children = dom.children.iter().map(|c| raw_of_html(HtmlNodeRef { inner: c })).collect();
    Ok(RawDom { kind, children, errors: dom.errors })
}

/// Relies on `html_parser::Node`: one arm per variant, moving fields only.
#[verifier::external_body]
fn raw_of_html<'a>(n: HtmlNodeRef<'a>) -> RawHtml {
    match n.inner {
        html_parser::Node::Text(t) => RawHtml::Text { value: t.clone() },
        html_parser::Node::Comment(c) => RawHtml::Comment { value: c.clone() },
        html_parser::Node::Element(e) => elem_of_html(e),
    }
}

/// Relies on `html_parser::Element`: moves the tag, attributes, classes,
/// source span and children into the mirror.
#[verifier::external_body]
fn elem_of_html(e: &html_parser::Element) -> RawHtml {
    let children = e.children.iter().map(|c| raw_of_html(HtmlNodeRef { inner: c })).collect();
    let attrs = e.attributes.iter().map(|(k, v)| (k.clone(), v.clone())).collect();
    let sp = &e.source_span;
    let span = Span::new(sp.start_line, sp.start_column, sp.end_line, sp.end_column);
    RawHtml::Element {
        name: e.name.clone(),
        id: e.id.clone(),
        void: e.variant == html_parser::ElementVariant::Void,
        attrs,
        classes: e.classes.clone(),
        span,
        children,
    }
}

/// Relies on `String::from_utf8`: decodes a byte buffer exactly when it is
/// valid UTF-8, and rejects it otherwise.
#[verifier::external_body]
pub(crate) fn bytes_to_string(data: &[u8]) -> (r: Result<String, Error>)
    ensures
        (match r {
            Ok(s) => vstd::utf8::encode_utf8(s@) == data@,
            Err(_) => !vstd::utf8::valid_utf8(data@),
        }),
        (r is Ok) == vstd::utf8::valid_utf8(data@),
{
    match String::from_utf8(data.to_vec()) {
        Ok(s) => Ok(s),
        Err(e) => Err(Error { message: e.to_string() }),
    }
}

} // verus!
