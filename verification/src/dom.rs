//! Trusted boundary around the `kuchiki` DOM library.
//!
//! Everything the extraction pipeline learns from a parsed page passes
//! through the small set of declarations in this module: the opaque tree
//! types, compiled CSS selectors, and conversions from tree nodes to plain
//! values (text, attribute values, node kinds). The rest of the crate is
//! verified against these boundaries.

use vstd::prelude::*;

use kuchiki::iter::NodeIterator;
use kuchiki::traits::TendrilSink;

verus! {

#[verifier::external_type_specification]
#[verifier::external_body]
pub struct ExNodeRef(kuchiki::NodeRef);

#[verifier::external_type_specification]
#[verifier::external_body]
pub struct ExElementData(kuchiki::ElementData);

#[verifier::external_type_specification]
#[verifier::external_body]
#[verifier::reject_recursive_types(T)]
pub struct ExNodeDataRef<T>(kuchiki::NodeDataRef<T>);

#[verifier::external_type_specification]
#[verifier::external_body]
pub struct ExSelectors(kuchiki::Selectors);

/// A reference to an element node of a parsed page.
pub type Element = kuchiki::NodeDataRef<kuchiki::ElementData>;

/// Whether `kuchiki::Selectors::compile` accepts the selector text. The
/// compiler's result depends on the text alone.
pub uninterp spec fn selector_compiles(s: Seq<char>) -> bool;

/// Relies on kuchiki::Selectors::compile: compiling the same selector text
/// always succeeds or always fails.
pub assume_specification[ kuchiki::Selectors::compile ](s: &str) -> (r: Result<
    kuchiki::Selectors,
    (),
>)
    ensures
        r is Ok <==> selector_compiles(s@),
;

/// Relies on kuchiki::Selectors::matches: answers whether one element
/// matches a compiled selector list.
pub assume_specification[ kuchiki::Selectors::matches ](
    sel: &kuchiki::Selectors,
    element: &kuchiki::NodeDataRef<kuchiki::ElementData>,
) -> bool
;

/// What a tree node is, reduced to the parts the pipeline reads: a text
/// node's contents, an element's local tag name, or anything else.
pub enum NodeKind {
    Text(String),
    Element(String),
    Other,
}

/// Relies on kuchiki::parse_html and TendrilSink::one: parses HTML text
/// into a document tree.
#[verifier::external_body]
pub(crate) fn parse_html(html: &str) -> kuchiki::NodeRef {
    kuchiki::parse_html().one(html)
}

/// Relies on NodeRef::descendants and NodeIterator::elements: all element
/// descendants of the root, in document order.
#[verifier::external_body]
pub(crate) fn element_descendants(root: &kuchiki::NodeRef) -> Vec<Element> {
    root.descendants().elements().collect()
}

/// Relies on NodeRef::text_contents: the concatenated text of an element's
/// text descendants.
#[verifier::external_body]
pub(crate) fn element_text(element: &Element) -> String {
    element.as_node().text_contents()
}

/// Relies on Attributes::get: the value of one attribute of an element.
#[verifier::external_body]
pub(crate) fn element_attr(element: &Element, name: &str) -> Option<String> {
    element.attributes.borrow().get(name).map(|v| v.to_string())
}

/// Relies on NodeRef::select_first: the first descendant element matching
/// the selector, if the selector compiles and any element matches.
#[verifier::external_body]
pub(crate) fn select_first_in(node: &kuchiki::NodeRef, selectors: &str) -> Option<Element> {
    node.select_first(selectors).ok()
}

/// Relies on NodeDataRef::as_node and NodeRef::clone.
#[verifier::external_body]
pub(crate) fn as_node(element: &Element) -> kuchiki::NodeRef {
    element.as_node().clone()
}

/// Relies on NodeDataRef::clone.
#[verifier::external_body]
pub(crate) fn clone_element(element: &Element) -> Element {
    element.clone()
}

/// Relies on NodeRef::children: the direct children of a node, in order.
#[verifier::external_body]
pub(crate) fn child_nodes(node: &kuchiki::NodeRef) -> Vec<kuchiki::NodeRef> {
    node.children().collect()
}

/// Relies on NodeRef::data: tells the node's variant apart, carrying a text
/// node's contents or an element's local name.
#[verifier::external_body]
pub(crate) fn node_kind(node: &kuchiki::NodeRef) -> NodeKind {
    match node.data() {
        kuchiki::NodeData::Text(text) => NodeKind::Text(text.borrow().clone()),
        kuchiki::NodeData::Element(element_data) => NodeKind::Element(
            element_data.name.local.to_string(),
        ),
        _ => NodeKind::Other,
    }
}

/// Relies on NodeRef::text_contents.
#[verifier::external_body]
pub(crate) fn node_text(node: &kuchiki::NodeRef) -> String {
    node.text_contents()
}

/// Relies on NodeRef::into_element_ref: the node as an element, if it is one.
#[verifier::external_body]
pub(crate) fn node_as_element(node: &kuchiki::NodeRef) -> Option<Element> {
    node.clone().into_element_ref()
}

} // verus!
