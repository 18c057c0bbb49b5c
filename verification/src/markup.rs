//! Elements of SVG documents, which the `svg` crate builds and writes out.

use svg::node::element::Element;
use vstd::prelude::*;

verus! {

/// An element, with its attributes and what stands inside it.
#[verifier::external_type_specification]
#[verifier::external_body]
pub struct ExElement(svg::node::element::Element);

/// The name of an element.
pub uninterp spec fn element_tag(element: Element) -> Seq<char>;

/// The attributes that an element holds.
pub uninterp spec fn element_attributes(element: Element) -> Map<Seq<char>, Seq<char>>;

/// The text of each of the nodes that an element holds.
pub uninterp spec fn element_children(element: Element) -> Seq<Seq<char>>;

/// What stands for a character in the text between tags.
pub open spec fn escaped_char(c: char) -> Seq<char> {
    if c == '&' {
        "&amp;"@
    } else if c == '<' {
        "&lt;"@
    } else if c == '>' {
        "&gt;"@
    } else {
        seq![c]
    }
}

/// Text as it stands between tags.
pub open spec fn escaped(s: Seq<char>) -> Seq<char>
    decreases s.len(),
{
    if s.len() == 0 {
        Seq::empty()
    } else {
        escaped(s.drop_last()) + escaped_char(s.last())
    }
}

/// What stands for a character in the value of an attribute.
pub open spec fn quoted_char(c: char) -> Seq<char> {
    if c == '"' {
        "&quot;"@
    } else if c == '\'' {
        "&apos;"@
    } else {
        escaped_char(c)
    }
}

/// Text as it stands in the value of an attribute.
pub open spec fn quoted(s: Seq<char>) -> Seq<char>
    decreases s.len(),
{
    if s.len() == 0 {
        Seq::empty()
    } else {
        quoted(s.drop_last()) + quoted_char(s.last())
    }
}

/// `a` comes before `b` in the order of their characters.
pub open spec fn text_lt(a: Seq<char>, b: Seq<char>) -> bool
    decreases a.len(),
{
    if b.len() == 0 {
        false
    } else if a.len() == 0 {
        true
    } else if a[0] != b[0] {
        a[0] < b[0]
    } else {
        text_lt(a.drop_first(), b.drop_first())
    }
}

/// `a` is `b` or comes before it.
pub open spec fn text_le(a: Seq<char>, b: Seq<char>) -> bool {
    a == b || text_lt(a, b)
}

/// The names of attributes, in their order.
pub open spec fn sorted_names(attributes: Map<Seq<char>, Seq<char>>) -> Seq<Seq<char>> {
    attributes.dom().to_sorted_seq(|a: Seq<char>, b: Seq<char>| text_le(a, b))
}

/// The attributes of those names as they stand in a tag.
pub open spec fn attributes_text(
    names: Seq<Seq<char>>,
    attributes: Map<Seq<char>, Seq<char>>,
) -> Seq<char>
    decreases names.len(),
{
    if names.len() == 0 {
        Seq::empty()
    } else {
        attributes_text(names.drop_last(), attributes) + " "@ + names.last() + "=\""@ + quoted(
            attributes[names.last()],
        ) + "\""@
    }
}

/// Nodes one below the other.
pub open spec fn children_text(children: Seq<Seq<char>>) -> Seq<char>
    decreases children.len(),
{
    if children.len() == 0 {
        Seq::empty()
    } else {
        children_text(children.drop_last()) + "\n"@ + children.last()
    }
}

/// An element as text, with its attributes in the order of their names.
pub open spec fn markup(
    tag: Seq<char>,
    attributes: Map<Seq<char>, Seq<char>>,
    children: Seq<Seq<char>>,
) -> Seq<char> {
    let start = "<"@ + tag + attributes_text(sorted_names(attributes), attributes);
    if children.len() == 0 {
        start + "/>"@
    } else {
        start + ">"@ + children_text(children) + "\n</"@ + tag + ">"@
    }
}

/// The text of an element.
pub open spec fn element_markup(element: Element) -> Seq<char> {
    markup(element_tag(element), element_attributes(element), element_children(element))
}

/// The element has that name and holds neither attributes nor nodes.
pub open spec fn is_blank(element: Element, tag: Seq<char>) -> bool {
    &&& element_tag(element) == tag
    &&& element_attributes(element) == Map::<Seq<char>, Seq<char>>::empty()
    &&& element_children(element) == Seq::<Seq<char>>::empty()
}

/// Calls `svg::node::element::Rectangle::new`: an empty `rect` element.
#[verifier::external_body]
pub(crate) fn new_rectangle() -> (r: Element)
    ensures
        is_blank(r, "rect"@),
{
    svg::node::element::Rectangle::new().into()
}

/// Calls `svg::node::element::Path::new`: an empty `path` element.
#[verifier::external_body]
pub(crate) fn new_path() -> (r: Element)
    ensures
        is_blank(r, "path"@),
{
    svg::node::element::Path::new().into()
}

/// Calls `svg::node::element::ForeignObject::new`: an empty `foreignObject` element.
#[verifier::external_body]
pub(crate) fn new_foreign_object() -> (r: Element)
    ensures
        is_blank(r, "foreignObject"@),
{
    svg::node::element::ForeignObject::new().into()
}

/// Calls `svg::Document::new`: an `svg` element that holds its namespace and nothing else.
#[verifier::external_body]
pub(crate) fn new_document() -> (r: Element)
    ensures
        element_tag(r) == "svg"@,
        element_attributes(r) == map!["xmlns"@ => "http://www.w3.org/2000/svg"@],
        element_children(r) == Seq::<Seq<char>>::empty(),
{
    svg::Document::new().into()
}

/// Calls `svg::Node::assign` on an element: gives it an attribute, in place of one of that name.
#[verifier::external_body]
pub(crate) fn set_attribute(element: &mut Element, name: &str, value: &str)
    ensures
        element_tag(*final(element)) == element_tag(*old(element)),
        element_attributes(*final(element)) == element_attributes(*old(element)).insert(
            name@,
            value@,
        ),
        element_children(*final(element)) == element_children(*old(element)),
{
    svg::Node::assign(element, name, value)
}

/// Calls `svg::Node::append` on an element with another element: puts it behind the nodes that
/// the first holds.
#[verifier::external_body]
pub(crate) fn add_element(element: &mut Element, child: Element)
    ensures
        element_tag(*final(element)) == element_tag(*old(element)),
        element_attributes(*final(element)) == element_attributes(*old(element)),
        element_children(*final(element)) == element_children(*old(element)).push(
            element_markup(child),
        ),
{
    svg::Node::append(element, child)
}

/// Calls `svg::Node::append` on an element with a `svg::node::Blob`, whose text is its content
/// as it is: puts that text behind the nodes that the element holds.
#[verifier::external_body]
pub(crate) fn add_blob(element: &mut Element, content: &str)
    ensures
        element_tag(*final(element)) == element_tag(*old(element)),
        element_attributes(*final(element)) == element_attributes(*old(element)),
        element_children(*final(element)) == element_children(*old(element)).push(content@),
{
    svg::Node::append(element, svg::node::Blob::new(content))
}

/// Calls `to_string` on an element: its tag with the attributes sorted by name, and each node
/// that it holds on a line of its own. (Text nodes, which would stand on no line of their own,
/// are never added here.)
#[verifier::external_body]
pub(crate) fn write_element(element: &Element) -> (r: String)
    ensures
        r@ == element_markup(*element),
{
    element.to_string()
}

/// Calls `to_string` on a `svg::node::Text`: the text with ampersands and angle brackets
/// escaped.
#[verifier::external_body]
pub(crate) fn write_text(content: &str) -> (r: String)
    ensures
        r@ == escaped(content@),
{
    svg::node::Text::new(content).to_string()
}

} // verus!
