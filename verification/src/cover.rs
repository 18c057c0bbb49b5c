//! The cover picture that stands for a title: an SVG document in a `data:` URI.

use vstd::prelude::*;
use vstd::string::StringExecFns;
use vstd::utf8::encode_utf8;

use crate::encoding::{encode, encoded, encoded_len};
use crate::markup::{
    add_blob, add_element, element_attributes, element_children, element_markup, element_tag,
    escaped, markup, new_document, new_foreign_object, new_path, new_rectangle, set_attribute,
    write_element, write_text,
};
use crate::text::{decimal, push_decimal};
use svg::node::element::Element;

verus! {

/// Width and height of the cover.
pub const COVER_SIZE: u64 = 900;

/// Distance of the text from the edges.
pub const COVER_PADDING: u64 = 10;

/// What stands before the title in the block that shows it.
pub const BLOCK_START: &'static str = "<div xmlns=\"http://www.w3.org/1999/xhtml\" \n                    style=\"width:100%; height:100%; display:flex; justify-content:center; align-items:center; text-align:center; color:white; font-size:64px; font-family:sans-serif; word-wrap:break-word;\">\n                ";

/// What stands behind the title in the block that shows it.
pub const BLOCK_END: &'static str = "\n            </div>";

/// The outline of the first wave.
pub const FIRST_WAVE: &'static str = "M0 607L129 529L257 646L386 532L514 615L643 616L771 673L900 567L900 901L771 901L643 901L514 901L386 901L257 901L129 901L0 901Z";

/// The outline of the second wave.
pub const SECOND_WAVE: &'static str = "M0 609L129 664L257 633L386 639L514 715L643 617L771 685L900 595L900 901L771 901L643 901L514 901L386 901L257 901L129 901L0 901Z";

/// The outline of the third wave.
pub const THIRD_WAVE: &'static str = "M0 664L129 689L257 725L386 666L514 725L643 685L771 682L900 690L900 901L771 901L643 901L514 901L386 901L257 901L129 901L0 901Z";

/// The outline of the fourth wave.
pub const FOURTH_WAVE: &'static str = "M0 812L129 811L257 729L386 779L514 769L643 742L771 733L900 756L900 901L771 901L643 901L514 901L386 901L257 901L129 901L0 901Z";

/// The outline of the fifth wave.
pub const FIFTH_WAVE: &'static str = "M0 810L129 857L257 792L386 852L514 826L643 831L771 842L900 855L900 901L771 901L643 901L514 901L386 901L257 901L129 901L0 901Z";

/// The square behind everything.
pub open spec fn background() -> Seq<char> {
    markup(
        "rect"@,
        map![
            "width"@ => decimal(COVER_SIZE as nat),
            "height"@ => decimal(COVER_SIZE as nat),
            "fill"@ => "#931C1C"@,
        ],
        Seq::empty(),
    )
}

/// A wave with that outline and color.
pub open spec fn wave(d: Seq<char>, fill: Seq<char>) -> Seq<char> {
    markup("path"@, map!["d"@ => d, "fill"@ => fill], Seq::empty())
}

/// Place and size of the block that shows a title.
pub open spec fn block_attributes() -> Map<Seq<char>, Seq<char>> {
    map![
        "x"@ => decimal(COVER_PADDING as nat),
        "y"@ => decimal(COVER_PADDING as nat),
        "width"@ => decimal((COVER_SIZE - 2 * COVER_PADDING) as nat),
        "height"@ => decimal((COVER_SIZE - 2 * COVER_PADDING) as nat),
    ]
}

/// The block that shows a title, escaped, within the padding.
pub open spec fn title_block(title: Seq<char>) -> Seq<char> {
    markup(
        "foreignObject"@,
        block_attributes(),
        seq![BLOCK_START@ + escaped(title) + BLOCK_END@],
    )
}

/// Namespace and size of the cover.
pub open spec fn cover_attributes() -> Map<Seq<char>, Seq<char>> {
    map![
        "xmlns"@ => "http://www.w3.org/2000/svg"@,
        "width"@ => decimal(COVER_SIZE as nat),
        "height"@ => decimal(COVER_SIZE as nat),
    ]
}

/// What every cover shows behind its title.
pub open spec fn scenery() -> Seq<Seq<char>> {
    seq![
        background(),
        wave(FIRST_WAVE@, "#f5730"@),
        wave(SECOND_WAVE@, "#da5b09"@),
        wave(THIRD_WAVE@, "#be4407"@),
        wave(FOURTH_WAVE@, "#a32d04"@),
        wave(FIFTH_WAVE@, "#871400"@),
    ]
}

/// The cover for a title.
pub open spec fn cover_document(title: Seq<char>) -> Seq<char> {
    markup("svg"@, cover_attributes(), scenery().push(title_block(title)))
}

/// A document as a `data:` URI.
pub open spec fn svg_data_uri(document: Seq<char>) -> Seq<char> {
    "data:image/svg+xml;base64,"@ + encoded(encode_utf8(document))
}

/// The URI of the document fits in memory.
pub open spec fn uri_fits(document: Seq<char>) -> bool {
    encoded_len(encode_utf8(document).len()) <= isize::MAX
}

/// Gives an element a number for an attribute.
fn set_number(element: &mut Element, name: &str, value: u64)
    ensures
        element_tag(*final(element)) == element_tag(*old(element)),
        element_attributes(*final(element)) == element_attributes(*old(element)).insert(
            name@,
            decimal(value as nat),
        ),
        element_children(*final(element)) == element_children(*old(element)),
{
    let mut numeral = String::new();
    push_decimal(&mut numeral, value);
    assert(numeral@ =~= decimal(value as nat));
    set_attribute(element, name, numeral.as_str());
}

/// The square behind everything.
fn make_background() -> (r: Element)
    ensures
        element_markup(r) == background(),
{
    let mut r = new_rectangle();
    set_number(&mut r, "width", COVER_SIZE);
    set_number(&mut r, "height", COVER_SIZE);
    set_attribute(&mut r, "fill", "#931C1C");
    r
}

/// A wave with that outline and color.
fn make_wave(d: &str, fill: &str) -> (r: Element)
    ensures
        element_markup(r) == wave(d@, fill@),
{
    let mut r = new_path();
    set_attribute(&mut r, "d", d);
    set_attribute(&mut r, "fill", fill);
    r
}

/// The block that shows `title`.
fn make_title_block(title: &str) -> (r: Element)
    ensures
        element_markup(r) == title_block(title@),
{
    let mut r = new_foreign_object();
    set_number(&mut r, "x", COVER_PADDING);
    set_number(&mut r, "y", COVER_PADDING);
    set_number(&mut r, "width", COVER_SIZE - 2 * COVER_PADDING);
    set_number(&mut r, "height", COVER_SIZE - 2 * COVER_PADDING);
    let content = BLOCK_START.to_owned().concat(write_text(title).as_str()).concat(BLOCK_END);
    add_blob(&mut r, content.as_str());
    r
}

/// The SVG document of the cover for `title`.
pub fn make_cover(title: &str) -> (r: String)
    ensures
        r@ == cover_document(title@),
{
    let mut document = new_document();
    set_number(&mut document, "width", COVER_SIZE);
    set_number(&mut document, "height", COVER_SIZE);
    add_element(&mut document, make_background());
    add_element(&mut document, make_wave(FIRST_WAVE, "#f5730"));
    add_element(&mut document, make_wave(SECOND_WAVE, "#da5b09"));
    add_element(&mut document, make_wave(THIRD_WAVE, "#be4407"));
    add_element(&mut document, make_wave(FOURTH_WAVE, "#a32d04"));
    add_element(&mut document, make_wave(FIFTH_WAVE, "#871400"));
    add_element(&mut document, make_title_block(title));
    assert(element_children(document) =~= scenery().push(title_block(title@)));
    write_element(&document)
}

/// The `data:` URI of an SVG document.
pub fn make_data_uri(document: &str) -> (r: String)
    requires
        uri_fits(document@),
    ensures
        r@ == svg_data_uri(document@),
{
    "data:image/svg+xml;base64,".to_owned().concat(encode(document).as_str())
}

/// Whether the cover for `text` fits in memory.
pub fn cover_fits(text: &str) -> (r: bool)
    ensures
        r == uri_fits(cover_document(text@)),
{
    let document = make_cover(text);
    let n: usize = document.as_str().as_bytes().len();
    n <= isize::MAX as usize && (n + 2) / 3 <= isize::MAX as usize / 4
}

/// The cover for a title, as a `data:` URI.
pub fn generate_cover_svg_base64(text: &str) -> (r: String)
    requires
        uri_fits(cover_document(text@)),
    ensures
        r@ == svg_data_uri(cover_document(text@)),
{
    let document = make_cover(text);
    make_data_uri(document.as_str())
}

} // verus!
