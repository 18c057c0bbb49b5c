//! What holds of every cover: that its URI gives the document back, that a title stays text in
//! it, and that different titles have different covers.

use vstd::prelude::*;
use vstd::relations::{sorted_by, total_ordering};
use vstd::utf8::{decode_utf8, encode_utf8, encode_utf8_decode_utf8};

use crate::cover::{
    block_attributes, cover_attributes, cover_document, scenery, svg_data_uri, title_block,
    BLOCK_END, BLOCK_START,
};
use crate::encoding::{byte_at, encoded, encoded_len, sextet, symbol};
use crate::markup::{
    attributes_text, children_text, escaped, escaped_char, markup, sorted_names, text_le, text_lt,
};

verus! {

/// The six bits that a symbol stands for; more than six for what is no symbol.
pub open spec fn symbol_value(c: char) -> int {
    if 'A' <= c <= 'Z' {
        c as int - 'A' as int
    } else if 'a' <= c <= 'z' {
        c as int - 'a' as int + 26
    } else if '0' <= c <= '9' {
        c as int - '0' as int + 52
    } else if c == '+' {
        62
    } else if c == '/' {
        63
    } else {
        64
    }
}

/// How many bytes a base64 text stands for.
pub open spec fn decoded_len(text: Seq<char>) -> int {
    let n = text.len() as int;
    if n < 4 || text[n - 1] != '=' {
        n / 4 * 3
    } else if text[n - 2] != '=' {
        n / 4 * 3 - 1
    } else {
        n / 4 * 3 - 2
    }
}

/// The byte at `k` of those that a base64 text stands for.
pub open spec fn decoded_byte(text: Seq<char>, k: int) -> int {
    let q = k / 3 * 4;
    if k % 3 == 0 {
        symbol_value(text[q]) * 4 + symbol_value(text[q + 1]) / 16
    } else if k % 3 == 1 {
        symbol_value(text[q + 1]) % 16 * 16 + symbol_value(text[q + 2]) / 4
    } else {
        symbol_value(text[q + 2]) % 4 * 64 + symbol_value(text[q + 3])
    }
}

/// The bytes that a base64 text stands for.
pub open spec fn decoded(text: Seq<char>) -> Seq<u8> {
    Seq::new(decoded_len(text) as nat, |k: int| decoded_byte(text, k) as u8)
}

/// A symbol stands for the bits that it was chosen for, and is no padding.
proof fn symbols_are_read_back(v: int)
    requires
        0 <= v < 64,
    ensures
        symbol_value(symbol(v)) == v,
        symbol(v) != '=',
{
}

/// How six bits are cut out of two bytes.
proof fn cut_two_bytes(a: u32, b: u32)
    requires
        a < 256,
        b < 256,
    ensures
        (a * 256 + b) / 1024 % 64 == a / 4,
        (a * 256 + b) / 16 % 64 == a % 4 * 16 + b / 16,
        (a * 256 + b) / 64 % 64 == a % 16 * 4 + b / 64,
        (a * 256 + b) / 256 % 64 == a % 64,
{
    assert((a * 256 + b) / 1024 % 64 == a / 4 && (a * 256 + b) / 16 % 64 == a % 4 * 16 + b / 16 && (
    a * 256 + b) / 64 % 64 == a % 16 * 4 + b / 64 && (a * 256 + b) / 256 % 64 == a % 64)
        by (bit_vector)
        requires
            a < 256,
            b < 256,
    ;
}

/// How bytes are put together again from what was cut.
proof fn join_bits(a: u32, b: u32)
    requires
        a < 256,
        b < 256,
    ensures
        a / 4 * 4 + (a % 4 * 16 + b / 16) / 16 == a,
        (a % 4 * 16 + b / 16) % 16 * 16 + (b % 16 * 4) / 4 == b,
{
    assert(a / 4 * 4 + (a % 4 * 16 + b / 16) / 16 == a && (a % 4 * 16 + b / 16) % 16 * 16 + (b % 16
        * 4) / 4 == b) by (bit_vector)
        requires
            a < 256,
            b < 256,
    ;
}

/// How bytes are put together again from what was cut, where two more bits follow.
proof fn join_more_bits(a: u32, b: u32)
    requires
        a < 256,
        b < 256,
    ensures
        (a % 16 * 4 + b / 64) / 4 == a % 16,
        (a % 16 * 4 + b / 64) % 4 * 64 + b % 64 == b,
{
    assert((a % 16 * 4 + b / 64) / 4 == a % 16 && (a % 16 * 4 + b / 64) % 4 * 64 + b % 64 == b)
        by (bit_vector)
        requires
            a < 256,
            b < 256,
    ;
}

/// The groups of six bits of three bytes in turn.
proof fn sextets_of_three(bytes: Seq<u8>, g: int)
    requires
        0 <= g,
    ensures
        sextet(bytes, 4 * g) == byte_at(bytes, 3 * g) / 4,
        sextet(bytes, 4 * g + 1) == byte_at(bytes, 3 * g) % 4 * 16 + byte_at(bytes, 3 * g + 1) / 16,
        sextet(bytes, 4 * g + 2) == byte_at(bytes, 3 * g + 1) % 16 * 4 + byte_at(bytes, 3 * g + 2)
            / 64,
        sextet(bytes, 4 * g + 3) == byte_at(bytes, 3 * g + 2) % 64,
{
    let a = byte_at(bytes, 3 * g) as u32;
    let b = byte_at(bytes, 3 * g + 1) as u32;
    let c = byte_at(bytes, 3 * g + 2) as u32;
    let d = byte_at(bytes, 3 * g + 3) as u32;
    cut_two_bytes(a, b);
    cut_two_bytes(b, c);
    cut_two_bytes(c, d);
}

/// The symbols of base64 are those of the groups of six bits begun, the rest is padding.
proof fn encoded_symbols(bytes: Seq<u8>, j: int)
    requires
        0 <= j < encoded_len(bytes.len()),
    ensures
        6 * j < 8 * bytes.len() ==> symbol_value(encoded(bytes)[j]) == sextet(bytes, j)
            && encoded(bytes)[j] != '=',
        6 * j >= 8 * bytes.len() ==> encoded(bytes)[j] == '=',
{
    if 6 * j < 8 * bytes.len() {
        symbols_are_read_back(sextet(bytes, j));
    }
}

/// The padding tells how many bytes there were.
proof fn encoded_length_is_read_back(bytes: Seq<u8>)
    ensures
        decoded_len(encoded(bytes)) == bytes.len(),
{
    let n = bytes.len() as int;
    let m = encoded_len(bytes.len()) as int;
    if n > 0 {
        encoded_symbols(bytes, m - 1);
        encoded_symbols(bytes, m - 2);
    }
}

/// Each byte is read back from the symbols that hold its bits.
proof fn encoded_byte_is_read_back(bytes: Seq<u8>, k: int)
    requires
        0 <= k < bytes.len(),
    ensures
        decoded_byte(encoded(bytes), k) == bytes[k],
{
    let g = k / 3;
    let a = byte_at(bytes, 3 * g) as u32;
    let b = byte_at(bytes, 3 * g + 1) as u32;
    let c = byte_at(bytes, 3 * g + 2) as u32;
    sextets_of_three(bytes, g);
    encoded_symbols(bytes, 4 * g);
    encoded_symbols(bytes, 4 * g + 1);
    if k % 3 == 0 {
        join_bits(a, b);
    } else if k % 3 == 1 {
        encoded_symbols(bytes, 4 * g + 2);
        join_bits(a, b);
        join_more_bits(b, c);
    } else {
        encoded_symbols(bytes, 4 * g + 2);
        encoded_symbols(bytes, 4 * g + 3);
        join_more_bits(b, c);
    }
}

/// Base64 gives back what was encoded: four characters for every three bytes begun, of which
/// those that hold bits are symbols of the alphabet, and the others, two at most, are padding.
pub proof fn base64_is_read_back(bytes: Seq<u8>)
    ensures
        decoded(encoded(bytes)) == bytes,
        encoded(bytes).len() == (bytes.len() + 2) / 3 * 4,
        forall|j: int|
            0 <= j < encoded(bytes).len() ==> if 3 * j < 4 * bytes.len() {
                symbol_value(#[trigger] encoded(bytes)[j]) < 64
            } else {
                encoded(bytes)[j] == '='
            },
{
    encoded_length_is_read_back(bytes);
    assert forall|j: int| 0 <= j < encoded(bytes).len() implies if 3 * j < 4 * bytes.len() {
        symbol_value(#[trigger] encoded(bytes)[j]) < 64
    } else {
        encoded(bytes)[j] == '='
    } by {
        encoded_symbols(bytes, j);
    }
    assert forall|k: int| 0 <= k < bytes.len() implies decoded(encoded(bytes))[k] == bytes[k] by {
        encoded_byte_is_read_back(bytes, k);
    }
    assert(decoded(encoded(bytes)) =~= bytes);
}

/// The URI of a document gives the document back: what follows its prefix is the base64 of the
/// document's UTF-8.
pub proof fn data_uri_gives_back_the_document(document: Seq<char>)
    ensures
        "data:image/svg+xml;base64,"@.is_prefix_of(svg_data_uri(document)),
        decode_utf8(
            decoded(svg_data_uri(document).skip("data:image/svg+xml;base64,"@.len() as int)),
        ) == document,
{
    let prefix = "data:image/svg+xml;base64,"@;
    let body = encoded(encode_utf8(document));
    assert(svg_data_uri(document).skip(prefix.len() as int) =~= body);
    base64_is_read_back(encode_utf8(document));
    encode_utf8_decode_utf8(document);
}

/// What stands for a character holds no angle bracket.
proof fn escaped_char_holds_no_tags(c: char)
    ensures
        escaped_char(c).len() > 0,
        forall|i: int|
            0 <= i < escaped_char(c).len() ==> #[trigger] escaped_char(c)[i] != '<'
                && escaped_char(c)[i] != '>',
{
    reveal_strlit("&amp;");
    reveal_strlit("&lt;");
    reveal_strlit("&gt;");
}

/// No text opens or closes a tag: escaped, it holds no angle bracket.
pub proof fn escaped_text_holds_no_tags(s: Seq<char>)
    ensures
        forall|i: int|
            0 <= i < escaped(s).len() ==> #[trigger] escaped(s)[i] != '<' && escaped(s)[i] != '>',
    decreases s.len(),
{
    if s.len() > 0 {
        let before = escaped(s.drop_last());
        let last = escaped_char(s.last());
        escaped_text_holds_no_tags(s.drop_last());
        escaped_char_holds_no_tags(s.last());
        assert forall|i: int| 0 <= i < escaped(s).len() implies #[trigger] escaped(s)[i] != '<'
            && escaped(s)[i] != '>' by {
            if i < before.len() {
                assert(escaped(s)[i] == before[i]);
            } else {
                assert(escaped(s)[i] == last[i - before.len()]);
            }
        }
    }
}

/// Text is escaped character by character, from the first one on.
proof fn escaped_from_the_front(s: Seq<char>)
    requires
        s.len() > 0,
    ensures
        escaped(s) == escaped_char(s[0]) + escaped(s.drop_first()),
    decreases s.len(),
{
    if s.len() == 1 {
        assert(s.drop_last() =~= Seq::empty());
        assert(s.drop_first() =~= Seq::empty());
        assert(escaped(s) =~= escaped_char(s[0]) + escaped(s.drop_first()));
    } else {
        escaped_from_the_front(s.drop_last());
        assert(s.drop_last().drop_first() =~= s.drop_first().drop_last());
        assert(escaped(s) =~= escaped_char(s[0]) + escaped(s.drop_first()));
    }
}

/// The start of an escaped text tells which character comes first.
proof fn first_piece(c: char, xs: Seq<char>, d: char, ys: Seq<char>)
    requires
        escaped_char(c) + xs == escaped_char(d) + ys,
    ensures
        c == d,
        xs == ys,
{
    reveal_strlit("&amp;");
    reveal_strlit("&lt;");
    reveal_strlit("&gt;");
    let x = escaped_char(c);
    let y = escaped_char(d);
    assert((x + xs)[0] == x[0]);
    assert((y + ys)[0] == y[0]);
    if x[0] == '&' {
        assert((x + xs)[1] == x[1]);
        assert((y + ys)[1] == y[1]);
    }
    assert(xs =~= (x + xs).skip(x.len() as int));
    assert(ys =~= (y + ys).skip(y.len() as int));
}

/// Different texts stay different when they are escaped.
pub proof fn escaping_tells_texts_apart(a: Seq<char>, b: Seq<char>)
    requires
        escaped(a) == escaped(b),
    ensures
        a == b,
    decreases a.len(),
{
    if a.len() == 0 || b.len() == 0 {
        if a.len() > 0 {
            escaped_char_holds_no_tags(a.last());
            assert(escaped(a).len() > 0);
        }
        if b.len() > 0 {
            escaped_char_holds_no_tags(b.last());
            assert(escaped(b).len() > 0);
        }
        assert(a =~= b);
    } else {
        escaped_from_the_front(a);
        escaped_from_the_front(b);
        first_piece(a[0], escaped(a.drop_first()), b[0], escaped(b.drop_first()));
        escaping_tells_texts_apart(a.drop_first(), b.drop_first());
        assert(a =~= seq![a[0]] + a.drop_first());
        assert(b =~= seq![b[0]] + b.drop_first());
    }
}

/// What stands between the same two texts is the same where the whole is.
proof fn middle_is_determined(
    start: Seq<char>,
    a: Seq<char>,
    b: Seq<char>,
    end: Seq<char>,
)
    requires
        start + a + end == start + b + end,
    ensures
        a == b,
{
    let whole = start + a + end;
    assert(whole.len() == (start + b + end).len());
    assert(a =~= whole.subrange(start.len() as int, (start.len() + a.len()) as int));
    assert(b =~= whole.subrange(start.len() as int, (start.len() + b.len()) as int));
}

/// What stands before the last node of an element.
spec fn element_start(
    tag: Seq<char>,
    attributes: Map<Seq<char>, Seq<char>>,
    before: Seq<Seq<char>>,
) -> Seq<char> {
    "<"@ + tag + attributes_text(sorted_names(attributes), attributes) + ">"@ + children_text(
        before,
    ) + "\n"@
}

/// What stands behind the last node of an element.
spec fn element_end(tag: Seq<char>) -> Seq<char> {
    "\n</"@ + tag + ">"@
}

/// The last node of an element stands between what does not depend on it.
proof fn markup_around_last_child(
    tag: Seq<char>,
    attributes: Map<Seq<char>, Seq<char>>,
    before: Seq<Seq<char>>,
    child: Seq<char>,
)
    ensures
        markup(tag, attributes, before.push(child)) == element_start(tag, attributes, before)
            + child + element_end(tag),
{
    assert(before.push(child).drop_last() =~= before);
    assert(markup(tag, attributes, before.push(child)) =~= element_start(tag, attributes, before)
        + child + element_end(tag));
}

/// The last node that an element holds is determined by the element's text, the rest of the
/// element being given.
proof fn last_child_is_determined(
    tag: Seq<char>,
    attributes: Map<Seq<char>, Seq<char>>,
    before: Seq<Seq<char>>,
    a: Seq<char>,
    b: Seq<char>,
)
    requires
        markup(tag, attributes, before.push(a)) == markup(tag, attributes, before.push(b)),
    ensures
        a == b,
{
    markup_around_last_child(tag, attributes, before, a);
    markup_around_last_child(tag, attributes, before, b);
    middle_is_determined(element_start(tag, attributes, before), a, b, element_end(tag));
}

/// Different titles have different covers.
pub proof fn covers_tell_titles_apart(a: Seq<char>, b: Seq<char>)
    requires
        cover_document(a) == cover_document(b),
    ensures
        a == b,
{
    last_child_is_determined(
        "svg"@,
        cover_attributes(),
        scenery(),
        title_block(a),
        title_block(b),
    );
    let block_a = BLOCK_START@ + escaped(a) + BLOCK_END@;
    let block_b = BLOCK_START@ + escaped(b) + BLOCK_END@;
    let none = Seq::<Seq<char>>::empty();
    last_child_is_determined("foreignObject"@, block_attributes(), none, block_a, block_b);
    middle_is_determined(BLOCK_START@, escaped(a), escaped(b), BLOCK_END@);
    escaping_tells_texts_apart(a, b);
}

/// What a text between tags reads, character by character; nothing where an angle bracket or a
/// bare ampersand stands in it.
pub open spec fn unescaped(e: Seq<char>) -> Option<Seq<char>>
    decreases e.len(),
{
    if e.len() == 0 {
        Some(Seq::empty())
    } else if e[0] == '<' || e[0] == '>' {
        None
    } else {
        let (c, n) = if e[0] != '&' {
            (Some(e[0]), 1int)
        } else if e.len() >= 5 && e.take(5) == seq!['&', 'a', 'm', 'p', ';'] {
            (Some('&'), 5)
        } else if e.len() >= 4 && e.take(4) == seq!['&', 'l', 't', ';'] {
            (Some('<'), 4)
        } else if e.len() >= 4 && e.take(4) == seq!['&', 'g', 't', ';'] {
            (Some('>'), 4)
        } else {
            (None, 1)
        };
        match (c, unescaped(e.skip(n))) {
            (Some(first), Some(rest)) => Some(seq![first] + rest),
            _ => None,
        }
    }
}

/// Escaped text reads as the text.
pub proof fn escaped_text_is_read_back(s: Seq<char>)
    ensures
        unescaped(escaped(s)) == Some(s),
    decreases s.len(),
{
    reveal_strlit("&amp;");
    reveal_strlit("&lt;");
    reveal_strlit("&gt;");
    if s.len() > 0 {
        let rest = escaped(s.drop_first());
        let piece = escaped_char(s[0]);
        let e = escaped(s);
        escaped_from_the_front(s);
        escaped_text_is_read_back(s.drop_first());
        assert(e.skip(piece.len() as int) =~= rest);
        assert(e.take(piece.len() as int) =~= piece);
        assert(e[0] == piece[0]);
        if s[0] == '&' {
            assert(piece =~= seq!['&', 'a', 'm', 'p', ';']);
        } else if s[0] == '<' {
            assert(piece =~= seq!['&', 'l', 't', ';']);
            if e.len() >= 5 {
                assert(e.take(5)[1] == piece[1]);
            }
        } else if s[0] == '>' {
            assert(piece =~= seq!['&', 'g', 't', ';']);
            assert(e.take(4)[1] == piece[1]);
            if e.len() >= 5 {
                assert(e.take(5)[1] == piece[1]);
            }
        }
        assert(s =~= seq![s[0]] + s.drop_first());
    }
}

/// What is read between the two texts that a document begins and ends with.
pub open spec fn shown_between(
    document: Seq<char>,
    before: Seq<char>,
    behind: Seq<char>,
) -> Option<Seq<char>> {
    if before.len() + behind.len() <= document.len() && before.is_prefix_of(document)
        && behind.is_suffix_of(document) {
        unescaped(document.subrange(before.len() as int, document.len() - behind.len()))
    } else {
        None
    }
}

/// What stands before the title in every cover.
spec fn cover_start() -> Seq<char> {
    element_start("svg"@, cover_attributes(), scenery()) + element_start(
        "foreignObject"@,
        block_attributes(),
        Seq::empty(),
    ) + BLOCK_START@
}

/// What stands behind the title in every cover.
spec fn cover_end() -> Seq<char> {
    BLOCK_END@ + element_end("foreignObject"@) + element_end("svg"@)
}

/// Texts around a text that stands in another one stand around that text.
proof fn around_twice(
    a: Seq<char>,
    b: Seq<char>,
    c: Seq<char>,
    text: Seq<char>,
    x: Seq<char>,
    y: Seq<char>,
    z: Seq<char>,
)
    ensures
        a + (b + (c + text + x) + y) + z == (a + b + c) + text + (x + y + z),
{
    assert(a + (b + (c + text + x) + y) + z =~= (a + b + c) + text + (x + y + z));
}

/// A cover is the same for every title but for the escaped title.
proof fn cover_around_its_title(title: Seq<char>)
    ensures
        cover_document(title) == cover_start() + escaped(title) + cover_end(),
{
    let none = Seq::<Seq<char>>::empty();
    let block = BLOCK_START@ + escaped(title) + BLOCK_END@;
    assert(none.push(block) =~= seq![block]);
    markup_around_last_child("foreignObject"@, block_attributes(), none, block);
    markup_around_last_child("svg"@, cover_attributes(), scenery(), title_block(title));
    around_twice(
        element_start("svg"@, cover_attributes(), scenery()),
        element_start("foreignObject"@, block_attributes(), none),
        BLOCK_START@,
        escaped(title),
        BLOCK_END@,
        element_end("foreignObject"@),
        element_end("svg"@),
    );
}

/// Every cover shows its title, whole and as it is: all covers begin alike and end alike, the
/// block that shows the title opens right before and closes right behind what differs, and that
/// reads, with its escapes resolved, as the title. The same holds of the document that is read
/// out of the cover's URI.
pub proof fn covers_show_their_titles()
    ensures
        exists|before: Seq<char>, behind: Seq<char>|
            {
                &&& BLOCK_START@.is_suffix_of(before)
                &&& BLOCK_END@.is_prefix_of(behind)
                &&& forall|title: Seq<char>| #[trigger]
                    shown_between(cover_document(title), before, behind) == Some(title)
                &&& forall|title: Seq<char>|
                    shown_between(
                        decode_utf8(
                            decoded(
                                (#[trigger] svg_data_uri(cover_document(title))).skip(
                                    "data:image/svg+xml;base64,"@.len() as int,
                                ),
                            ),
                        ),
                        before,
                        behind,
                    ) == Some(title)
            },
{
    let before = cover_start();
    let behind = cover_end();
    assert(BLOCK_START@.is_suffix_of(before)) by {
        let front = before.take(before.len() - BLOCK_START@.len());
        assert(before =~= front + BLOCK_START@);
        assert(before.subrange(front.len() as int, before.len() as int) =~= BLOCK_START@);
    }
    assert(BLOCK_END@.is_prefix_of(behind));
    assert forall|title: Seq<char>| #[trigger]
        shown_between(cover_document(title), before, behind) == Some(title) by {
        let document = cover_document(title);
        cover_around_its_title(title);
        escaped_text_is_read_back(title);
        assert(document.subrange(before.len() as int, document.len() - behind.len()) =~= escaped(
            title,
        ));
        assert(before.is_prefix_of(document));
        assert(behind.is_suffix_of(document)) by {
            assert(document.subrange(document.len() - behind.len(), document.len() as int)
                =~= behind);
        }
    }
    assert forall|title: Seq<char>|
        shown_between(
            decode_utf8(
                decoded(
                    (#[trigger] svg_data_uri(cover_document(title))).skip(
                        "data:image/svg+xml;base64,"@.len() as int,
                    ),
                ),
            ),
            before,
            behind,
        ) == Some(title) by {
        data_uri_gives_back_the_document(cover_document(title));
        assert(shown_between(cover_document(title), before, behind) == Some(title));
    }
}

/// No text comes before itself.
proof fn text_lt_irreflexive(a: Seq<char>)
    ensures
        !text_lt(a, a),
    decreases a.len(),
{
    if a.len() > 0 {
        text_lt_irreflexive(a.drop_first());
    }
}

/// What comes before a text that comes before a third comes before the third.
proof fn text_lt_transitive(a: Seq<char>, b: Seq<char>, c: Seq<char>)
    requires
        text_lt(a, b),
        text_lt(b, c),
    ensures
        text_lt(a, c),
    decreases a.len(),
{
    if a.len() > 0 && b.len() > 0 && c.len() > 0 && a[0] == b[0] && b[0] == c[0] {
        text_lt_transitive(a.drop_first(), b.drop_first(), c.drop_first());
    }
}

/// Of two different texts one comes before the other.
proof fn text_lt_connected(a: Seq<char>, b: Seq<char>)
    ensures
        a == b || text_lt(a, b) || text_lt(b, a),
    decreases a.len(),
{
    if a.len() > 0 && b.len() > 0 && a[0] == b[0] {
        text_lt_connected(a.drop_first(), b.drop_first());
        if a.drop_first() == b.drop_first() {
            assert(a =~= seq![a[0]] + a.drop_first());
            assert(b =~= seq![b[0]] + b.drop_first());
        }
    } else if a.len() == 0 && b.len() == 0 {
        assert(a =~= b);
    }
}

/// The order of texts is a total one.
proof fn text_le_is_total_ordering()
    ensures
        total_ordering(|a: Seq<char>, b: Seq<char>| text_le(a, b)),
{
    let le = |a: Seq<char>, b: Seq<char>| text_le(a, b);
    assert forall|a: Seq<char>, b: Seq<char>| #[trigger] le(a, b) && #[trigger] le(b, a) implies a
        == b by {
        if a != b {
            text_lt_transitive(a, b, a);
            text_lt_irreflexive(a);
        }
    }
    assert forall|a: Seq<char>, b: Seq<char>, c: Seq<char>| #[trigger]
        le(a, b) && #[trigger] le(b, c) implies le(a, c) by {
        if a != b && b != c {
            text_lt_transitive(a, b, c);
        }
    }
    assert forall|a: Seq<char>, b: Seq<char>| #[trigger] le(a, b) || #[trigger] le(b, a) by {
        text_lt_connected(a, b);
    }
}

/// A set is listed with as many members as it has.
proof fn listing_has_set_length(s: Set<Seq<char>>)
    requires
        s.finite(),
    ensures
        s.to_seq().len() == s.len(),
    decreases s.len(),
{
    if s.len() > 0 {
        let x = s.choose();
        assert(s.contains(x)) by {
            if forall|y: Seq<char>| !s.contains(y) {
                assert(s =~= Set::empty());
            }
        }
        listing_has_set_length(s.remove(x));
    }
}

/// Lists without duplicates that have the same members have them equally often.
proof fn same_members_same_multiset(a: Seq<Seq<char>>, b: Seq<Seq<char>>)
    requires
        a.no_duplicates(),
        b.no_duplicates(),
        forall|x: Seq<char>| a.contains(x) <==> b.contains(x),
    ensures
        a.to_multiset() == b.to_multiset(),
{
    broadcast use vstd::seq_lib::group_to_multiset_ensures;

    a.lemma_multiset_has_no_duplicates();
    b.lemma_multiset_has_no_duplicates();
    assert forall|x: Seq<char>| #[trigger]
        a.to_multiset().count(x) == b.to_multiset().count(x) by {
        assert(a.contains(x) <==> a.to_multiset().count(x) > 0);
        assert(b.contains(x) <==> b.to_multiset().count(x) > 0);
        if a.contains(x) {
            assert(a.to_multiset().contains(x));
            assert(b.to_multiset().contains(x));
        }
    }
    assert(a.to_multiset() =~= b.to_multiset());
}

/// A tag lists each attribute once, in the order of the names: any list that does is the one.
pub proof fn attributes_are_listed_in_order(
    attributes: Map<Seq<char>, Seq<char>>,
    names: Seq<Seq<char>>,
)
    requires
        forall|name: Seq<char>| names.contains(name) <==> attributes.contains_key(name),
        forall|i: int, j: int| 0 <= i < j < names.len() ==> text_lt(names[i], names[j]),
    ensures
        sorted_names(attributes) == names,
{
    let le = |a: Seq<char>, b: Seq<char>| text_le(a, b);
    let dom = attributes.dom();
    let listed = dom.to_seq();
    text_le_is_total_ordering();
    assert(names.no_duplicates()) by {
        assert forall|i: int, j: int| 0 <= i < j < names.len() implies names[i] != names[j] by {
            text_lt_irreflexive(names[i]);
        }
    }
    assert(names.to_set() =~= dom);
    vstd::seq_lib::seq_to_set_is_finite(names);
    dom.lemma_to_seq_to_set_id();
    listing_has_set_length(dom);
    listed.lemma_no_dup_set_cardinality();
    assert forall|x: Seq<char>| names.contains(x) <==> listed.contains(x) by {
        assert(listed.to_set().contains(x) <==> dom.contains(x));
    }
    same_members_same_multiset(names, listed);
    listed.lemma_sort_by_ensures(le);
    assert(sorted_by(names, le));
    vstd::seq_lib::lemma_sorted_unique(names, listed.sort_by(le), le);
}

} // verus!
