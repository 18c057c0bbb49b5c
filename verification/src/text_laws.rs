//! What holds of texts and numerals, whatever they are: said by putting texts together and by
//! reading numerals.

use vstd::prelude::*;

use crate::text::{
    ascii_lower, before_first, decimal, first_occurrence, first_occurrence_is_least, has_text,
    has_text_by_first_occurrence, occurs_at,
};

verus! {

/// A text holds another exactly where it is that other one with something before and behind it.
pub proof fn held_text_stands_between_two_others(s: Seq<char>, pat: Seq<char>)
    ensures
        has_text(s, pat) <==> exists|p: Seq<char>, q: Seq<char>| s == #[trigger] (p + pat + q),
{
    if has_text(s, pat) {
        let at = choose|at: int| occurs_at(s, pat, at);
        let p = s.take(at);
        let q = s.skip(at + pat.len());
        assert forall|i: int| 0 <= i < s.len() implies s[i] == (p + pat + q)[i] by {
            if at <= i < at + pat.len() {
                assert(s.subrange(at, at + pat.len())[i - at] == s[i]);
            }
        }
        assert(s =~= p + pat + q);
    }
    if exists|p: Seq<char>, q: Seq<char>| s == #[trigger] (p + pat + q) {
        let (p, q) = choose|p: Seq<char>, q: Seq<char>| s == #[trigger] (p + pat + q);
        text_between_occurs(p, pat, q);
    }
}

/// A text between two others stands where the first of these ends.
pub proof fn text_between_occurs(p: Seq<char>, pat: Seq<char>, q: Seq<char>)
    ensures
        occurs_at(p + pat + q, pat, p.len() as int),
{
    assert((p + pat + q).subrange(p.len() as int, (p.len() + pat.len()) as int) =~= pat);
}

/// The part before a pattern is what stands before it, where the pattern stands no earlier.
pub proof fn head_ends_where_the_pattern_begins(
    head: Seq<char>,
    pat: Seq<char>,
    rest: Seq<char>,
)
    requires
        forall|p: Seq<char>, q: Seq<char>|
            #[trigger] (p + pat + q) == head + pat + rest ==> head.len() <= p.len(),
    ensures
        before_first(head + pat + rest, pat) == head,
{
    let s = head + pat + rest;
    text_between_occurs(head, pat, rest);
    first_occurrence_is_least(s, pat, 0);
    let at = first_occurrence(s, pat, 0).unwrap();
    assert(s =~= s.take(at) + pat + s.skip(at + pat.len())) by {
        assert forall|i: int| at <= i < at + pat.len() implies s[i] == pat[i - at] by {
            assert(s.subrange(at, at + pat.len())[i - at] == s[i]);
        }
    }
    assert(s.take(at) =~= head);
}

/// The first occurrence of a pattern is where the pattern can be cut out of the text, and there
/// is no earlier place for that; without an occurrence there is none at all.
pub proof fn first_occurrence_is_the_first_cut(s: Seq<char>, pat: Seq<char>)
    ensures
        match first_occurrence(s, pat, 0) {
            Some(at) => {
                &&& 0 <= at <= s.len() - pat.len()
                &&& s == s.take(at) + pat + s.skip(at + pat.len())
                &&& forall|p: Seq<char>, q: Seq<char>| s == #[trigger] (p + pat + q) ==> at <= p.len()
            },
            None => forall|p: Seq<char>, q: Seq<char>| s != #[trigger] (p + pat + q),
        },
{
    first_occurrence_is_least(s, pat, 0);
    assert forall|p: Seq<char>, q: Seq<char>| s == #[trigger] (p + pat + q) implies occurs_at(
        s,
        pat,
        p.len() as int,
    ) by {
        text_between_occurs(p, pat, q);
    }
    if let Some(at) = first_occurrence(s, pat, 0) {
        assert forall|i: int| at <= i < at + pat.len() implies s[i] == pat[i - at] by {
            assert(s.subrange(at, at + pat.len())[i - at] == s[i]);
        }
        assert(s =~= s.take(at) + pat + s.skip(at + pat.len()));
    }
}

/// Without the pattern, all of a text stands before it.
pub proof fn head_of_a_text_without_the_pattern(s: Seq<char>, pat: Seq<char>)
    requires
        forall|p: Seq<char>, q: Seq<char>| #[trigger] (p + pat + q) != s,
    ensures
        before_first(s, pat) == s,
{
    held_text_stands_between_two_others(s, pat);
    has_text_by_first_occurrence(s, pat);
}

/// Making a text small changes ASCII capitals, each by 32, and nothing else.
pub proof fn only_ascii_capitals_are_made_small(s: Seq<char>)
    ensures
        ascii_lower(s).len() == s.len(),
        forall|i: int|
            0 <= i < s.len() ==> (#[trigger] ascii_lower(s)[i]) as int == s[i] as int + (if 65
                <= s[i] as int <= 90 {
                32int
            } else {
                0int
            }),
{
}

/// The number that a numeral stands for.
pub open spec fn numeral_value(s: Seq<char>) -> int
    decreases s.len(),
{
    if s.len() == 0 {
        0
    } else {
        10 * numeral_value(s.drop_last()) + (s.last() as int - 48)
    }
}

/// A numeral is made of digits, begins with no needless zero, and stands for its number.
pub proof fn numerals_are_read_back(n: nat)
    ensures
        numeral_value(decimal(n)) == n,
        decimal(n).len() > 0,
        decimal(n).len() > 1 ==> decimal(n)[0] != '0',
        forall|i: int| 0 <= i < decimal(n).len() ==> '0' <= #[trigger] decimal(n)[i] <= '9',
    decreases n,
{
    reveal_with_fuel(numeral_value, 2);
    if n < 10 {
        assert(decimal(n).drop_last() =~= Seq::empty());
    } else {
        let head = decimal(n / 10);
        numerals_are_read_back(n / 10);
        assert(decimal(n).drop_last() =~= head);
        assert(decimal(n)[0] == head[0]);
        if head.len() == 1 {
            assert(head.drop_last() =~= Seq::empty());
        }
    }
}

} // verus!
