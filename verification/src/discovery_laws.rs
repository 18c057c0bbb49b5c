//! What holds of every search for devices and of every choice among them.

use vstd::prelude::*;

use crate::device::DeviceView;
use crate::discovery::{
    after_answer, distinct_addresses, first_match, has_address, is_match, selected,
    SelectionError,
};
use crate::text::{ascii_lower, decimal, has_text, occurs_at};
use crate::text_laws::{
    numeral_value, numerals_are_read_back, only_ascii_capitals_are_made_small,
};

verus! {

/// An answer never makes two devices share an address, and takes none of those found away.
pub proof fn answers_only_add(found: Seq<DeviceView>, answer: Seq<DeviceView>)
    ensures
        distinct_addresses(found) ==> distinct_addresses(after_answer(found, answer).0),
        found.is_prefix_of(after_answer(found, answer).0),
    decreases answer.len(),
{
    if answer.len() > 0 && !has_address(found, answer[0].ip_addr) {
        let more = found.push(answer[0]);
        answers_only_add(more, answer.drop_first());
        if distinct_addresses(found) {
            assert(distinct_addresses(more));
        }
        assert(found.is_prefix_of(more));
    }
}

/// The search goes on exactly where every device of the answer has an address of its own, and
/// then all of them are added.
pub proof fn new_devices_are_all_taken(found: Seq<DeviceView>, answer: Seq<DeviceView>)
    requires
        distinct_addresses(found),
    ensures
        after_answer(found, answer).1 <==> distinct_addresses(found + answer),
        after_answer(found, answer).1 ==> after_answer(found, answer).0 == found + answer,
    decreases answer.len(),
{
    if answer.len() == 0 {
        assert(found + answer =~= found);
    } else if has_address(found, answer[0].ip_addr) {
        let i = choose|i: int|
            0 <= i < found.len() && (#[trigger] found[i]).ip_addr == answer[0].ip_addr;
        assert((found + answer)[i].ip_addr == (found + answer)[found.len() as int].ip_addr);
    } else {
        let more = found.push(answer[0]);
        assert(distinct_addresses(more));
        new_devices_are_all_taken(more, answer.drop_first());
        assert(more + answer.drop_first() =~= found + answer);
    }
}

/// An answer that tells of any device, heard a second time, adds nothing and ends the search.
pub proof fn repeated_answer_ends_the_search(found: Seq<DeviceView>, answer: Seq<DeviceView>)
    requires
        answer.len() > 0,
    ensures
        after_answer(after_answer(found, answer).0, answer) == (
            after_answer(found, answer).0,
            false,
        ),
{
    let first = after_answer(found, answer).0;
    answers_only_add(found, answer);
    if has_address(found, answer[0].ip_addr) {
        let i = choose|i: int|
            0 <= i < found.len() && (#[trigger] found[i]).ip_addr == answer[0].ip_addr;
        assert(first[i].ip_addr == answer[0].ip_addr);
    } else {
        let more = found.push(answer[0]);
        answers_only_add(more, answer.drop_first());
        assert(more.is_prefix_of(first));
        assert(more[found.len() as int] == answer[0]);
        assert(first[found.len() as int].ip_addr == answer[0].ip_addr);
    }
}

/// The case of ASCII letters in the text does not matter: any two texts that are equal in small
/// letters choose the same device.
pub proof fn choice_ignores_case(devices: Seq<DeviceView>, a: Seq<char>, b: Seq<char>)
    requires
        ascii_lower(a) == ascii_lower(b),
    ensures
        selected(devices, Some(a)) == selected(devices, Some(b)),
{
    matching_ignores_case(devices, a, b, 0);
}

/// From any offset on, the case of ASCII letters in the text does not matter.
proof fn matching_ignores_case(devices: Seq<DeviceView>, a: Seq<char>, b: Seq<char>, from: int)
    requires
        ascii_lower(a) == ascii_lower(b),
    ensures
        first_match(devices, a, from) == first_match(devices, b, from),
    decreases devices.len() - from,
{
    if 0 <= from < devices.len() {
        matching_ignores_case(devices, a, b, from + 1);
    }
}

/// The device chosen by a text is one that matches, and none before it does; where none is
/// chosen, none matches.
pub proof fn choice_is_the_first_match(devices: Seq<DeviceView>, matcher: Seq<char>, from: int)
    requires
        0 <= from,
    ensures
        match first_match(devices, matcher, from) {
            Some(device) => exists|i: int|
                from <= i < devices.len() && #[trigger] devices[i] == device && is_match(
                    device,
                    matcher,
                ) && forall|j: int| from <= j < i ==> !is_match(#[trigger] devices[j], matcher),
            None => forall|j: int|
                from <= j < devices.len() ==> !is_match(#[trigger] devices[j], matcher),
        },
    decreases devices.len() - from,
{
    if from < devices.len() {
        if is_match(devices[from], matcher) {
            assert(devices[from] == devices[from]);
        } else {
            choice_is_the_first_match(devices, matcher, from + 1);
            if let Some(device) = first_match(devices, matcher, from + 1) {
                let i = choose|i: int|
                    from + 1 <= i < devices.len() && #[trigger] devices[i] == device && is_match(
                        device,
                        matcher,
                    ) && forall|j: int|
                        from + 1 <= j < i ==> !is_match(#[trigger] devices[j], matcher);
                assert(devices[i] == device);
            }
        }
    }
}

/// The empty text chooses what no text chooses: the first device.
pub proof fn empty_text_chooses_the_first(devices: Seq<DeviceView>)
    ensures
        selected(devices, Some(Seq::<char>::empty())) == selected(devices, None),
{
    let none = Seq::<char>::empty();
    assert(ascii_lower(none) =~= none);
    if devices.len() > 0 {
        let name = ascii_lower(devices[0].name);
        assert(name.subrange(0, 0) =~= none);
        assert(occurs_at(name, none, 0));
    }
}

/// The first `k` devices of an answer were added to those found, each at an address that was not
/// known by then; the search goes on exactly where these are all, and otherwise the next one is
/// at an address that is known by then.
pub open spec fn takes_in(
    found: Seq<DeviceView>,
    answer: Seq<DeviceView>,
    k: int,
    after: Seq<DeviceView>,
    goes_on: bool,
) -> bool {
    &&& 0 <= k <= answer.len()
    &&& after == found + answer.take(k)
    &&& goes_on <==> k == answer.len()
    &&& forall|i: int, j: int|
        0 <= j < k && 0 <= i < found.len() + j ==> (#[trigger] (found + answer)[i]).ip_addr != (
        #[trigger] answer[j]).ip_addr
    &&& k < answer.len() ==> exists|i: int|
        0 <= i < found.len() + k && (#[trigger] (found + answer)[i]).ip_addr == answer[k].ip_addr
}

/// An answer is taken in up to its first device whose address is known by then, from before or
/// from a device earlier in the answer; the search goes on exactly where there is no such device.
pub proof fn answers_are_taken_up_to_a_known_address(
    found: Seq<DeviceView>,
    answer: Seq<DeviceView>,
)
    ensures
        exists|k: int| #[trigger]
            takes_in(
                found,
                answer,
                k,
                after_answer(found, answer).0,
                after_answer(found, answer).1,
            ),
    decreases answer.len(),
{
    let (after, goes_on) = after_answer(found, answer);
    if answer.len() == 0 {
        assert(found + answer.take(0) =~= found);
        assert(takes_in(found, answer, 0, after, goes_on));
    } else if has_address(found, answer[0].ip_addr) {
        let i = choose|i: int|
            0 <= i < found.len() && (#[trigger] found[i]).ip_addr == answer[0].ip_addr;
        assert((found + answer)[i].ip_addr == answer[0].ip_addr);
        assert(found + answer.take(0) =~= found);
        assert(takes_in(found, answer, 0, after, goes_on));
    } else {
        let more = found.push(answer[0]);
        let rest = answer.drop_first();
        answers_are_taken_up_to_a_known_address(more, rest);
        assert(more + rest =~= found + answer);
        let k = choose|k: int| #[trigger] takes_in(more, rest, k, after, goes_on);
        assert(more + rest.take(k) =~= found + answer.take(k + 1));
        assert forall|i: int, j: int|
            0 <= j < k + 1 && 0 <= i < found.len() + j implies (#[trigger] (found
            + answer)[i]).ip_addr != (#[trigger] answer[j]).ip_addr by {
            if j == 0 {
                assert((found + answer)[i] == found[i]);
            } else {
                assert(rest[j - 1] == answer[j]);
                assert((more + rest)[i].ip_addr != rest[j - 1].ip_addr);
            }
        }
        if k < rest.len() {
            let i = choose|i: int|
                0 <= i < more.len() + k && (#[trigger] (more + rest)[i]).ip_addr == rest[k].ip_addr;
            assert((found + answer)[i].ip_addr == answer[k + 1].ip_addr);
        }
        assert(takes_in(found, answer, k + 1, after, goes_on));
    }
}

/// Two texts are equal, where an ASCII capital equals its small letter.
pub open spec fn equal_but_case(a: Seq<char>, b: Seq<char>) -> bool {
    &&& a.len() == b.len()
    &&& forall|i: int|
        0 <= i < a.len() ==> {
            let x = (#[trigger] a[i]) as int;
            let y = b[i] as int;
            ||| x == y
            ||| 65 <= x <= 90 && y == x + 32
            ||| 65 <= y <= 90 && x == y + 32
        }
}

/// The text is put together from something, `matcher` in any case, and something.
pub open spec fn mentions(text: Seq<char>, matcher: Seq<char>) -> bool {
    exists|p: Seq<char>, x: Seq<char>, q: Seq<char>|
        text == #[trigger] (p + x + q) && equal_but_case(x, matcher)
}

/// Texts are equal in small letters exactly where they are equal but for the case.
proof fn small_letters_forget_the_case(a: Seq<char>, b: Seq<char>)
    ensures
        ascii_lower(a) == ascii_lower(b) <==> equal_but_case(a, b),
{
    only_ascii_capitals_are_made_small(a);
    only_ascii_capitals_are_made_small(b);
    if ascii_lower(a) == ascii_lower(b) {
        assert forall|i: int| 0 <= i < a.len() implies {
            let x = (#[trigger] a[i]) as int;
            let y = b[i] as int;
            ||| x == y
            ||| 65 <= x <= 90 && y == x + 32
            ||| 65 <= y <= 90 && x == y + 32
        } by {
            assert(ascii_lower(a)[i] == ascii_lower(b)[i]);
        }
    }
    if equal_but_case(a, b) {
        assert forall|i: int| 0 <= i < a.len() implies ascii_lower(a)[i] == ascii_lower(b)[i] by {
            let x = a[i] as int;
            let y = b[i] as int;
            assert(x == y || (65 <= x <= 90 && y == x + 32) || (65 <= y <= 90 && x == y + 32));
            assert(ascii_lower(a)[i] as int == ascii_lower(b)[i] as int);
        }
        assert(ascii_lower(a) =~= ascii_lower(b));
    }
}

/// A text in small letters holds another exactly where it mentions it.
proof fn holding_is_mentioning(text: Seq<char>, matcher: Seq<char>)
    ensures
        has_text(ascii_lower(text), ascii_lower(matcher)) <==> mentions(text, matcher),
{
    let t = ascii_lower(text);
    let m = ascii_lower(matcher);
    if has_text(t, m) {
        let at = choose|at: int| occurs_at(t, m, at);
        let p = text.take(at);
        let x = text.subrange(at, at + m.len());
        let q = text.skip(at + m.len());
        assert(ascii_lower(x) =~= t.subrange(at, at + m.len()));
        small_letters_forget_the_case(x, matcher);
        assert(text =~= p + x + q);
    }
    if mentions(text, matcher) {
        let (p, x, q) = choose|p: Seq<char>, x: Seq<char>, q: Seq<char>|
            text == #[trigger] (p + x + q) && equal_but_case(x, matcher);
        small_letters_forget_the_case(x, matcher);
        assert(t.subrange(p.len() as int, (p.len() + m.len()) as int) =~= ascii_lower(x));
        assert(occurs_at(t, m, p.len() as int));
    }
}

/// A device matches a text exactly where its name or its model is something, the text in any
/// case, and something.
pub proof fn matching_is_being_mentioned(device: DeviceView, matcher: Seq<char>)
    ensures
        is_match(device, matcher) <==> mentions(device.name, matcher) || mentions(
            device.model,
            matcher,
        ),
{
    holding_is_mentioning(device.name, matcher);
    holding_is_mentioning(device.model, matcher);
}

/// A text chooses the first device whose name or model mentions it, and none only where no
/// device does.
pub proof fn choice_is_the_first_that_mentions(devices: Seq<DeviceView>, matcher: Seq<char>)
    ensures
        match selected(devices, Some(matcher)) {
            Some(device) => exists|i: int|
                {
                    &&& 0 <= i < devices.len()
                    &&& #[trigger] devices[i] == device
                    &&& mentions(device.name, matcher) || mentions(device.model, matcher)
                    &&& forall|j: int|
                        0 <= j < i ==> !mentions((#[trigger] devices[j]).name, matcher)
                            && !mentions(devices[j].model, matcher)
                },
            None => forall|j: int|
                0 <= j < devices.len() ==> !mentions((#[trigger] devices[j]).name, matcher)
                    && !mentions(devices[j].model, matcher),
        },
        selected(devices, None) is Some <==> devices.len() > 0,
        devices.len() > 0 ==> selected(devices, None) == Some(devices[0]),
{
    choice_is_the_first_match(devices, matcher, 0);
    assert forall|j: int| 0 <= j < devices.len() implies is_match(#[trigger] devices[j], matcher)
        == (mentions(devices[j].name, matcher) || mentions(devices[j].model, matcher)) by {
        matching_is_being_mentioned(devices[j], matcher);
    }
    if let Some(device) = selected(devices, Some(matcher)) {
        let i = choose|i: int|
            0 <= i < devices.len() && #[trigger] devices[i] == device && is_match(device, matcher)
                && forall|j: int| 0 <= j < i ==> !is_match(#[trigger] devices[j], matcher);
        assert(devices[i] == device);
    }
}

/// Whatever stands around the text in the name or the model of a device, there is a device that
/// the text chooses.
pub proof fn mentioned_text_chooses_a_device(
    devices: Seq<DeviceView>,
    k: int,
    p: Seq<char>,
    matcher: Seq<char>,
    q: Seq<char>,
)
    requires
        0 <= k < devices.len(),
        devices[k].name == p + matcher + q || devices[k].model == p + matcher + q,
    ensures
        selected(devices, Some(matcher)) is Some,
{
    choice_is_the_first_that_mentions(devices, matcher);
    assert(equal_but_case(matcher, matcher));
    let device = devices[k];
    assert(mentions(device.name, matcher) || mentions(device.model, matcher));
}

/// The error in words says how many devices there were and which text none of them matches.
pub proof fn errors_say_what_was_looked_for(error: SelectionError)
    ensures
        match error {
            SelectionError::NoMatch { length, matcher } => exists|n: Seq<char>|
                error.text() == #[trigger] ("none of the "@ + n) + " Cast devices matches “"@
                    + matcher@ + "”"@ && numeral_value(n) == length && (n.len() > 1 ==> n[0]
                    != '0'),
            SelectionError::NoDevices => error.text() == "no Cast devices found"@,
        },
{
    if let SelectionError::NoMatch { length, matcher } = error {
        let n = decimal(length as nat);
        numerals_are_read_back(length as nat);
        assert(error.text() == ("none of the "@ + n) + " Cast devices matches “"@ + matcher@
            + "”"@);
    }
}

} // verus!
