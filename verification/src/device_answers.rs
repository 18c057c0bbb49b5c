//! Which devices an answer tells of, said of its records alone: by how their texts are put
//! together and by which of them stand last.

use vstd::prelude::*;

use crate::device::{
    address_by_id, attributes_by_id, attributes_for, attributes_of, device_id, device_views,
    devices_in, id_by_host, is_cast_name, located, located_ids, located_ids_are_the_addressed,
    CastDevice, DeviceView, IpAddr, Record, RecordKind,
};
use crate::text::{first_occurrence, first_occurrence_is_least, occurs_at};
use crate::text_laws::{
    head_ends_where_the_pattern_begins, held_text_stands_between_two_others,
};

verus! {

/// `piece` stands somewhere in `s`.
pub open spec fn holds(s: Seq<char>, piece: Seq<char>) -> bool {
    exists|p: Seq<char>, q: Seq<char>| s == #[trigger] (p + piece + q)
}

/// The name is one of the cast service, and `instance` is what it says before the service.
pub open spec fn names(name: Seq<char>, instance: Seq<char>) -> bool {
    &&& holds(name, "._googlecast._tcp.local"@)
    &&& !holds(instance, "._googlecast"@)
    &&& (instance + "._googlecast"@).is_prefix_of(name)
}

/// The record says that `instance` runs on `host`.
pub open spec fn says_host(r: Record, host: Seq<char>, instance: Seq<char>) -> bool {
    names(r.name@, instance) && match r.kind {
        RecordKind::SRV { target } => target@ == host,
        _ => false,
    }
}

/// Of the first `n` records, the last that says what runs on `host` says that `instance` does.
pub open spec fn runs_on(records: Seq<Record>, n: int, host: Seq<char>, instance: Seq<char>) -> bool {
    exists|s: int|
        0 <= s < n && #[trigger] says_host(records[s], host, instance) && forall|t: int, j: Seq<char>|
            s < t < n ==> !#[trigger] says_host(records[t], host, j)
}

/// The record at `a` gives the address of a host on which, by the records before it, `instance`
/// runs.
pub open spec fn gives_address(records: Seq<Record>, a: int, instance: Seq<char>, bits: u32) -> bool {
    &&& 0 <= a < records.len()
    &&& records[a].kind == RecordKind::A(bits)
    &&& runs_on(records, a, records[a].name@, instance)
}

/// The last record that gives an address of `instance` gives this one.
pub open spec fn is_at(records: Seq<Record>, instance: Seq<char>, bits: u32) -> bool {
    exists|a: int| #[trigger]
        gives_address(records, a, instance, bits) && forall|b: int, other: u32|
            a < b ==> !#[trigger] gives_address(records, b, instance, other)
}

/// The last of the strings that begins with `key` and an equals sign goes on with `value`.
pub open spec fn lists_last(values: Seq<String>, key: Seq<char>, value: Seq<char>) -> bool {
    exists|v: int|
        0 <= v < values.len() && #[trigger] values[v]@ == key + "="@ + value && forall|w: int|
            v < w < values.len() ==> !(key + "="@).is_prefix_of(#[trigger] values[w]@)
}

/// The record at `t` is the last TXT record of `instance`.
pub open spec fn is_last_txt(records: Seq<Record>, t: int, instance: Seq<char>) -> bool {
    &&& 0 <= t < records.len()
    &&& records[t].kind is TXT
    &&& names(records[t].name@, instance)
    &&& forall|u: int|
        t < u < records.len() && (#[trigger] records[u]).kind is TXT ==> !names(
            records[u].name@,
            instance,
        )
}

/// The last TXT record of `instance` gives `key` that value, none of its later strings another.
pub open spec fn has_attribute(
    records: Seq<Record>,
    instance: Seq<char>,
    key: Seq<char>,
    value: Seq<char>,
) -> bool {
    exists|t: int| #[trigger]
        is_last_txt(records, t, instance) && match records[t].kind {
            RecordKind::TXT(values) => lists_last(values@, key, value),
            _ => false,
        }
}

/// The device is `instance`, at its address, with the model, name and status of its attributes.
pub open spec fn is_device(records: Seq<Record>, instance: Seq<char>, device: DeviceView) -> bool {
    &&& exists|bits: u32|
        device.ip_addr == IpAddr::V4(bits) && #[trigger] is_at(records, instance, bits)
    &&& forall|x: Seq<char>| #[trigger]
        has_attribute(records, instance, "md"@, x) ==> device.model == x
    &&& forall|x: Seq<char>| #[trigger]
        has_attribute(records, instance, "fn"@, x) ==> device.name == x
    &&& forall|x: Seq<char>| #[trigger]
        has_attribute(records, instance, "rs"@, x) ==> device.status == if x.len() > 0 {
            Some(x)
        } else {
            None
        }
    &&& (forall|x: Seq<char>| !#[trigger] has_attribute(records, instance, "md"@, x))
        ==> device.model.len() == 0
    &&& (forall|x: Seq<char>| !#[trigger] has_attribute(records, instance, "fn"@, x))
        ==> device.name.len() == 0
    &&& (forall|x: Seq<char>| !#[trigger] has_attribute(records, instance, "rs"@, x))
        ==> device.status is None
}

/// The service begins nowhere before the end of an instance that does not hold it.
proof fn instance_before_service(instance: Seq<char>, rest: Seq<char>)
    requires
        !holds(instance, "._googlecast"@),
    ensures
        device_id(instance + "._googlecast"@ + rest) == instance,
{
    reveal_strlit("._googlecast");
    let pat = "._googlecast"@;
    let s = instance + pat + rest;
    assert forall|p: Seq<char>, q: Seq<char>| #[trigger] (p + pat + q) == s implies instance.len()
        <= p.len() by {
        let w = p + pat + q;
        if p.len() < instance.len() {
            if p.len() + pat.len() <= instance.len() {
                let rest_of = instance.skip((p.len() + pat.len()) as int);
                assert forall|i: int| 0 <= i < instance.len() implies instance[i] == (p + pat
                    + rest_of)[i] by {
                    assert(s[i] == instance[i]);
                    assert(w[i] == s[i]);
                }
                assert(instance =~= p + pat + rest_of);
            } else {
                let k = instance.len() as int;
                assert(s[k] == pat[0]);
                assert(w[k] == pat[k - p.len()]);
                assert(pat[k - p.len()] == '.');
            }
        }
    }
    head_ends_where_the_pattern_begins(instance, pat, rest);
}

/// What stands before the service in a name of it is the instance.
proof fn device_of_a_name(name: Seq<char>, instance: Seq<char>)
    ensures
        names(name, instance) <==> is_cast_name(name) && device_id(name) == instance,
{
    let pat = "._googlecast"@;
    held_text_stands_between_two_others(name, "._googlecast._tcp.local"@);
    if names(name, instance) {
        let rest = name.skip((instance + pat).len() as int);
        assert(name =~= instance + pat + rest);
        instance_before_service(instance, rest);
    }
    if is_cast_name(name) && device_id(name) == instance {
        reveal_strlit("._googlecast");
        reveal_strlit("._googlecast._tcp.local");
        let long = "._googlecast._tcp.local"@;
        let at = choose|at: int| occurs_at(name, long, at);
        assert(name.subrange(at, at + pat.len()) =~= pat) by {
            assert(long.take(12) =~= pat);
            assert forall|i: int| 0 <= i < 12 implies name[at + i] == pat[i] by {
                assert(name.subrange(at, at + long.len())[i] == name[at + i]);
                assert(long.take(12)[i] == long[i]);
            }
        }
        assert(occurs_at(name, pat, at));
        first_occurrence_is_least(name, pat, 0);
        let first = first_occurrence(name, pat, 0).unwrap();
        assert(instance == name.take(first));
        assert forall|i: int| 0 <= i < (instance + pat).len() implies (instance + pat)[i]
            == name[i] by {
            if i >= first {
                assert(name.subrange(first, first + pat.len())[i - first] == name[i]);
            }
        }
        assert((instance + pat).is_prefix_of(name));
        if holds(instance, pat) {
            let (p, q) = choose|p: Seq<char>, q: Seq<char>| instance == #[trigger] (p + pat + q);
            assert(name.subrange(p.len() as int, (p.len() + pat.len()) as int) =~= pat) by {
                assert forall|i: int| 0 <= i < pat.len() implies name[p.len() + i] == pat[i] by {
                    assert((p + pat + q)[p.len() + i] == pat[i]);
                    assert(instance[p.len() + i] == name[p.len() + i]);
                }
            }
            assert(occurs_at(name, pat, p.len() as int));
        }
    }
}

/// The device of a name of the cast service is the instance that stands before the service;
/// different instances are different devices.
pub proof fn instances_are_kept_apart(instance: Seq<char>)
    requires
        !holds(instance, "._googlecast"@),
    ensures
        is_cast_name(instance + "._googlecast._tcp.local"@),
        device_id(instance + "._googlecast._tcp.local"@) == instance,
{
    reveal_strlit("._googlecast");
    reveal_strlit("._googlecast._tcp.local");
    let name = instance + "._googlecast._tcp.local"@;
    assert("._googlecast._tcp.local"@.take(12) =~= "._googlecast"@);
    assert(name =~= instance + "._googlecast._tcp.local"@ + Seq::<char>::empty());
    assert((instance + "._googlecast"@).is_prefix_of(name)) by {
        assert forall|i: int| 0 <= i < (instance + "._googlecast"@).len() implies (instance
            + "._googlecast"@)[i] == name[i] by {
            if i >= instance.len() {
                assert("._googlecast._tcp.local"@.take(12)[i - instance.len()]
                    == "._googlecast._tcp.local"@[i - instance.len()]);
            }
        }
    }
    device_of_a_name(name, instance);
}

/// What runs on a host is what was said last.
proof fn host_by_last_record(records: Seq<Record>, host: Seq<char>, instance: Seq<char>)
    ensures
        runs_on(records, records.len() as int, host, instance) <==> id_by_host(
            records,
        ).contains_key(host) && id_by_host(records)[host] == instance,
    decreases records.len(),
{
    let n = records.len() as int;
    if n > 0 {
        let before = records.drop_last();
        let last = records.last();
        host_by_last_record(before, host, instance);
        device_of_a_name(last.name@, instance);
        let id = device_id(last.name@);
        device_of_a_name(last.name@, id);
        assert forall|j: Seq<char>| says_host(last, host, j) implies says_host(last, host, id) by {
            device_of_a_name(last.name@, j);
        }
        if says_host(last, host, id) {
            assert(says_host(records[n - 1], host, id));
            if runs_on(records, n, host, instance) {
                let s = choose|s: int|
                    0 <= s < n && #[trigger] says_host(records[s], host, instance) && forall|
                        t: int,
                        j: Seq<char>,
                    |
                        s < t < n ==> !#[trigger] says_host(records[t], host, j);
                assert(s == n - 1);
            }
        } else {
            assert(forall|t: int| 0 <= t < n - 1 ==> before[t] == #[trigger] records[t]);
            if runs_on(records, n, host, instance) {
                let s = choose|s: int|
                    0 <= s < n && #[trigger] says_host(records[s], host, instance) && forall|
                        t: int,
                        j: Seq<char>,
                    |
                        s < t < n ==> !#[trigger] says_host(records[t], host, j);
                assert(says_host(before[s], host, instance));
                assert forall|t: int, j: Seq<char>| s < t < n - 1 implies !#[trigger] says_host(
                    before[t],
                    host,
                    j,
                ) by {
                    assert(!says_host(records[t], host, j));
                }
                assert(runs_on(before, n - 1, host, instance));
            }
            if runs_on(before, n - 1, host, instance) {
                let s = choose|s: int|
                    0 <= s < n - 1 && #[trigger] says_host(before[s], host, instance) && forall|
                        t: int,
                        j: Seq<char>,
                    |
                        s < t < n - 1 ==> !#[trigger] says_host(before[t], host, j);
                assert(says_host(records[s], host, instance));
                assert forall|t: int, j: Seq<char>| s < t < n implies !#[trigger] says_host(
                    records[t],
                    host,
                    j,
                ) by {
                    if t < n - 1 {
                        assert(!says_host(before[t], host, j));
                    }
                }
            }
        }
    }
}

/// A record gives an address by what the records before it say.
proof fn address_by_records_before(records: Seq<Record>, a: int, instance: Seq<char>, bits: u32)
    requires
        0 <= a < records.len(),
    ensures
        gives_address(records, a, instance, bits) <==> located(records.take(a), records[a])
            == Some((instance, IpAddr::V4(bits))),
{
    let before = records.take(a);
    let host = records[a].name@;
    host_by_last_record(before, host, instance);
    assert(forall|t: int| 0 <= t < a ==> before[t] == #[trigger] records[t]);
    if runs_on(records, a, host, instance) {
        let s = choose|s: int|
            0 <= s < a && #[trigger] says_host(records[s], host, instance) && forall|
                t: int,
                j: Seq<char>,
            |
                s < t < a ==> !#[trigger] says_host(records[t], host, j);
        assert(says_host(before[s], host, instance));
        assert forall|t: int, j: Seq<char>| s < t < a implies !#[trigger] says_host(
            before[t],
            host,
            j,
        ) by {
            assert(!says_host(records[t], host, j));
        }
    }
    if runs_on(before, a, host, instance) {
        let s = choose|s: int|
            0 <= s < a && #[trigger] says_host(before[s], host, instance) && forall|
                t: int,
                j: Seq<char>,
            |
                s < t < a ==> !#[trigger] says_host(before[t], host, j);
        assert(says_host(records[s], host, instance));
        assert forall|t: int, j: Seq<char>| s < t < a implies !#[trigger] says_host(
            records[t],
            host,
            j,
        ) by {
            assert(!says_host(before[t], host, j));
        }
    }
}

/// The address of a device is the one that was given last.
proof fn address_by_last_record(records: Seq<Record>, instance: Seq<char>, bits: u32)
    ensures
        is_at(records, instance, bits) <==> address_by_id(records).contains_key(instance)
            && address_by_id(records)[instance] == IpAddr::V4(bits),
    decreases records.len(),
{
    let n = records.len() as int;
    if n > 0 {
        let before = records.drop_last();
        let last = records.last();
        address_by_last_record(before, instance, bits);
        assert forall|a: int, x: u32| 0 <= a < n - 1 implies gives_address(records, a, instance, x)
            == #[trigger] gives_address(before, a, instance, x) by {
            address_by_records_before(records, a, instance, x);
            address_by_records_before(before, a, instance, x);
            assert(before.take(a) =~= records.take(a));
        }
        assert(records.take(n - 1) =~= before);
        assert forall|x: u32| #[trigger] gives_address(records, n - 1, instance, x) <==> located(
            before,
            last,
        ) == Some((instance, IpAddr::V4(x))) by {
            address_by_records_before(records, n - 1, instance, x);
        }
        if is_at(records, instance, bits) {
            let a = choose|a: int| #[trigger]
                gives_address(records, a, instance, bits) && forall|b: int, other: u32|
                    a < b ==> !#[trigger] gives_address(records, b, instance, other);
            if a < n - 1 {
                assert(gives_address(before, a, instance, bits));
                assert forall|b: int, other: u32| a < b implies !#[trigger] gives_address(
                    before,
                    b,
                    instance,
                    other,
                ) by {
                    assert(!gives_address(records, b, instance, other));
                }
                if let Some((id, ip)) = located(before, last) {
                    if id == instance {
                        let x = ip->V4_0;
                        assert(gives_address(records, n - 1, instance, x));
                    }
                }
            }
        }
        if address_by_id(records).contains_key(instance) && address_by_id(records)[instance]
            == IpAddr::V4(bits) {
            if located(before, last) == Some((instance, IpAddr::V4(bits))) {
                assert(gives_address(records, n - 1, instance, bits));
                assert(is_at(records, instance, bits));
            } else {
                let a = choose|a: int| #[trigger]
                    gives_address(before, a, instance, bits) && forall|b: int, other: u32|
                        a < b ==> !#[trigger] gives_address(before, b, instance, other);
                assert(gives_address(records, a, instance, bits));
                assert forall|b: int, other: u32| a < b implies !#[trigger] gives_address(
                    records,
                    b,
                    instance,
                    other,
                ) by {
                    if b < n - 1 {
                        assert(!gives_address(before, b, instance, other));
                    } else if b == n - 1 && gives_address(records, b, instance, other) {
                        assert(address_by_id(records)[instance] == IpAddr::V4(other));
                    }
                }
            }
        }
    }
}

/// A string that begins with a key and an equals sign is an attribute of that key.
proof fn attribute_by_prefix(txt: Seq<char>, key: Seq<char>)
    requires
        forall|i: int| 0 <= i < key.len() ==> key[i] != '=',
    ensures
        (key + "="@).is_prefix_of(txt) <==> first_occurrence(txt, "="@, 0) is Some && txt.take(
            first_occurrence(txt, "="@, 0).unwrap(),
        ) == key,
        (key + "="@).is_prefix_of(txt) ==> first_occurrence(txt, "="@, 0) == Some(key.len() as int)
            && txt == key + "="@ + txt.skip(key.len() + 1int),
        forall|x: Seq<char>| txt == #[trigger] (key + "="@ + x) ==> (key + "="@).is_prefix_of(txt)
            && txt.skip(key.len() + 1int) == x,
{
    reveal_strlit("=");
    first_occurrence_is_least(txt, "="@, 0);
    let k = key.len() as int;
    let start = key + "="@;
    assert forall|x: Seq<char>| txt == #[trigger] (key + "="@ + x) implies start.is_prefix_of(txt)
        && txt.skip(key.len() + 1int) == x by {
        assert(txt.skip(key.len() + 1int) =~= x);
    }
    if start.is_prefix_of(txt) {
        assert(start[k] == '=' && txt[k] == start[k]);
        assert(txt.subrange(k, k + 1) =~= "="@);
        assert(occurs_at(txt, "="@, k));
        let at = first_occurrence(txt, "="@, 0).unwrap();
        if at < k {
            assert(txt.subrange(at, at + 1)[0] == '=');
            assert(start[at] == key[at] && txt[at] == start[at]);
        }
        assert(at == k);
        assert(txt.take(k) =~= key) by {
            assert forall|i: int| 0 <= i < k implies txt[i] == key[i] by {
                assert(start[i] == key[i] && txt[i] == start[i]);
            }
        }
        assert(txt =~= key + "="@ + txt.skip(k + 1));
    }
    if first_occurrence(txt, "="@, 0) is Some && txt.take(
        first_occurrence(txt, "="@, 0).unwrap(),
    ) == key {
        let at = first_occurrence(txt, "="@, 0).unwrap();
        assert(at == k);
        assert(txt.subrange(at, at + 1)[0] == '=');
        assert forall|i: int| 0 <= i < start.len() implies start[i] == txt[i] by {
            if i < k {
                assert(txt.take(at)[i] == txt[i]);
            }
        }
    }
}

/// The value of an attribute is the one that was listed last.
proof fn attribute_by_last_string(values: Seq<String>, key: Seq<char>, value: Seq<char>)
    requires
        forall|i: int| 0 <= i < key.len() ==> key[i] != '=',
    ensures
        lists_last(values, key, value) <==> attributes_of(values).contains_key(key)
            && attributes_of(values)[key] == value,
    decreases values.len(),
{
    let n = values.len() as int;
    if n > 0 {
        let before = values.drop_last();
        let txt = values.last()@;
        attribute_by_last_string(before, key, value);
        attribute_by_prefix(txt, key);
        assert(forall|w: int| 0 <= w < n - 1 ==> before[w] == #[trigger] values[w]);
        if (key + "="@).is_prefix_of(txt) {
            assert(attributes_of(values)[key] == txt.skip(key.len() + 1int));
            if lists_last(values, key, value) {
                let v = choose|v: int|
                    0 <= v < n && #[trigger] values[v]@ == key + "="@ + value && forall|w: int|
                        v < w < n ==> !(key + "="@).is_prefix_of(#[trigger] values[w]@);
                if v < n - 1 {
                    assert(!(key + "="@).is_prefix_of(values[n - 1]@));
                }
            }
            if txt.skip(key.len() + 1int) == value {
                assert(values[n - 1]@ == key + "="@ + value);
                assert(lists_last(values, key, value));
            }
        } else {
            if lists_last(values, key, value) {
                let v = choose|v: int|
                    0 <= v < n && #[trigger] values[v]@ == key + "="@ + value && forall|w: int|
                        v < w < n ==> !(key + "="@).is_prefix_of(#[trigger] values[w]@);
                assert(v < n - 1);
                assert(before[v]@ == key + "="@ + value);
                assert forall|w: int| v < w < n - 1 implies !(key + "="@).is_prefix_of(
                    #[trigger] before[w]@,
                ) by {
                    assert(!(key + "="@).is_prefix_of(values[w]@));
                }
                assert(lists_last(before, key, value));
            }
            if lists_last(before, key, value) {
                let v = choose|v: int|
                    0 <= v < n - 1 && #[trigger] before[v]@ == key + "="@ + value && forall|w: int|
                        v < w < n - 1 ==> !(key + "="@).is_prefix_of(#[trigger] before[w]@);
                assert(values[v]@ == key + "="@ + value);
                assert forall|w: int| v < w < n implies !(key + "="@).is_prefix_of(
                    #[trigger] values[w]@,
                ) by {
                    if w < n - 1 {
                        assert(!(key + "="@).is_prefix_of(before[w]@));
                    }
                }
            }
        }
    }
}

/// The attributes of a device are those of its last TXT record.
proof fn attributes_by_last_record(records: Seq<Record>, instance: Seq<char>)
    ensures
        attributes_by_id(records).contains_key(instance) <==> exists|t: int| #[trigger]
            is_last_txt(records, t, instance),
        forall|t: int| #[trigger]
            is_last_txt(records, t, instance) ==> attributes_by_id(records)[instance]
                == attributes_of(records[t].kind->TXT_0@),
    decreases records.len(),
{
    let n = records.len() as int;
    if n > 0 {
        let before = records.drop_last();
        let last = records.last();
        attributes_by_last_record(before, instance);
        device_of_a_name(last.name@, instance);
        assert(forall|u: int| 0 <= u < n - 1 ==> before[u] == #[trigger] records[u]);
        if last.kind is TXT && names(last.name@, instance) {
            assert(is_last_txt(records, n - 1, instance));
            assert forall|t: int| #[trigger] is_last_txt(records, t, instance) implies t
                == n - 1 by {
                if t < n - 1 {
                    assert(records[n - 1].kind is TXT);
                }
            }
        } else {
            assert forall|t: int| #[trigger] is_last_txt(records, t, instance) <==> is_last_txt(
                before,
                t,
                instance,
            ) by {
                if is_last_txt(records, t, instance) {
                    assert(t < n - 1);
                    assert forall|u: int|
                        t < u < n - 1 && (#[trigger] before[u]).kind is TXT implies !names(
                        before[u].name@,
                        instance,
                    ) by {
                        assert(records[u].kind is TXT);
                    }
                }
                if is_last_txt(before, t, instance) {
                    assert forall|u: int|
                        t < u < n && (#[trigger] records[u]).kind is TXT implies !names(
                        records[u].name@,
                        instance,
                    ) by {
                        if u < n - 1 {
                            assert(before[u].kind is TXT);
                        }
                    }
                }
            }
            if exists|t: int| #[trigger] is_last_txt(before, t, instance) {
                let t = choose|t: int| #[trigger] is_last_txt(before, t, instance);
                assert(is_last_txt(records, t, instance));
            }
        }
    }
}

/// A device has the attributes that its last TXT record lists.
proof fn attribute_of_a_device(
    records: Seq<Record>,
    instance: Seq<char>,
    key: Seq<char>,
    value: Seq<char>,
)
    requires
        forall|i: int| 0 <= i < key.len() ==> key[i] != '=',
    ensures
        has_attribute(records, instance, key, value) <==> attributes_for(
            records,
            instance,
        ).contains_key(key) && attributes_for(records, instance)[key] == value,
{
    attributes_by_last_record(records, instance);
    if exists|t: int| #[trigger] is_last_txt(records, t, instance) {
        assert forall|t: int| #[trigger] is_last_txt(records, t, instance) implies (match records[t].kind {
            RecordKind::TXT(values) => lists_last(values@, key, value),
            _ => false,
        }) == (attributes_for(records, instance).contains_key(key) && attributes_for(
            records,
            instance,
        )[key] == value) by {
            attribute_by_last_string(records[t].kind->TXT_0@, key, value);
        }
    }
}

/// A device that an answer tells of is the one that its records describe.
proof fn device_is_as_described(records: Seq<Record>, k: int)
    requires
        0 <= k < devices_in(records).len(),
    ensures
        is_device(records, located_ids(records)[k], devices_in(records)[k]),
{
    reveal_strlit("md");
    reveal_strlit("fn");
    reveal_strlit("rs");
    let id = located_ids(records)[k];
    let device = devices_in(records)[k];
    let known = attributes_for(records, id);
    located_ids_are_the_addressed(records);
    assert(located_ids(records).contains(id));
    addresses_are_ipv4(records, id);
    let bits = address_by_id(records)[id]->V4_0;
    address_by_last_record(records, id, bits);
    assert(is_at(records, id, bits));
    assert forall|key: Seq<char>, x: Seq<char>| #[trigger]
        has_attribute(records, id, key, x) && (key == "md"@ || key == "fn"@ || key
            == "rs"@) implies known.contains_key(key) && known[key] == x by {
        attribute_of_a_device(records, id, key, x);
    }
    attribute_of_a_device(records, id, "md"@, known["md"@]);
    attribute_of_a_device(records, id, "fn"@, known["fn"@]);
    attribute_of_a_device(records, id, "rs"@, known["rs"@]);
}

/// Every address comes from an A record.
proof fn addresses_are_ipv4(records: Seq<Record>, id: Seq<char>)
    requires
        address_by_id(records).contains_key(id),
    ensures
        address_by_id(records)[id] is V4,
    decreases records.len(),
{
    let before = records.drop_last();
    if address_by_id(before).contains_key(id) {
        addresses_are_ipv4(before, id);
    }
}

/// An answer tells of each instance of the cast service that has an address, of each once, and
/// of nothing else; each device has its own instance's last address, and the model, name and
/// status that the instance's own last TXT record lists last.
pub proof fn devices_are_the_addressed_instances(records: Seq<Record>)
    ensures
        exists|instances: Seq<Seq<char>>|
            {
                &&& instances.no_duplicates()
                &&& instances.len() == devices_in(records).len()
                &&& forall|k: int|
                    0 <= k < instances.len() ==> is_device(
                        records,
                        #[trigger] instances[k],
                        devices_in(records)[k],
                    )
                &&& forall|instance: Seq<char>, bits: u32| #[trigger]
                    is_at(records, instance, bits) ==> instances.contains(instance)
            },
{
    let instances = located_ids(records);
    located_ids_are_the_addressed(records);
    assert forall|k: int| 0 <= k < instances.len() implies is_device(
        records,
        #[trigger] instances[k],
        devices_in(records)[k],
    ) by {
        device_is_as_described(records, k);
    }
    assert forall|instance: Seq<char>, bits: u32| #[trigger]
        is_at(records, instance, bits) implies instances.contains(instance) by {
        address_by_last_record(records, instance, bits);
    }
}

/// An instance whose host was announced and then got an address is found at that address: the
/// SRV record at `srv` names the host, the A record at `a` behind it gives the address, no SRV
/// record between them speaks of that host, and none behind the address gives another one of a
/// host on which the instance was said to run.
pub proof fn announced_instances_are_found(
    records: Seq<Record>,
    instance: Seq<char>,
    srv: int,
    a: int,
    bits: u32,
)
    requires
        !holds(instance, "._googlecast"@),
        0 <= srv < a < records.len(),
        records[srv].name@ == instance + "._googlecast._tcp.local"@,
        records[srv].kind is SRV,
        records[srv].kind->target@ == records[a].name@,
        records[a].kind == RecordKind::A(bits),
        forall|k: int|
            srv < k < a && (#[trigger] records[k]).kind is SRV ==> records[k].kind->target@
                != records[a].name@,
        forall|k: int, j: int|
            a < k < records.len() && 0 <= j < k && (#[trigger] records[k]).kind is A
                && (#[trigger] records[j]).kind is SRV && records[j].kind->target@
                == records[k].name@ ==> !(instance + "._googlecast"@).is_prefix_of(
                records[j].name@,
            ),
    ensures
        exists|d: int|
            0 <= d < devices_in(records).len() && (#[trigger] devices_in(records)[d]).ip_addr
                == IpAddr::V4(bits) && is_device(records, instance, devices_in(records)[d]),
{
    let host = records[a].name@;
    instances_are_kept_apart(instance);
    device_of_a_name(records[srv].name@, instance);
    assert(says_host(records[srv], host, instance));
    assert forall|t: int, j: Seq<char>| srv < t < a implies !#[trigger] says_host(
        records[t],
        host,
        j,
    ) by {
        if says_host(records[t], host, j) {
            assert(records[t].kind is SRV);
        }
    }
    assert(gives_address(records, a, instance, bits));
    assert forall|b: int, other: u32| a < b implies !#[trigger] gives_address(
        records,
        b,
        instance,
        other,
    ) by {
        if gives_address(records, b, instance, other) {
            let there = records[b].name@;
            let s = choose|s: int|
                0 <= s < b && #[trigger] says_host(records[s], there, instance) && forall|
                    t: int,
                    j: Seq<char>,
                |
                    s < t < b ==> !#[trigger] says_host(records[t], there, j);
            assert(records[b].kind is A && records[s].kind is SRV);
            assert(false);
        }
    }
    assert(is_at(records, instance, bits));
    address_by_last_record(records, instance, bits);
    located_ids_are_the_addressed(records);
    let ids = located_ids(records);
    assert(ids.contains(instance));
    let d = choose|d: int| 0 <= d < ids.len() && ids[d] == instance;
    device_is_as_described(records, d);
    assert(devices_in(records)[d].ip_addr == IpAddr::V4(bits));
}

/// The last TXT record of an instance gives it the attributes that it lists: the record at `t`
/// has the name of the instance, none behind it has, and the string at `v` is the last of it
/// that begins with the key and an equals sign.
pub proof fn listed_attribute_is_had(
    records: Seq<Record>,
    instance: Seq<char>,
    t: int,
    v: int,
    key: Seq<char>,
    value: Seq<char>,
)
    requires
        !holds(instance, "._googlecast"@),
        0 <= t < records.len(),
        records[t].name@ == instance + "._googlecast._tcp.local"@,
        records[t].kind is TXT,
        forall|u: int|
            t < u < records.len() && (#[trigger] records[u]).kind is TXT ==> !(instance
                + "._googlecast"@).is_prefix_of(records[u].name@),
        0 <= v < records[t].kind->TXT_0@.len(),
        records[t].kind->TXT_0@[v]@ == key + "="@ + value,
        forall|w: int|
            v < w < records[t].kind->TXT_0@.len() ==> !(key + "="@).is_prefix_of(
                #[trigger] records[t].kind->TXT_0@[w]@,
            ),
    ensures
        has_attribute(records, instance, key, value),
{
    instances_are_kept_apart(instance);
    device_of_a_name(records[t].name@, instance);
    assert(is_last_txt(records, t, instance));
    assert(lists_last(records[t].kind->TXT_0@, key, value));
}

/// The view of a device leaves nothing out, and that of a list no device.
pub proof fn views_leave_nothing_out(devices: Seq<CastDevice>)
    ensures
        device_views(devices).len() == devices.len(),
        forall|i: int|
            0 <= i < devices.len() ==> {
                let view = #[trigger] device_views(devices)[i];
                &&& view.ip_addr == devices[i].ip_addr
                &&& view.model == devices[i].model@
                &&& view.name == devices[i].name@
                &&& view.status is Some <==> devices[i].status is Some
                &&& devices[i].status matches Some(s) ==> view.status == Some(s@)
            },
{
}

} // verus!
