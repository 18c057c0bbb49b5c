//! What holds of the devices read out of any list of records.

use vstd::prelude::*;

use crate::device::{
    Record, RecordKind, IpAddr, address_by_id, attributes_by_id, attributes_for, described,
    device_id, devices_in, id_by_host, is_cast_name, located, located_ids,
    located_ids_are_the_addressed,
};

verus! {

/// The record is a TXT record.
pub open spec fn is_txt(r: Record) -> bool {
    r.kind is TXT
}

/// The record can have a say in what devices are found: an address, or a TXT or SRV record of
/// the cast service.
pub open spec fn is_relevant(r: Record) -> bool {
    match r.kind {
        RecordKind::A(_) => true,
        RecordKind::SRV { .. } => is_cast_name(r.name@),
        RecordKind::TXT(_) => is_cast_name(r.name@),
        RecordKind::Other => false,
    }
}

/// The record places a device: it is an address, or an SRV record of the cast service.
spec fn places(r: Record) -> bool {
    match r.kind {
        RecordKind::A(_) => true,
        RecordKind::SRV { .. } => is_cast_name(r.name@),
        _ => false,
    }
}

/// Where a filter keeps all that places a device, but for addresses of hosts that no record
/// names, the devices are placed as before.
proof fn filter_keeps_places(records: Seq<Record>, keep: spec_fn(Record) -> bool)
    requires
        forall|r: Record| #[trigger]
            places(r) ==> keep(r) || (r.kind is A && !id_by_host(records).contains_key(r.name@)),
    ensures
        id_by_host(records.filter(keep)) == id_by_host(records),
        address_by_id(records.filter(keep)) == address_by_id(records),
        located_ids(records.filter(keep)) == located_ids(records),
    decreases records.len(),
{
    reveal(Seq::filter);
    if records.len() > 0 {
        let before = records.drop_last();
        let last = records.last();
        filter_keeps_places(before, keep);
        if keep(last) {
            assert(before.filter(keep).push(last).drop_last() =~= before.filter(keep));
        } else {
            assert(places(last) ==> last.kind is A && !id_by_host(records).contains_key(
                last.name@,
            ));
        }
    }
}

/// Where a filter keeps all TXT records of the cast service, the attributes are as before.
proof fn filter_keeps_attributes(records: Seq<Record>, keep: spec_fn(Record) -> bool)
    requires
        forall|r: Record| #[trigger] is_txt(r) && is_cast_name(r.name@) ==> keep(r),
    ensures
        attributes_by_id(records.filter(keep)) == attributes_by_id(records),
    decreases records.len(),
{
    reveal(Seq::filter);
    if records.len() > 0 {
        let before = records.drop_last();
        let last = records.last();
        filter_keeps_attributes(before, keep);
        if keep(last) {
            assert(before.filter(keep).push(last).drop_last() =~= before.filter(keep));
        } else {
            assert(!(is_txt(last) && is_cast_name(last.name@)));
        }
    }
}

/// Equal places and attributes give equal devices.
proof fn devices_from_parts(a: Seq<Record>, b: Seq<Record>)
    requires
        address_by_id(a) == address_by_id(b),
        located_ids(a) == located_ids(b),
        attributes_by_id(a) == attributes_by_id(b),
    ensures
        devices_in(a) == devices_in(b),
{
    assert(devices_in(a) =~= devices_in(b));
}

/// TXT records may stand anywhere: two lists with the same TXT records in the same order, and
/// the same other records in the same order, tell of the same devices.
pub proof fn txt_records_may_stand_anywhere(a: Seq<Record>, b: Seq<Record>)
    requires
        a.filter(|r: Record| is_txt(r)) == b.filter(|r: Record| is_txt(r)),
        a.filter(|r: Record| !is_txt(r)) == b.filter(|r: Record| !is_txt(r)),
    ensures
        devices_in(a) == devices_in(b),
{
    let txt = |r: Record| is_txt(r);
    let rest = |r: Record| !is_txt(r);
    filter_keeps_places(a, rest);
    filter_keeps_places(b, rest);
    filter_keeps_attributes(a, txt);
    filter_keeps_attributes(b, txt);
    devices_from_parts(a, b);
}

/// Records of other kinds, and SRV and TXT records of other services, change nothing.
pub proof fn irrelevant_records_change_nothing(records: Seq<Record>)
    ensures
        devices_in(records.filter(|r: Record| is_relevant(r))) == devices_in(records),
{
    let keep = |r: Record| is_relevant(r);
    filter_keeps_places(records, keep);
    filter_keeps_attributes(records, keep);
    devices_from_parts(records.filter(keep), records);
}

/// The addresses of hosts that no SRV record of the cast service names change nothing, wherever
/// they stand.
pub proof fn unnamed_hosts_change_nothing(records: Seq<Record>)
    ensures
        devices_in(
            records.filter(
                |r: Record| r.kind is A ==> id_by_host(records).contains_key(r.name@),
            ),
        ) == devices_in(records),
{
    let keep = |r: Record| r.kind is A ==> id_by_host(records).contains_key(r.name@);
    filter_keeps_places(records, keep);
    filter_keeps_attributes(records, keep);
    devices_from_parts(records.filter(keep), records);
}

/// The address of a host that no SRV record has named yet is lost.
pub proof fn unannounced_address_changes_nothing(records: Seq<Record>, address: Record)
    requires
        address.kind is A,
        !id_by_host(records).contains_key(address.name@),
    ensures
        devices_in(records.push(address)) == devices_in(records),
{
    assert(records.push(address).drop_last() =~= records);
    devices_from_parts(records.push(address), records);
}

/// A further address of a device takes the place of the former one, and of nothing else.
pub proof fn later_address_replaces(records: Seq<Record>, address: Record, at: int, ip: IpAddr)
    requires
        0 <= at < located_ids(records).len(),
        located(records, address) == Some((located_ids(records)[at], ip)),
    ensures
        devices_in(records.push(address)) == devices_in(records).update(
            at,
            described(ip, attributes_for(records, located_ids(records)[at])),
        ),
{
    let more = records.push(address);
    let ids = located_ids(records);
    assert(more.drop_last() =~= records);
    located_ids_are_the_addressed(records);
    assert(ids.contains(ids[at]));
    assert(devices_in(more) =~= devices_in(records).update(
        at,
        described(ip, attributes_for(records, ids[at])),
    ));
}

/// The record is one of the cast service that names `host` as the host of the device `id`.
pub open spec fn announces(r: Record, host: Seq<char>, id: Seq<char>) -> bool {
    is_cast_name(r.name@) && device_id(r.name@) == id && match r.kind {
        RecordKind::SRV { target } => target@ == host,
        _ => false,
    }
}

/// A host's device was announced by a record.
proof fn host_was_announced(records: Seq<Record>, host: Seq<char>)
    requires
        id_by_host(records).contains_key(host),
    ensures
        exists|srv: int|
            0 <= srv < records.len() && #[trigger] announces(
                records[srv],
                host,
                id_by_host(records)[host],
            ),
    decreases records.len(),
{
    let before = records.drop_last();
    let last = records.last();
    if announces(last, host, id_by_host(records)[host]) {
        assert(announces(records[records.len() - 1], host, id_by_host(records)[host]));
    } else {
        host_was_announced(before, host);
        let srv = choose|srv: int|
            0 <= srv < before.len() && #[trigger] announces(
                before[srv],
                host,
                id_by_host(before)[host],
            );
        assert(announces(records[srv], host, id_by_host(records)[host]));
    }
}

/// The record at `a` is an address of the host that the earlier record at `srv` announces for
/// the device `id`, and the address is `ip`.
pub open spec fn placed_by(
    records: Seq<Record>,
    srv: int,
    a: int,
    id: Seq<char>,
    ip: IpAddr,
) -> bool {
    &&& 0 <= srv < a < records.len()
    &&& announces(records[srv], records[a].name@, id)
    &&& match records[a].kind {
        RecordKind::A(bits) => ip == IpAddr::V4(bits),
        _ => false,
    }
}

/// An address that a device has was placed by two records.
proof fn address_was_placed(records: Seq<Record>, id: Seq<char>)
    requires
        address_by_id(records).contains_key(id),
    ensures
        exists|srv: int, a: int| placed_by(records, srv, a, id, address_by_id(records)[id]),
    decreases records.len(),
{
    let before = records.drop_last();
    let last = records.last();
    let ip = address_by_id(records)[id];
    if located(before, last) == Some((id, ip)) {
        host_was_announced(before, last.name@);
        let srv = choose|srv: int|
            0 <= srv < before.len() && #[trigger] announces(before[srv], last.name@, id);
        assert(placed_by(records, srv, records.len() - 1, id, ip));
    } else {
        address_was_placed(before, id);
        let (srv, a) = choose|srv: int, a: int| placed_by(before, srv, a, id, ip);
        assert(placed_by(records, srv, a, id, ip));
    }
}

/// Every device found has an SRV record of the cast service and, after it, an A record of the
/// host that it names, whose address the device has; and no device has an empty status.
pub proof fn devices_come_from_records(records: Seq<Record>, k: int)
    requires
        0 <= k < devices_in(records).len(),
    ensures
        exists|srv: int, a: int|
            placed_by(records, srv, a, located_ids(records)[k], devices_in(records)[k].ip_addr),
        devices_in(records)[k].status != Some(Seq::<char>::empty()),
{
    located_ids_are_the_addressed(records);
    assert(located_ids(records).contains(located_ids(records)[k]));
    address_was_placed(records, located_ids(records)[k]);
}

} // verus!
