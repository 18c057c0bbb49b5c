//! Cast devices, and how they are read out of the records of an mDNS answer.

use vstd::hash_map::StringHashMap;
use vstd::prelude::*;

use crate::text::{
    before_first, contains, find, first_occurrence, first_occurrence_is_least, has_text,
    head_before, holds_text,
};

verus! {

/// An IP address, as the number that its bits form, the first octet being the highest.
#[derive(Debug, Clone, Copy, PartialEq, Eq, Structural)]
pub enum IpAddr {
    V4(u32),
    V6(u128),
}

/// What a DNS record says, as far as cast devices are concerned.
#[derive(Debug)]
pub enum RecordKind {
    /// The IPv4 address of a host.
    A(u32),
    /// The host on which a service runs.
    SRV { target: String },
    /// The attributes of a service.
    TXT(Vec<String>),
    /// Any other record.
    Other,
}

/// A DNS record.
#[derive(Debug)]
pub struct Record {
    pub name: String,
    pub kind: RecordKind,
}

/// A device that media can be cast to.
#[derive(Debug)]
pub struct CastDevice {
    pub ip_addr: IpAddr,
    pub model: String,
    pub name: String,
    pub status: Option<String>,
}

/// A cast device as a mathematical value.
pub struct DeviceView {
    pub ip_addr: IpAddr,
    pub model: Seq<char>,
    pub name: Seq<char>,
    pub status: Option<Seq<char>>,
}

impl View for CastDevice {
    type V = DeviceView;

    open spec fn view(&self) -> DeviceView {
        DeviceView {
            ip_addr: self.ip_addr,
            model: self.model@,
            name: self.name@,
            status: match self.status {
                Some(s) => Some(s@),
                None => None,
            },
        }
    }
}

impl Clone for CastDevice {
    fn clone(&self) -> (r: Self)
        ensures
            r@ == self@,
    {
        CastDevice {
            ip_addr: self.ip_addr,
            model: self.model.clone(),
            name: self.name.clone(),
            status: match &self.status {
                Some(s) => Some(s.clone()),
                None => None,
            },
        }
    }
}

/// A list of devices as a sequence of mathematical values.
pub open spec fn device_views(devices: Seq<CastDevice>) -> Seq<DeviceView> {
    devices.map_values(|d: CastDevice| d@)
}

/// Attributes of a service, by their names.
pub type Attributes = Map<Seq<char>, Seq<char>>;

/// A record's name belongs to the cast service.
pub open spec fn is_cast_name(name: Seq<char>) -> bool {
    has_text(name, "._googlecast._tcp.local"@)
}

/// The device that a name of the cast service speaks of.
pub open spec fn device_id(name: Seq<char>) -> Seq<char> {
    before_first(name, "._googlecast"@)
}

/// One attribute string, `key=value`, on top of those before it. The key ends at the first
/// equals sign; a string without one is no attribute.
pub open spec fn with_attribute(known: Attributes, txt: Seq<char>) -> Attributes {
    match first_occurrence(txt, "="@, 0) {
        Some(at) => known.insert(txt.take(at), txt.skip(at + 1)),
        None => known,
    }
}

/// The attributes that a TXT record lists; of two with one key the later counts.
pub open spec fn attributes_of(values: Seq<String>) -> Attributes
    decreases values.len(),
{
    if values.len() == 0 {
        Map::empty()
    } else {
        with_attribute(attributes_of(values.drop_last()), values.last()@)
    }
}

/// The attributes of each device: those of its last TXT record.
pub open spec fn attributes_by_id(records: Seq<Record>) -> Map<Seq<char>, Attributes>
    decreases records.len(),
{
    if records.len() == 0 {
        Map::empty()
    } else {
        let before = attributes_by_id(records.drop_last());
        let last = records.last();
        match last.kind {
            RecordKind::TXT(values) if is_cast_name(last.name@) => before.insert(
                device_id(last.name@),
                attributes_of(values@),
            ),
            _ => before,
        }
    }
}

/// The device that each host was last said to serve.
pub open spec fn id_by_host(records: Seq<Record>) -> Map<Seq<char>, Seq<char>>
    decreases records.len(),
{
    if records.len() == 0 {
        Map::empty()
    } else {
        let before = id_by_host(records.drop_last());
        let last = records.last();
        match last.kind {
            RecordKind::SRV { target } if is_cast_name(last.name@) => before.insert(
                target@,
                device_id(last.name@),
            ),
            _ => before,
        }
    }
}

/// The device whose address `record` gives, after the records `before`, and that address: that
/// of the host's device, where an earlier record has named one.
pub open spec fn located(before: Seq<Record>, record: Record) -> Option<(Seq<char>, IpAddr)> {
    match record.kind {
        RecordKind::A(ip) if id_by_host(before).contains_key(record.name@) => Some(
            (id_by_host(before)[record.name@], IpAddr::V4(ip)),
        ),
        _ => None,
    }
}

/// The address of each device: the one given last.
pub open spec fn address_by_id(records: Seq<Record>) -> Map<Seq<char>, IpAddr>
    decreases records.len(),
{
    if records.len() == 0 {
        Map::empty()
    } else {
        let before = address_by_id(records.drop_last());
        match located(records.drop_last(), records.last()) {
            Some((id, ip)) => before.insert(id, ip),
            None => before,
        }
    }
}

/// The devices that have an address, in the order in which they first got one.
pub open spec fn located_ids(records: Seq<Record>) -> Seq<Seq<char>>
    decreases records.len(),
{
    if records.len() == 0 {
        Seq::empty()
    } else {
        let before = located_ids(records.drop_last());
        match located(records.drop_last(), records.last()) {
            Some((id, _)) if !before.contains(id) => before.push(id),
            _ => before,
        }
    }
}

/// The attribute `key`, or the empty text where it is missing.
pub open spec fn attribute_or_empty(attributes: Attributes, key: Seq<char>) -> Seq<char> {
    if attributes.contains_key(key) {
        attributes[key]
    } else {
        Seq::empty()
    }
}

/// The device at an address, as its attributes describe it: `md` is the model, `fn` the name,
/// and `rs` the status, of which an empty one is none.
pub open spec fn described(ip_addr: IpAddr, attributes: Attributes) -> DeviceView {
    DeviceView {
        ip_addr,
        model: attribute_or_empty(attributes, "md"@),
        name: attribute_or_empty(attributes, "fn"@),
        status: if attribute_or_empty(attributes, "rs"@).len() > 0 {
            Some(attributes["rs"@])
        } else {
            None
        },
    }
}

/// The attributes of one device, none where no TXT record lists any.
pub open spec fn attributes_for(records: Seq<Record>, id: Seq<char>) -> Attributes {
    if attributes_by_id(records).contains_key(id) {
        attributes_by_id(records)[id]
    } else {
        Map::empty()
    }
}

/// The devices that a list of records tells of.
pub open spec fn devices_in(records: Seq<Record>) -> Seq<DeviceView> {
    located_ids(records).map_values(
        |id: Seq<char>| described(address_by_id(records)[id], attributes_for(records, id)),
    )
}

/// A device has an address exactly where it is listed, and it is listed once.
pub proof fn located_ids_are_the_addressed(records: Seq<Record>)
    ensures
        located_ids(records).no_duplicates(),
        forall|id: Seq<char>|
            located_ids(records).contains(id) <==> address_by_id(records).contains_key(id),
    decreases records.len(),
{
    if records.len() > 0 {
        let before = records.drop_last();
        located_ids_are_the_addressed(before);
        let ids = located_ids(before);
        assert forall|k: Seq<char>|
            located_ids(records).contains(k) <==> address_by_id(records).contains_key(k) by {
            assert(ids.contains(k) <==> address_by_id(before).contains_key(k));
            if let Some((id, _)) = located(before, records.last()) {
                if !ids.contains(id) {
                    assert(ids.push(id)[ids.len() as int] == id);
                    if ids.contains(k) {
                        let i = choose|i: int| 0 <= i < ids.len() && ids[i] == k;
                        assert(ids.push(id)[i] == k);
                    }
                }
            }
        }
    }
}

/// A map from text to attributes holds what `model` says.
spec fn holds_attributes(
    m: Map<Seq<char>, StringHashMap<String>>,
    model: Map<Seq<char>, Attributes>,
) -> bool {
    &&& m.dom() == model.dom()
    &&& forall|k: Seq<char>| #[trigger] m.contains_key(k) ==> holds_text(m[k]@, model[k])
}

/// `index` gives the place of each text of `ids`, and of no other.
spec fn is_index(index: Map<Seq<char>, usize>, ids: Seq<String>) -> bool {
    &&& forall|k: Seq<char>| #[trigger]
        index.contains_key(k) ==> index[k] < ids.len() && ids[index[k] as int]@ == k
    &&& forall|i: int| 0 <= i < ids.len() ==> index.contains_key(#[trigger] ids[i]@) && index[ids[i]@] == i
}

/// The attributes that a TXT record lists.
fn read_attributes(values: &Vec<String>) -> (r: StringHashMap<String>)
    ensures
        holds_text(r@, attributes_of(values@)),
{
    let mut r: StringHashMap<String> = StringHashMap::new();
    assert(r@.dom() =~= attributes_of(values@.take(0)).dom());
    let mut i: usize = 0;
    while i < values.len()
        invariant
            i <= values@.len(),
            holds_text(r@, attributes_of(values@.take(i as int))),
        decreases values@.len() - i,
    {
        let txt = values[i].as_str();
        proof {
            reveal_strlit("=");
            first_occurrence_is_least(txt@, "="@, 0);
            assert(values@.take(i + 1).drop_last() =~= values@.take(i as int));
        }
        let ghost before = attributes_of(values@.take(i as int));
        match find(txt, "=") {
            Some(at) => {
                let end: usize = txt.unicode_len();
                let key = txt.substring_char(0, at);
                let value = txt.substring_char(at + 1, end);
                assert(key@ =~= txt@.take(at as int));
                assert(value@ =~= txt@.skip(at + 1));
                r.insert(key.to_owned(), value.to_owned());
                assert(r@.dom() =~= before.insert(key@, value@).dom());
            },
            None => {},
        }
        i += 1;
    }
    assert(values@.take(i as int) =~= values@);
    r
}

/// What the cast service's attributes make of a device.
fn describe(ip: u32, attributes: &StringHashMap<String>, Ghost(model): Ghost<Attributes>) -> (r: CastDevice)
    requires
        holds_text(attributes@, model),
    ensures
        r@ == described(IpAddr::V4(ip), model),
{
    let mut device = CastDevice {
        ip_addr: IpAddr::V4(ip),
        model: String::new(),
        name: String::new(),
        status: None,
    };
    if let Some(md) = attributes.get("md") {
        device.model = md.clone();
    }
    if let Some(name) = attributes.get("fn") {
        device.name = name.clone();
    }
    if let Some(status) = attributes.get("rs") {
        if !status.as_str().is_empty() {
            device.status = Some(status.clone());
        }
    }
    device
}

/// Reads the cast devices out of the records of an answer, in the order in which they got an
/// address. A device needs an SRV record of the cast service that names its host and, after it,
/// an A record of that host; TXT records may stand anywhere.
pub fn parse_cast_devices(records: &Vec<Record>) -> (r: Vec<CastDevice>)
    ensures
        device_views(r@) == devices_in(records@),
{
    let mut attributes: StringHashMap<StringHashMap<String>> = StringHashMap::new();
    let mut hosts: StringHashMap<String> = StringHashMap::new();
    let mut index: StringHashMap<usize> = StringHashMap::new();
    let mut ids: Vec<String> = Vec::new();
    let mut ips: Vec<u32> = Vec::new();
    let mut i: usize = 0;
    proof {
        assert(attributes@.dom() =~= attributes_by_id(records@.take(0)).dom());
        assert(hosts@.dom() =~= id_by_host(records@.take(0)).dom());
        assert(ids@.map_values(|s: String| s@) =~= located_ids(records@.take(0)));
    }
    while i < records.len()
        invariant
            i <= records@.len(),
            holds_attributes(attributes@, attributes_by_id(records@.take(i as int))),
            holds_text(hosts@, id_by_host(records@.take(i as int))),
            is_index(index@, ids@),
            ids@.map_values(|s: String| s@) == located_ids(records@.take(i as int)),
            ips@.len() == ids@.len(),
            forall|j: int|
                0 <= j < ids@.len() ==> address_by_id(records@.take(i as int))[#[trigger] ids@[j]@]
                    == IpAddr::V4(ips@[j]),
        decreases records@.len() - i,
    {
        let record = &records[i];
        let ghost before = records@.take(i as int);
        proof {
            assert(records@.take(i + 1).drop_last() =~= before);
        }
        match &record.kind {
            RecordKind::TXT(values) => {
                if contains(record.name.as_str(), "._googlecast._tcp.local") {
                    let id = head_before(record.name.as_str(), "._googlecast");
                    let listed = read_attributes(values);
                    attributes.insert(id, listed);
                    assert(attributes@.dom() =~= attributes_by_id(records@.take(i + 1)).dom());
                }
            },
            RecordKind::SRV { target } => {
                if contains(record.name.as_str(), "._googlecast._tcp.local") {
                    let id = head_before(record.name.as_str(), "._googlecast");
                    hosts.insert(target.clone(), id);
                    assert(hosts@.dom() =~= id_by_host(records@.take(i + 1)).dom());
                }
            },
            RecordKind::A(ip) => {
                if let Some(id) = hosts.get(record.name.as_str()) {
                    let ghost listed = ids@.map_values(|s: String| s@);
                    match index.get(id.as_str()) {
                        Some(at) => {
                            assert(listed[*at as int] == id@);
                            ips.set(*at, *ip);
                        },
                        None => {
                            assert(!listed.contains(id@)) by {
                                if listed.contains(id@) {
                                    let j = choose|j: int|
                                        0 <= j < listed.len() && listed[j] == id@;
                                    assert(ids@[j]@ == id@);
                                }
                            }
                            index.insert(id.clone(), ids.len());
                            ids.push(id.clone());
                            ips.push(*ip);
                            assert(ids@.map_values(|s: String| s@) =~= listed.push(id@));
                        },
                    }
                }
            },
            RecordKind::Other => {},
        }
        i += 1;
    }
    assert(records@.take(i as int) =~= records@);
    let mut r: Vec<CastDevice> = Vec::new();
    let mut k: usize = 0;
    while k < ids.len()
        invariant
            k <= ids@.len(),
            holds_attributes(attributes@, attributes_by_id(records@)),
            ips@.len() == ids@.len(),
            ids@.map_values(|s: String| s@) == located_ids(records@),
            forall|j: int|
                0 <= j < ids@.len() ==> address_by_id(records@)[#[trigger] ids@[j]@]
                    == IpAddr::V4(ips@[j]),
            r@.len() == k,
            forall|j: int| 0 <= j < k ==> (#[trigger] r@[j])@ == devices_in(records@)[j],
        decreases ids@.len() - k,
    {
        let id = &ids[k];
        assert(located_ids(records@)[k as int] == id@);
        let device = match attributes.get(id.as_str()) {
            Some(listed) => describe(ips[k], listed, Ghost(attributes_by_id(records@)[id@])),
            None => describe(ips[k], &StringHashMap::new(), Ghost(Map::empty())),
        };
        r.push(device);
        k += 1;
    }
    assert(device_views(r@) =~= devices_in(records@)) by {
        assert(ids@.map_values(|s: String| s@).len() == ids@.len());
    }
    r
}

} // verus!
