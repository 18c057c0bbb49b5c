//! Finding the devices on the network, and choosing the one to cast to.

use vstd::prelude::*;
use vstd::string::StringExecFns;

use crate::device::{
    device_views, devices_in, parse_cast_devices, CastDevice, DeviceView, IpAddr, Record,
};
use crate::text::{ascii_lower, contains, decimal, has_text, push_decimal, to_ascii_lower};

verus! {

/// What comes in while devices are looked for.
#[derive(Debug)]
pub enum Heard {
    /// The records of an answer.
    Answer(Vec<Record>),
    /// No answer will come any more, or one could not be received.
    Closed,
}

/// A search for devices.
pub struct Discovery {
    found: Vec<CastDevice>,
    listening: bool,
}

/// One of the devices has that address.
pub open spec fn has_address(devices: Seq<DeviceView>, ip_addr: IpAddr) -> bool {
    exists|i: int| 0 <= i < devices.len() && (#[trigger] devices[i]).ip_addr == ip_addr
}

/// No two of the devices have the same address.
pub open spec fn distinct_addresses(devices: Seq<DeviceView>) -> bool {
    forall|i: int, j: int|
        0 <= i < j < devices.len() ==> (#[trigger] devices[i]).ip_addr != (
        #[trigger] devices[j]).ip_addr
}

/// The devices known after those of an answer are added one by one, and whether to go on: the
/// first one at an address that is already known ends the search.
pub open spec fn after_answer(found: Seq<DeviceView>, answer: Seq<DeviceView>) -> (
    Seq<DeviceView>,
    bool,
)
    decreases answer.len(),
{
    if answer.len() == 0 {
        (found, true)
    } else if has_address(found, answer[0].ip_addr) {
        (found, false)
    } else {
        after_answer(found.push(answer[0]), answer.drop_first())
    }
}

/// Whether one of `found` has that address.
fn knows_address(found: &Vec<CastDevice>, ip_addr: IpAddr) -> (r: bool)
    ensures
        r == has_address(device_views(found@), ip_addr),
{
    let mut i: usize = 0;
    while i < found.len()
        invariant
            i <= found@.len(),
            forall|j: int| 0 <= j < i ==> (#[trigger] found@[j]).ip_addr != ip_addr,
        decreases found@.len() - i,
    {
        if found[i].ip_addr == ip_addr {
            assert(device_views(found@)[i as int].ip_addr == ip_addr);
            return true;
        }
        i += 1;
    }
    assert forall|j: int| 0 <= j < found@.len() implies (
    #[trigger] device_views(found@)[j]).ip_addr != ip_addr by {
        assert(found@[j].ip_addr != ip_addr);
    }
    false
}

impl Discovery {
    /// The devices found so far, in the order in which they were.
    pub closed spec fn found(self) -> Seq<DeviceView> {
        device_views(self.found@)
    }

    /// The search goes on.
    pub closed spec fn listening(self) -> bool {
        self.listening
    }

    /// No two devices found have the same address.
    pub open spec fn wf(self) -> bool {
        distinct_addresses(self.found())
    }

    /// A search that has found nothing yet.
    pub fn new() -> (r: Discovery)
        ensures
            r.wf(),
            r.found() == Seq::<DeviceView>::empty(),
            r.listening(),
    {
        let r = Discovery { found: Vec::new(), listening: true };
        assert(r.found() =~= Seq::<DeviceView>::empty());
        r
    }

    /// Whether the search goes on.
    pub fn is_listening(&self) -> (r: bool)
        ensures
            r == self.listening(),
    {
        self.listening
    }

    /// Adds the devices of an answer.
    fn absorb(&mut self, records: &Vec<Record>)
        requires
            old(self).wf(),
            old(self).listening(),
        ensures
            final(self).wf(),
            (final(self).found(), final(self).listening()) == after_answer(
                old(self).found(),
                devices_in(records@),
            ),
    {
        let answer = parse_cast_devices(records);
        let ghost all = devices_in(records@);
        assert(all.skip(0) =~= all);
        let mut i: usize = 0;
        while i < answer.len()
            invariant
                i <= answer@.len(),
                all == device_views(answer@),
                all == devices_in(records@),
                self.listening,
                self.wf(),
                after_answer(old(self).found(), all) == after_answer(
                    self.found(),
                    all.skip(i as int),
                ),
            decreases answer@.len() - i,
        {
            let ghost known = self.found();
            let ghost rest = all.skip(i as int);
            assert(rest[0] == answer@[i as int]@);
            assert(rest.drop_first() =~= all.skip(i + 1));
            if knows_address(&self.found, answer[i].ip_addr) {
                self.listening = false;
                return ;
            }
            self.found.push(answer[i].clone());
            assert(self.found() =~= known.push(rest[0]));
            i += 1;
        }
    }

    /// Takes in what came in. A search that is over stays as it is.
    pub fn step(&mut self, heard: Heard)
        requires
            old(self).wf(),
        ensures
            final(self).wf(),
            !old(self).listening() ==> final(self).found() == old(self).found() && !final(self).listening(),
            old(self).listening() ==> match heard {
                Heard::Answer(records) => (final(self).found(), final(self).listening())
                    == after_answer(old(self).found(), devices_in(records@)),
                Heard::Closed => final(self).found() == old(self).found() && !final(self).listening(),
            },
    {
        if self.listening {
            match heard {
                Heard::Answer(records) => self.absorb(&records),
                Heard::Closed => {
                    self.listening = false;
                },
            }
        }
    }

    /// The devices found, in the order in which they were.
    pub fn into_devices(self) -> (r: Vec<CastDevice>)
        ensures
            device_views(r@) == self.found(),
    {
        self.found
    }
}

/// Why no device was chosen.
#[derive(Debug)]
pub enum SelectionError {
    /// None of that many devices matches the text, which stands here in small letters.
    NoMatch { length: usize, matcher: String },
    /// There is no device at all.
    NoDevices,
}

impl SelectionError {
    /// The error in words.
    pub open spec fn text(self) -> Seq<char> {
        match self {
            SelectionError::NoMatch { length, matcher } => "none of the "@ + decimal(length as nat)
                + " Cast devices matches “"@ + matcher@ + "”"@,
            SelectionError::NoDevices => "no Cast devices found"@,
        }
    }

    /// The error in words.
    pub fn message(&self) -> (r: String)
        ensures
            r@ == self.text(),
    {
        match self {
            SelectionError::NoMatch { length, matcher } => {
                let mut r = "none of the ".to_owned();
                push_decimal(&mut r, *length as u64);
                r.append(" Cast devices matches “");
                r.append(matcher.as_str());
                r.append("”");
                r
            },
            SelectionError::NoDevices => "no Cast devices found".to_owned(),
        }
    }
}

/// A device's name or model holds the text, where ASCII letters count without their case.
pub open spec fn is_match(device: DeviceView, matcher: Seq<char>) -> bool {
    has_text(ascii_lower(device.name), ascii_lower(matcher)) || has_text(
        ascii_lower(device.model),
        ascii_lower(matcher),
    )
}

/// The first device, from offset `from` on, that matches.
pub open spec fn first_match(devices: Seq<DeviceView>, matcher: Seq<char>, from: int) -> Option<
    DeviceView,
>
    decreases devices.len() - from,
{
    if from < 0 || from >= devices.len() {
        None
    } else if is_match(devices[from], matcher) {
        Some(devices[from])
    } else {
        first_match(devices, matcher, from + 1)
    }
}

/// The device to cast to: the first that matches the text, or the first of all without one.
pub open spec fn selected(devices: Seq<DeviceView>, matcher: Option<Seq<char>>) -> Option<
    DeviceView,
> {
    match matcher {
        Some(text) => first_match(devices, text, 0),
        None => if devices.len() > 0 {
            Some(devices[0])
        } else {
            None
        },
    }
}

/// The first device whose name or model holds `matcher`.
fn select_matching<'a>(devices: &'a Vec<CastDevice>, matcher: &str) -> (r: Result<
    &'a CastDevice,
    SelectionError,
>)
    ensures
        match r {
            Ok(device) => first_match(device_views(devices@), matcher@, 0) == Some(device@),
            Err(SelectionError::NoMatch { length, matcher: small }) => first_match(
                device_views(devices@),
                matcher@,
                0,
            ) is None && length == devices@.len() && small@ == ascii_lower(matcher@),
            Err(SelectionError::NoDevices) => false,
        },
{
    let small = to_ascii_lower(matcher);
    let ghost views = device_views(devices@);
    let mut i: usize = 0;
    while i < devices.len()
        invariant
            i <= devices@.len(),
            views == device_views(devices@),
            small@ == ascii_lower(matcher@),
            first_match(views, matcher@, 0) == first_match(views, matcher@, i as int),
        decreases devices@.len() - i,
    {
        let device = &devices[i];
        assert(views[i as int] == device@);
        let name = to_ascii_lower(device.name.as_str());
        let model = to_ascii_lower(device.model.as_str());
        if contains(name.as_str(), small.as_str()) || contains(model.as_str(), small.as_str()) {
            return Ok(device);
        }
        i += 1;
    }
    Err(SelectionError::NoMatch { length: devices.len(), matcher: small })
}

/// Chooses the device to cast to.
pub fn select_device<'a>(devices: &'a Vec<CastDevice>, matcher: Option<&str>) -> (r: Result<
    &'a CastDevice,
    SelectionError,
>)
    ensures
        match matcher {
            Some(text) => match r {
                Ok(device) => selected(device_views(devices@), Some(text@)) == Some(device@),
                Err(SelectionError::NoMatch { length, matcher: small }) => selected(
                    device_views(devices@),
                    Some(text@),
                ) is None && length == devices@.len() && small@ == ascii_lower(text@),
                Err(SelectionError::NoDevices) => false,
            },
            None => match r {
                Ok(device) => selected(device_views(devices@), None) == Some(device@),
                Err(error) => selected(device_views(devices@), None) is None && error is NoDevices,
            },
        },
{
    match matcher {
        Some(text) => select_matching(devices, text),
        None => {
            if devices.len() > 0 {
                assert(device_views(devices@)[0] == devices@[0]@);
                Ok(&devices[0])
            } else {
                Err(SelectionError::NoDevices)
            }
        },
    }
}

} // verus!
