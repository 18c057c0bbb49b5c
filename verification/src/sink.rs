//! The capturing end: what the audio sink is set up with, and what it makes of the parameters
//! and buffers that it is handed.

use vstd::endian::{endianness, Endian};
use vstd::hash_map::StringHashMap;
use vstd::prelude::*;
use vstd::string::StringExecFns;

use crate::text::{decimal, holds_text, push_decimal};

verus! {

/// Samples per second and channel.
pub const SAMPLE_RATE: u64 = 48000;

/// Interleaved channels.
pub const CHANNEL_COUNT: u64 = 2;

/// Bytes of one sample.
pub const SAMPLE_BYTES: usize = 2;

/// Bytes of one frame, which holds a sample for each of the two channels.
pub const FRAME_BYTES: usize = 4;

/// The parameter that carries the tags of the stream.
pub const TAG_PARAM: u32 = 17;

/// The property of a tag that lists its keys and values.
pub const TAG_INFO: u32 = 2;

/// The audio sink.
pub struct PipeWireSink {}

/// How a sample is stored: 16 bits with a sign, the lower byte first or the higher.
#[derive(Debug, Clone, Copy, PartialEq, Eq, Structural)]
pub enum SampleFormat {
    S16LE,
    S16BE,
}

/// Which way the samples of a stream go: from PipeWire to its user, or to PipeWire.
#[derive(Debug, Clone, Copy, PartialEq, Eq, Structural)]
pub enum Direction {
    Input,
    Output,
}

/// How a stream is connected.
#[derive(Debug, Clone, Copy, PartialEq, Eq, Structural)]
pub struct ConnectFlags {
    /// To whatever the session manager finds for it.
    pub autoconnect: bool,
    /// With its buffers mapped into memory.
    pub map_buffers: bool,
    /// With buffers handed over in the real-time thread.
    pub rt_process: bool,
}

/// What the sink is set up with.
#[derive(Debug)]
pub struct SinkSettings {
    pub app_name: String,
    pub stream_name: String,
    pub media_type: String,
    pub media_class: String,
    pub media_category: String,
    pub media_name: String,
    pub node_description: String,
    pub audio_channels: String,
    pub direction: Direction,
    pub flags: ConnectFlags,
    pub format: SampleFormat,
    pub rate: u32,
    pub channels: u32,
}

impl SinkSettings {
    /// These are the settings of the sink for a receiver of that name.
    pub open spec fn are_for(self, receiver_name: Seq<char>) -> bool {
        &&& self.app_name@ == "rust-chromecast-sink"@
        &&& self.stream_name@ == "pw-cast"@
        &&& self.media_type@ == "Audio"@
        &&& self.media_class@ == "Audio/Sink"@
        &&& self.media_category@ == "Capture"@
        &&& self.media_name@ == "pw-cast"@
        &&& self.node_description@ == "Cast to “"@ + receiver_name + "”"@
        &&& self.audio_channels@ == decimal(CHANNEL_COUNT as nat)
        &&& self.direction == Direction::Input
        &&& self.flags == ConnectFlags { autoconnect: true, map_buffers: true, rt_process: true }
        &&& self.format == SampleFormat::S16LE
        &&& self.rate == SAMPLE_RATE
        &&& self.channels == CHANNEL_COUNT
    }
}

/// A field of a tag, as far as it is read.
#[derive(Debug)]
pub enum TagField {
    Int(i32),
    Text(String),
    Other,
}

/// Calls `i16::from_ne_bytes`: the sample whose bytes stand in memory in the byte order of the
/// machine.
#[verifier::external_body]
fn sample_from_ne_bytes(bytes: [u8; 2]) -> (r: i16)
    ensures
        r == sample_of(bytes@[0], bytes@[1]),
{
    i16::from_ne_bytes(bytes)
}

/// The signed number of two bytes, of which the second counts 256-fold.
pub open spec fn little_endian_sample(low: u8, high: u8) -> int {
    if high < 128 {
        high * 256 + low
    } else {
        high * 256 + low - 65536
    }
}

/// The sample whose bytes stand in memory as `first` and `second`.
pub open spec fn sample_of(first: u8, second: u8) -> int {
    match endianness() {
        Endian::Little => little_endian_sample(first, second),
        Endian::Big => little_endian_sample(second, first),
    }
}

/// How many samples the whole frames of a chunk hold.
pub open spec fn sample_count(chunk_size: u32) -> int {
    (chunk_size as int / FRAME_BYTES as int) * CHANNEL_COUNT as int
}

/// `samples` are those of the whole frames at the start of `data`, in their order.
pub open spec fn are_samples_of(samples: Seq<i16>, chunk_size: u32, data: Seq<u8>) -> bool {
    &&& samples.len() == sample_count(chunk_size)
    &&& forall|i: int|
        0 <= i < samples.len() ==> #[trigger] samples[i] == sample_of(data[2 * i], data[2 * i + 1])
}

/// What is captured of a chunk that stands at the start of a buffer: its samples, where there is
/// a buffer and the chunk holds a whole frame.
pub open spec fn captured(chunk_size: u32, data: Option<Seq<u8>>) -> Option<Seq<i16>> {
    match data {
        Some(bytes) if sample_count(chunk_size) > 0 => Some(
            Seq::new(
                sample_count(chunk_size) as nat,
                |i: int| sample_of(bytes[2 * i], bytes[2 * i + 1]) as i16,
            ),
        ),
        _ => None,
    }
}

/// The text of a field, where it is one.
pub open spec fn field_text(fields: Seq<TagField>, at: int) -> Option<Seq<char>> {
    if 0 <= at < fields.len() {
        match fields[at] {
            TagField::Text(s) => Some(s@),
            _ => None,
        }
    } else {
        None
    }
}

/// `known` with what up to `left` attempts read from offset `at` on. An attempt takes a key and
/// its value; one that meets no text where the key should be takes that field alone, and one
/// that meets no text where the value should be takes both.
pub open spec fn read_pairs(
    fields: Seq<TagField>,
    at: int,
    left: int,
    known: Map<Seq<char>, Seq<char>>,
) -> Map<Seq<char>, Seq<char>>
    decreases left,
{
    if left <= 0 {
        known
    } else {
        match (field_text(fields, at), field_text(fields, at + 1)) {
            (Some(key), Some(value)) => read_pairs(
                fields,
                at + 2,
                left - 1,
                known.insert(key, value),
            ),
            (Some(_), None) => read_pairs(fields, at + 2, left - 1, known),
            (None, _) => read_pairs(fields, at + 1, left - 1, known),
        }
    }
}

/// The keys and values that a tag lists: its first field says how many.
pub open spec fn tag_properties(fields: Seq<TagField>) -> Map<Seq<char>, Seq<char>> {
    if fields.len() > 0 {
        match fields[0] {
            TagField::Int(n) => read_pairs(fields, 1, n as int, Map::empty()),
            _ => Map::empty(),
        }
    } else {
        Map::empty()
    }
}

/// The title that a changed parameter gives: the `media.name` of the stream's tag.
pub open spec fn media_name(id: u32, info: Option<Seq<TagField>>) -> Option<Seq<char>> {
    match info {
        Some(fields) if id == TAG_PARAM && tag_properties(fields).contains_key("media.name"@) => Some(
            tag_properties(fields)["media.name"@],
        ),
        _ => None,
    }
}

/// Nothing is read past the last field.
pub proof fn nothing_past_the_end(
    fields: Seq<TagField>,
    at: int,
    left: int,
    known: Map<Seq<char>, Seq<char>>,
)
    requires
        fields.len() <= at,
    ensures
        read_pairs(fields, at, left, known) == known,
    decreases left,
{
    if left > 0 {
        nothing_past_the_end(fields, at + 1, left - 1, known);
    }
}

/// The keys and values that a tag lists.
fn read_tag(fields: &Vec<TagField>) -> (r: StringHashMap<String>)
    ensures
        holds_text(r@, tag_properties(fields@)),
{
    let mut props: StringHashMap<String> = StringHashMap::new();
    let ghost mut known: Map<Seq<char>, Seq<char>> = Map::empty();
    assert(props@.dom() =~= known.dom());
    if fields.len() == 0 {
        return props;
    }
    let n: i32 = match &fields[0] {
        TagField::Int(n) => *n,
        _ => {
            return props;
        },
    };
    let mut at: usize = 1;
    let mut left: i32 = n;
    while left > 0 && at < fields.len()
        invariant
            1 <= at <= fields@.len() + 1,
            holds_text(props@, known),
            fields@.len() > 0,
            fields@[0] == TagField::Int(n),
            tag_properties(fields@) == read_pairs(fields@, at as int, left as int, known),
        decreases left,
    {
        match &fields[at] {
            TagField::Text(key) => {
                if at < fields.len() - 1 {
                    match &fields[at + 1] {
                        TagField::Text(value) => {
                            props.insert(key.clone(), value.clone());
                            proof {
                                known = known.insert(key@, value@);
                                assert(props@.dom() =~= known.dom());
                            }
                        },
                        _ => {},
                    }
                    at += 2;
                } else {
                    proof {
                        nothing_past_the_end(fields@, at + 2, left - 1, known);
                        nothing_past_the_end(fields@, at + 1, left - 1, known);
                    }
                    at += 1;
                }
            },
            _ => {
                at += 1;
            },
        }
        left -= 1;
    }
    proof {
        if left > 0 {
            nothing_past_the_end(fields@, at as int, left as int, known);
        }
    }
    props
}

impl PipeWireSink {
    /// What the sink for the receiver of that name starts with.
    pub fn start(receiver_name: &str) -> (r: SinkSettings)
        ensures
            r.are_for(receiver_name@),
            r.app_name@ == "rust-chromecast-sink"@,
            r.stream_name@ == "pw-cast"@,
            r.media_type@ == "Audio"@,
            r.media_class@ == "Audio/Sink"@,
            r.media_category@ == "Capture"@,
            r.media_name@ == "pw-cast"@,
            r.node_description@ == "Cast to “"@ + receiver_name@ + "”"@,
            r.audio_channels@ == decimal(CHANNEL_COUNT as nat),
            r.direction == Direction::Input,
            r.flags.autoconnect,
            r.flags.map_buffers,
            r.flags.rt_process,
            r.format == SampleFormat::S16LE,
            r.rate == SAMPLE_RATE,
            r.channels == CHANNEL_COUNT,
    {
        let mut audio_channels = String::new();
        push_decimal(&mut audio_channels, CHANNEL_COUNT);
        assert(audio_channels@ =~= decimal(CHANNEL_COUNT as nat));
        SinkSettings {
            app_name: "rust-chromecast-sink".to_owned(),
            stream_name: "pw-cast".to_owned(),
            media_type: "Audio".to_owned(),
            media_class: "Audio/Sink".to_owned(),
            media_category: "Capture".to_owned(),
            media_name: "pw-cast".to_owned(),
            node_description: "Cast to “".to_owned().concat(receiver_name).concat("”"),
            audio_channels,
            direction: Direction::Input,
            flags: ConnectFlags { autoconnect: true, map_buffers: true, rt_process: true },
            format: SampleFormat::S16LE,
            rate: SAMPLE_RATE as u32,
            channels: CHANNEL_COUNT as u32,
        }
    }

    /// The new title of what is played, where a changed parameter gives one. `info` holds the
    /// fields of the tag's list, where the parameter is an object that has one.
    pub fn param_changed(id: u32, info: Option<&Vec<TagField>>) -> (r: Option<String>)
        ensures
            match info {
                Some(fields) => match r {
                    Some(name) => media_name(id, Some(fields@)) == Some(name@),
                    None => media_name(id, Some(fields@)) is None,
                },
                None => r is None,
            },
    {
        match info {
            Some(fields) if id == TAG_PARAM => {
                let props = read_tag(fields);
                match props.get("media.name") {
                    Some(name) => Some(name.clone()),
                    None => None,
                }
            },
            _ => None,
        }
    }

    /// The samples of a captured chunk, where it holds a whole frame: of whole frames only, and
    /// of at least one. `data` is the buffer that
    /// the chunk stands at the start of, where there is one.
    pub fn process(chunk_size: u32, data: Option<&[u8]>) -> (r: Option<Vec<i16>>)
        requires
            data matches Some(bytes) ==> chunk_size as int / 4 * 4 <= bytes@.len(),
        ensures
            captured(
                chunk_size,
                match data {
                    Some(bytes) => Some(bytes@),
                    None => None,
                },
            ) == match r {
                Some(samples) => Some(samples@),
                None => None,
            },
            r is Some <==> data is Some && chunk_size >= 4,
            r is Some <==> data is Some && sample_count(chunk_size) > 0,
            r matches Some(samples) ==> are_samples_of(samples@, chunk_size, data->0@)
                && samples@.len() == chunk_size as int / 4 * 2 && samples@.len() > 0
                && samples@.len() % 2 == 0,
    {
        let n_frames: usize = chunk_size as usize / FRAME_BYTES;
        let mut samples: Vec<i16> = Vec::with_capacity(n_frames);
        if let Some(bytes) = data {
            let mut n_frame: usize = 0;
            while n_frame < n_frames
                invariant
                    n_frame <= n_frames,
                    n_frames == chunk_size as int / 4,
                    n_frames * 4 <= bytes@.len(),
                    samples@.len() == n_frame * 2,
                    forall|i: int|
                        0 <= i < samples@.len() ==> #[trigger] samples@[i] == sample_of(
                            bytes@[2 * i],
                            bytes@[2 * i + 1],
                        ),
                decreases n_frames - n_frame,
            {
                let mut n_channel: usize = 0;
                while n_channel < CHANNEL_COUNT as usize
                    invariant
                        n_channel <= 2,
                        n_frame < n_frames,
                        n_frames == chunk_size as int / 4,
                        n_frames * 4 <= bytes@.len(),
                        samples@.len() == n_frame * 2 + n_channel,
                        forall|i: int|
                            0 <= i < samples@.len() ==> #[trigger] samples@[i] == sample_of(
                                bytes@[2 * i],
                                bytes@[2 * i + 1],
                            ),
                    decreases 2 - n_channel,
                {
                    let start: usize = n_frame * FRAME_BYTES + n_channel * SAMPLE_BYTES;
                    samples.push(sample_from_ne_bytes([bytes[start], bytes[start + 1]]));
                    n_channel += 1;
                }
                n_frame += 1;
            }
        }
        if samples.len() == 0 {
            None
        } else {
            assert(captured(chunk_size, Some(data->0@))->0 =~= samples@);
            Some(samples)
        }
    }
}

} // verus!
