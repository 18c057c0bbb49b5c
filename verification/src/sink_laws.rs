//! What holds of the samples and titles that the sink makes of what it is handed.

use vstd::endian::{endianness, Endian};
use vstd::prelude::*;

use crate::sink::{
    are_samples_of, captured, field_text, media_name, nothing_past_the_end, read_pairs, sample_of,
    tag_properties, Direction, SampleFormat, SinkSettings, TagField, TAG_PARAM,
};
use crate::text_laws::{numeral_value, numerals_are_read_back};

verus! {

/// The two bytes of a sample as they stand in memory.
pub open spec fn bytes_of(sample: i16) -> (u8, u8) {
    let bits = if sample < 0 {
        sample + 65536
    } else {
        sample as int
    };
    let low = (bits % 256) as u8;
    let high = (bits / 256) as u8;
    match endianness() {
        Endian::Little => (low, high),
        Endian::Big => (high, low),
    }
}

/// `data` starts with the bytes of `samples`.
pub open spec fn stores(data: Seq<u8>, samples: Seq<i16>) -> bool {
    &&& 2 * samples.len() <= data.len()
    &&& forall|i: int|
        0 <= i < samples.len() ==> (data[2 * i], data[2 * i + 1]) == bytes_of(#[trigger] samples[i])
}

/// What is captured of a buffer that stores samples, in whole frames, is those samples.
pub proof fn stored_samples_are_captured(
    stored: Seq<i16>,
    captured: Seq<i16>,
    chunk_size: u32,
    data: Seq<u8>,
)
    requires
        stored.len() == chunk_size as int / 4 * 2,
        stores(data, stored),
        are_samples_of(captured, chunk_size, data),
    ensures
        captured == stored,
{
    assert forall|i: int| 0 <= i < stored.len() implies captured[i] == stored[i] by {
        let (first, second) = bytes_of(stored[i]);
        assert(sample_of(first, second) == stored[i]);
        assert(captured[i] == sample_of(data[2 * i], data[2 * i + 1]));
    }
    assert(captured =~= stored);
}

/// A chunk is captured whole: of a chunk of any size, four bytes a frame, every sample that the
/// buffer stores for its whole frames comes out, each as it was stored, and no other.
pub proof fn every_stored_sample_is_captured(stored: Seq<i16>, chunk_size: u32, data: Seq<u8>)
    requires
        stored.len() > 0,
        stored.len() == chunk_size as int / 4 * 2,
        2 * stored.len() <= data.len(),
        forall|i: int|
            0 <= i < stored.len() ==> (data[2 * i], data[2 * i + 1]) == bytes_of(
                #[trigger] stored[i],
            ),
    ensures
        captured(chunk_size, Some(data)) == Some(stored),
{
    let samples = captured(chunk_size, Some(data))->0;
    assert(are_samples_of(samples, chunk_size, data)) by {
        assert forall|i: int| 0 <= i < samples.len() implies #[trigger] samples[i] == sample_of(
            data[2 * i],
            data[2 * i + 1],
        ) by {}
    }
    stored_samples_are_captured(stored, samples, chunk_size, data);
}

/// Something is captured of a chunk exactly where there is a buffer and the chunk has the four
/// bytes of a frame: then two samples for each frame.
pub proof fn frames_are_what_counts(chunk_size: u32, data: Option<Seq<u8>>)
    ensures
        captured(chunk_size, data) is Some <==> data is Some && chunk_size >= 4,
        captured(chunk_size, data) matches Some(samples) ==> samples.len() == chunk_size as int / 4
            * 2,
{
}

/// Only the whole frames of the chunk count: what stands behind them in the buffer, and a rest
/// of a frame, change nothing.
pub proof fn only_whole_frames_count(
    a: Seq<i16>,
    chunk_a: u32,
    data_a: Seq<u8>,
    b: Seq<i16>,
    chunk_b: u32,
    data_b: Seq<u8>,
)
    requires
        chunk_a / 4 == chunk_b / 4,
        are_samples_of(a, chunk_a, data_a),
        are_samples_of(b, chunk_b, data_b),
        chunk_a as int / 4 * 4 <= data_a.len(),
        chunk_b as int / 4 * 4 <= data_b.len(),
        data_a.take(chunk_a as int / 4 * 4) == data_b.take(chunk_b as int / 4 * 4),
    ensures
        a == b,
{
    let head = data_a.take(chunk_a as int / 4 * 4);
    assert forall|i: int| 0 <= i < a.len() implies a[i] == b[i] by {
        assert(data_a[2 * i] == head[2 * i]);
        assert(data_b[2 * i] == head[2 * i]);
        assert(data_a[2 * i + 1] == head[2 * i + 1]);
        assert(data_b[2 * i + 1] == head[2 * i + 1]);
    }
    assert(a =~= b);
}

/// The properties that pairs of keys and values make up; of two with one key the later counts.
pub open spec fn properties_of(pairs: Seq<(Seq<char>, Seq<char>)>) -> Map<Seq<char>, Seq<char>>
    decreases pairs.len(),
{
    if pairs.len() == 0 {
        Map::empty()
    } else {
        properties_of(pairs.drop_last()).insert(pairs.last().0, pairs.last().1)
    }
}

/// The fields at `at` and behind it are a key and its value.
pub open spec fn pair_at(fields: Seq<TagField>, at: int, pair: (Seq<char>, Seq<char>)) -> bool {
    &&& fields[at] is Text && fields[at]->Text_0@ == pair.0
    &&& fields[at + 1] is Text && fields[at + 1]->Text_0@ == pair.1
}

/// `fields` starts with a list of `pairs`: their number, then each key and its value.
pub open spec fn lists(fields: Seq<TagField>, pairs: Seq<(Seq<char>, Seq<char>)>) -> bool {
    &&& fields.len() > 2 * pairs.len()
    &&& fields[0] is Int && fields[0]->Int_0 == pairs.len()
    &&& forall|i: int|
        0 <= i < pairs.len() ==> pair_at(fields, 2 * i + 1, #[trigger] pairs[i])
}

/// Reading on after the first `done` pairs gives all of them.
proof fn reading_on(fields: Seq<TagField>, pairs: Seq<(Seq<char>, Seq<char>)>, done: int)
    requires
        lists(fields, pairs),
        0 <= done <= pairs.len(),
    ensures
        read_pairs(fields, 2 * done + 1, pairs.len() - done, properties_of(pairs.take(done)))
            == properties_of(pairs),
    decreases pairs.len() - done,
{
    if done < pairs.len() {
        reading_on(fields, pairs, done + 1);
        assert(pairs.take(done + 1).drop_last() =~= pairs.take(done));
        assert(field_text(fields, 2 * done + 1) == Some(pairs[done].0));
    } else {
        assert(pairs.take(done) =~= pairs);
    }
}

/// A tag that lists keys and values says just those, and the title is the value listed last for
/// `media.name`; fields behind the listed ones do not count.
pub proof fn listed_properties_are_read(
    fields: Seq<TagField>,
    pairs: Seq<(Seq<char>, Seq<char>)>,
)
    requires
        lists(fields, pairs),
    ensures
        tag_properties(fields) == properties_of(pairs),
        media_name(TAG_PARAM, Some(fields)) == (if properties_of(pairs).contains_key(
            "media.name"@,
        ) {
            Some(properties_of(pairs)["media.name"@])
        } else {
            None
        }),
{
    reading_on(fields, pairs, 0);
    assert(pairs.take(0) =~= Seq::empty());
}

/// The last pair of a key gives its value.
proof fn last_pair_counts(pairs: Seq<(Seq<char>, Seq<char>)>, key: Seq<char>, j: int)
    requires
        0 <= j < pairs.len(),
        pairs[j].0 == key,
        forall|l: int| j < l < pairs.len() ==> (#[trigger] pairs[l]).0 != key,
    ensures
        properties_of(pairs).contains_key(key),
        properties_of(pairs)[key] == pairs[j].1,
    decreases pairs.len(),
{
    if j < pairs.len() - 1 {
        last_pair_counts(pairs.drop_last(), key, j);
    }
}

/// Pairs without a key give it no value.
proof fn absent_key(pairs: Seq<(Seq<char>, Seq<char>)>, key: Seq<char>)
    requires
        forall|l: int| 0 <= l < pairs.len() ==> (#[trigger] pairs[l]).0 != key,
    ensures
        !properties_of(pairs).contains_key(key),
    decreases pairs.len(),
{
    if pairs.len() > 0 {
        absent_key(pairs.drop_last(), key);
    }
}

/// The title is the whole value behind the last `media.name` that the tag lists, whatever else
/// it lists, and there is none where it lists no `media.name`. The fields are a count, then that
/// many keys and values in turn.
pub proof fn title_is_the_last_listed_name(
    fields: Seq<TagField>,
    pairs: Seq<(Seq<char>, Seq<char>)>,
)
    requires
        fields.len() > 2 * pairs.len(),
        fields[0] is Int && fields[0]->Int_0 == pairs.len(),
        forall|i: int|
            0 <= i < pairs.len() ==> pair_at(fields, 2 * i + 1, #[trigger] pairs[i]),
    ensures
        (forall|j: int| 0 <= j < pairs.len() ==> (#[trigger] pairs[j]).0 != "media.name"@)
            ==> media_name(17, Some(fields)) is None,
        forall|j: int|
            0 <= j < pairs.len() && (#[trigger] pairs[j]).0 == "media.name"@ && (forall|l: int|
                j < l < pairs.len() ==> (#[trigger] pairs[l]).0 != "media.name"@) ==> media_name(
                17,
                Some(fields),
            ) == Some(pairs[j].1),
{
    listed_properties_are_read(fields, pairs);
    let key = "media.name"@;
    if forall|j: int| 0 <= j < pairs.len() ==> (#[trigger] pairs[j]).0 != key {
        absent_key(pairs, key);
    }
    assert forall|j: int|
        0 <= j < pairs.len() && (#[trigger] pairs[j]).0 == key && (forall|l: int|
            j < l < pairs.len() ==> (#[trigger] pairs[l]).0 != key) implies media_name(
        17,
        Some(fields),
    ) == Some(pairs[j].1) by {
        last_pair_counts(pairs, key, j);
    }
}

/// What was known before reading on counts where nothing later replaces it.
proof fn reading_keeps_what_was_known(
    fields: Seq<TagField>,
    at: int,
    left: int,
    known: Map<Seq<char>, Seq<char>>,
    key: Seq<char>,
)
    ensures
        ({
            let fresh = read_pairs(fields, at, left, Map::empty());
            let all = read_pairs(fields, at, left, known);
            if fresh.contains_key(key) {
                all.contains_key(key) && all[key] == fresh[key]
            } else {
                all.contains_key(key) == known.contains_key(key) && (known.contains_key(key)
                    ==> all[key] == known[key])
            }
        }),
    decreases left,
{
    if left > 0 {
        match (field_text(fields, at), field_text(fields, at + 1)) {
            (Some(k), Some(v)) => {
                let one = Map::<Seq<char>, Seq<char>>::empty().insert(k, v);
                reading_keeps_what_was_known(fields, at + 2, left - 1, known.insert(k, v), key);
                reading_keeps_what_was_known(fields, at + 2, left - 1, one, key);
            },
            (Some(_), None) => {
                reading_keeps_what_was_known(fields, at + 2, left - 1, known, key);
            },
            (None, _) => {
                reading_keeps_what_was_known(fields, at + 1, left - 1, known, key);
            },
        }
    }
}

/// Reading does not depend on what stands before the offset.
proof fn reading_from_an_offset(
    a: Seq<TagField>,
    b: Seq<TagField>,
    at: int,
    shift: int,
    left: int,
    known: Map<Seq<char>, Seq<char>>,
)
    requires
        0 <= at,
        0 <= at + shift,
        a.len() + shift == b.len(),
        forall|i: int| at <= i < a.len() ==> #[trigger] a[i] == b[i + shift],
    ensures
        read_pairs(a, at, left, known) == read_pairs(b, at + shift, left, known),
    decreases left,
{
    if left > 0 {
        assert(field_text(a, at) == field_text(b, at + shift)) by {
            if at < a.len() {
                assert(a[at] == b[at + shift]);
            }
        }
        assert(field_text(a, at + 1) == field_text(b, at + 1 + shift)) by {
            if at + 1 < a.len() {
                assert(a[at + 1] == b[at + 1 + shift]);
            }
        }
        match (field_text(a, at), field_text(a, at + 1)) {
            (Some(k), Some(v)) => {
                reading_from_an_offset(a, b, at + 2, shift, left - 1, known.insert(k, v));
            },
            (Some(_), None) => {
                reading_from_an_offset(a, b, at + 2, shift, left - 1, known);
            },
            (None, _) => {
                reading_from_an_offset(a, b, at + 1, shift, left - 1, known);
            },
        }
    }
}

/// A tag, field by field. The count stands first, and without one there is no title. A key and
/// its value use up one of the count, and the value counts as the title where the key is
/// `media.name` and nothing behind them gives another; what is no text where a key is due uses
/// up one of the count and only itself; and a key without a text behind it uses up one of the
/// count, itself and what stands behind it.
pub proof fn tags_are_read_field_by_field(n: i32, rest: Seq<TagField>)
    ensures
        ({
            let tag = |count: int, behind: Seq<TagField>|
                media_name(17, Some(seq![TagField::Int(count as i32)] + behind));
            if n <= 0 || rest.len() == 0 {
                tag(n as int, rest) is None
            } else if !(rest[0] is Text) {
                tag(n as int, rest) == tag(n - 1, rest.skip(1))
            } else if rest.len() == 1 {
                tag(n as int, rest) is None
            } else if !(rest[1] is Text) {
                tag(n as int, rest) == tag(n - 1, rest.skip(2))
            } else {
                tag(n as int, rest) == match tag(n - 1, rest.skip(2)) {
                    Some(later) => Some(later),
                    None => if rest[0]->Text_0@ == "media.name"@ {
                        Some(rest[1]->Text_0@)
                    } else {
                        None
                    },
                }
            }
        }),
{
    let fields = seq![TagField::Int(n)] + rest;
    let none = Map::<Seq<char>, Seq<char>>::empty();
    let less = (n - 1) as i32;
    if n > 0 && rest.len() > 0 {
        assert(field_text(fields, 1) == match rest[0] {
            TagField::Text(s) => Some(s@),
            _ => None,
        });
        if !(rest[0] is Text) {
            let other = seq![TagField::Int(less)] + rest.skip(1);
            reading_from_an_offset(fields, other, 2, -1, n - 1, none);
        } else if rest.len() == 1 {
            nothing_past_the_end(fields, 3, n - 1, none);
        } else {
            let other = seq![TagField::Int(less)] + rest.skip(2);
            assert(field_text(fields, 2) == match rest[1] {
                TagField::Text(s) => Some(s@),
                _ => None,
            });
            reading_from_an_offset(fields, other, 3, -2, n - 1, none);
            if rest[1] is Text {
                let key = rest[0]->Text_0@;
                let value = rest[1]->Text_0@;
                reading_keeps_what_was_known(
                    fields,
                    3,
                    n - 1,
                    none.insert(key, value),
                    "media.name"@,
                );
            }
        }
    } else if n > 0 {
        nothing_past_the_end(fields, 1, n as int, none);
    }
}

/// Without a count at its start a tag gives no title, and neither does a parameter that has no
/// list of fields.
pub proof fn no_count_gives_no_title(id: u32, fields: Seq<TagField>)
    requires
        fields.len() > 0 ==> !(fields[0] is Int),
    ensures
        media_name(id, Some(fields)) is None,
        media_name(id, None) is None,
{
}

/// No other parameter than the stream's tag gives a title.
pub proof fn other_parameters_give_no_title(id: u32, info: Option<Seq<TagField>>)
    requires
        id != 17,
    ensures
        media_name(id, info) is None,
{
}

/// The sink of a receiver is described by the receiver's whole name, and is otherwise the same
/// for every receiver: an audio sink that captures two channels of 16-bit samples at 48 kHz.
pub proof fn sinks_differ_in_their_description(settings: SinkSettings, receiver_name: Seq<char>)
    requires
        settings.are_for(receiver_name),
    ensures
        settings.node_description@ == "Cast to “"@ + receiver_name + "”"@,
        settings.app_name@ == "rust-chromecast-sink"@,
        settings.stream_name@ == "pw-cast"@,
        settings.media_type@ == "Audio"@,
        settings.media_class@ == "Audio/Sink"@,
        settings.media_category@ == "Capture"@,
        settings.media_name@ == "pw-cast"@,
        numeral_value(settings.audio_channels@) == 2,
        settings.direction == Direction::Input,
        settings.flags.autoconnect && settings.flags.map_buffers && settings.flags.rt_process,
        settings.format == SampleFormat::S16LE,
        settings.rate == 48000,
        settings.channels == 2,
{
    numerals_are_read_back(2);
}

} // verus!
