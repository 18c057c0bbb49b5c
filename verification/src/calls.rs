//! What each call gives, whatever it is called with: said of the arguments and results of the
//! functions themselves.

use vstd::prelude::*;
use vstd::utf8::{decode_utf8, encode_utf8};

use crate::chromecast::{Action, Chromecast, Outcome, Phase, TrackMetadata};
use crate::cover::{
    cover_document, cover_fits, generate_cover_svg_base64, make_cover, make_data_uri, svg_data_uri,
    uri_fits, BLOCK_END, BLOCK_START,
};
use crate::cover_laws::{
    covers_show_their_titles, data_uri_gives_back_the_document, decoded, shown_between,
};
use crate::device::{
    device_views, devices_in, parse_cast_devices, CastDevice, IpAddr, Record, RecordKind,
};
use crate::device_answers::{
    announced_instances_are_found, devices_are_the_addressed_instances, has_attribute, holds, is_at,
    is_device,
};
use crate::discovery::{select_device, Discovery, Heard, SelectionError};
use crate::discovery_laws::{
    answers_are_taken_up_to_a_known_address, choice_is_the_first_that_mentions,
    errors_say_what_was_looked_for, mentions, takes_in,
};
use crate::handler::{Answer, HandlerError, PipeWireHandler, Setting};
use crate::handler_laws::{requests_are_answered_with_a_stream, streams_are_encoded_at_their_best};
use crate::options::Options;
use crate::sink::{media_name, PipeWireSink, SinkSettings, TagField};
use crate::sink_laws::{
    bytes_of, every_stored_sample_is_captured, no_count_gives_no_title,
    other_parameters_give_no_title, pair_at, sinks_differ_in_their_description,
    tags_are_read_field_by_field, title_is_the_last_listed_name,
};
use crate::text::{contains, decimal, find, head_before, push_decimal, to_ascii_lower};
use crate::text_laws::{
    first_occurrence_is_the_first_cut, held_text_stands_between_two_others, numeral_value,
    numerals_are_read_back, only_ascii_capitals_are_made_small,
};
use mp3lame_encoder::{Bitrate, Quality};

verus! {

/// `parse_cast_devices` gives each instance of the cast service that has an address, each once
/// and nothing else, with its own address, model, name and status.
pub proof fn parsing_gives_the_addressed_instances(records: &Vec<Record>, r: Vec<CastDevice>)
    requires
        call_ensures(parse_cast_devices, (records,), r),
    ensures
        exists|instances: Seq<Seq<char>>|
            {
                &&& instances.no_duplicates()
                &&& instances.len() == r@.len()
                &&& forall|k: int|
                    0 <= k < instances.len() ==> is_device(
                        records@,
                        #[trigger] instances[k],
                        r@[k]@,
                    )
                &&& forall|instance: Seq<char>, bits: u32| #[trigger]
                    is_at(records@, instance, bits) ==> instances.contains(instance)
            },
        forall|k: int|
            0 <= k < r@.len() ==> {
                &&& (#[trigger] r@[k])@.ip_addr == r@[k].ip_addr
                &&& r@[k]@.model == r@[k].model@
                &&& r@[k]@.name == r@[k].name@
                &&& r@[k]@.status is Some <==> r@[k].status is Some
                &&& r@[k].status is Some ==> r@[k]@.status->0 == r@[k].status->0@
            },
{
    devices_are_the_addressed_instances(records@);
    let instances = choose|instances: Seq<Seq<char>>|
        {
            &&& instances.no_duplicates()
            &&& instances.len() == devices_in(records@).len()
            &&& forall|k: int|
                0 <= k < instances.len() ==> is_device(
                    records@,
                    #[trigger] instances[k],
                    devices_in(records@)[k],
                )
            &&& forall|instance: Seq<char>, bits: u32| #[trigger]
                is_at(records@, instance, bits) ==> instances.contains(instance)
        };
    assert(device_views(r@).len() == r@.len());
    assert forall|k: int| 0 <= k < instances.len() implies is_device(
        records@,
        #[trigger] instances[k],
        r@[k]@,
    ) by {
        assert(device_views(r@)[k] == r@[k]@);
    }
}

/// Where an SRV record names an instance and its host, and an A record behind it gives the
/// host's address, `parse_cast_devices` gives a device at that address, with the name, model and
/// status that the instance's own last TXT record lists, so that two instances are two devices.
/// (No SRV record in between speaks of that host, and no address behind is one of a host on
/// which the instance was said to run.)
pub proof fn parsing_finds_announced_instances(
    records: &Vec<Record>,
    r: Vec<CastDevice>,
    instance: Seq<char>,
    srv: int,
    a: int,
    bits: u32,
)
    requires
        call_ensures(parse_cast_devices, (records,), r),
        !holds(instance, "._googlecast"@),
        0 <= srv < a < records@.len(),
        records@[srv].name@ == instance + "._googlecast._tcp.local"@,
        records@[srv].kind is SRV,
        records@[srv].kind->target@ == records@[a].name@,
        records@[a].kind == RecordKind::A(bits),
        forall|k: int|
            srv < k < a && (#[trigger] records@[k]).kind is SRV ==> records@[k].kind->target@
                != records@[a].name@,
        forall|k: int, j: int|
            a < k < records@.len() && 0 <= j < k && (#[trigger] records@[k]).kind is A
                && (#[trigger] records@[j]).kind is SRV && records@[j].kind->target@
                == records@[k].name@ ==> !(instance + "._googlecast"@).is_prefix_of(
                records@[j].name@,
            ),
    ensures
        exists|d: int|
            {
                &&& 0 <= d < r@.len()
                &&& (#[trigger] r@[d]).ip_addr == IpAddr::V4(bits)
                &&& forall|x: Seq<char>| #[trigger]
                    has_attribute(records@, instance, "fn"@, x) ==> r@[d].name@ == x
                &&& forall|x: Seq<char>| #[trigger]
                    has_attribute(records@, instance, "md"@, x) ==> r@[d].model@ == x
                &&& forall|x: Seq<char>| #[trigger]
                    has_attribute(records@, instance, "rs"@, x) && x.len() > 0
                        ==> r@[d].status is Some && r@[d].status->0@ == x
            },
{
    announced_instances_are_found(records@, instance, srv, a, bits);
    let d = choose|d: int|
        0 <= d < devices_in(records@).len() && (#[trigger] devices_in(records@)[d]).ip_addr
            == IpAddr::V4(bits) && is_device(records@, instance, devices_in(records@)[d]);
    assert(device_views(r@).len() == r@.len());
    assert(device_views(r@)[d] == r@[d]@);
    assert(r@[d].ip_addr == IpAddr::V4(bits));
}

/// `generate_cover_svg_base64` gives the URI of a document that shows the whole text as it is:
/// between a beginning and an end that are the same for all texts, at the place of the block's
/// content, stands what reads, with its escapes resolved, as the text. `make_cover` gives such a
/// document itself.
pub proof fn covers_show_what_they_are_made_for()
    ensures
        exists|before: Seq<char>, behind: Seq<char>|
            {
                &&& BLOCK_START@.is_suffix_of(before)
                &&& BLOCK_END@.is_prefix_of(behind)
                &&& forall|text: &str, r: String| #[trigger]
                    call_ensures(make_cover, (text,), r) ==> shown_between(r@, before, behind)
                        == Some(text@)
                &&& forall|text: &str, r: String| #[trigger]
                    call_ensures(generate_cover_svg_base64, (text,), r)
                        ==> "data:image/svg+xml;base64,"@.is_prefix_of(r@) && shown_between(
                        decode_utf8(
                            decoded(r@.skip("data:image/svg+xml;base64,"@.len() as int)),
                        ),
                        before,
                        behind,
                    ) == Some(text@)
            },
{
    covers_show_their_titles();
    let (before, behind) = choose|before: Seq<char>, behind: Seq<char>|
        {
            &&& BLOCK_START@.is_suffix_of(before)
            &&& BLOCK_END@.is_prefix_of(behind)
            &&& forall|title: Seq<char>| #[trigger]
                shown_between(cover_document(title), before, behind) == Some(title)
            &&& forall|title: Seq<char>|
                shown_between(
                    decode_utf8(
                        decoded(
                            (#[trigger] svg_data_uri(cover_document(title))).skip(
                                "data:image/svg+xml;base64,"@.len() as int,
                            ),
                        ),
                    ),
                    before,
                    behind,
                ) == Some(title)
        };
    assert forall|text: &str, r: String| #[trigger]
        call_ensures(make_cover, (text,), r) implies shown_between(r@, before, behind) == Some(
        text@,
    ) by {
        assert(shown_between(cover_document(text@), before, behind) == Some(text@));
    }
    assert forall|text: &str, r: String| #[trigger]
        call_ensures(
            generate_cover_svg_base64,
            (text,),
            r,
        ) implies "data:image/svg+xml;base64,"@.is_prefix_of(r@) && shown_between(
        decode_utf8(decoded(r@.skip("data:image/svg+xml;base64,"@.len() as int))),
        before,
        behind,
    ) == Some(text@) by {
        data_uri_gives_back_the_document(cover_document(text@));
        assert(r@ == svg_data_uri(cover_document(text@)));
    }
}

/// `make_data_uri` gives a URI from which the document is read back.
pub proof fn uris_give_back_their_document(document: &str, r: String)
    requires
        call_ensures(make_data_uri, (document,), r),
    ensures
        "data:image/svg+xml;base64,"@.is_prefix_of(r@),
        decode_utf8(decoded(r@.skip("data:image/svg+xml;base64,"@.len() as int))) == document@,
{
    data_uri_gives_back_the_document(document@);
}

/// Only what does not fit in memory has no cover: four characters for every three bytes begun.
pub proof fn covers_fit_up_to_memory(text: &str, r: bool)
    requires
        call_ensures(cover_fits, (text,), r),
    ensures
        r == uri_fits(cover_document(text@)),
        uri_fits(cover_document(text@)) <==> (encode_utf8(cover_document(text@)).len() + 2) / 3 * 4
            <= isize::MAX,
        (encode_utf8(cover_document(text@)).len() + 2) / 3 * 4 <= isize::MAX ==> call_requires(
            generate_cover_svg_base64,
            (text,),
        ),
{
}

/// `PipeWireSink::process` gives every sample that the buffer stores for the whole frames of the
/// chunk, as it was stored, and no other; and nothing where there is no whole frame or no
/// buffer. It can be called with every buffer that has the chunk's whole frames.
pub proof fn processing_captures_every_sample(
    stored: Seq<i16>,
    chunk_size: u32,
    data: Option<&[u8]>,
    r: Option<Vec<i16>>,
)
    requires
        call_ensures(PipeWireSink::process, (chunk_size, data), r),
        data is Some ==> chunk_size as int / 4 * 4 <= data->0@.len(),
        data is Some ==> stored.len() == chunk_size as int / 4 * 2,
        data is Some ==> forall|i: int|
            0 <= i < stored.len() ==> (data->0@[2 * i], data->0@[2 * i + 1]) == bytes_of(
                #[trigger] stored[i],
            ),
    ensures
        r is Some <==> data is Some && chunk_size >= 4,
        r is Some ==> r->0@ == stored,
        call_requires(PipeWireSink::process, (chunk_size, data)),
{
    if data is Some && chunk_size >= 4 {
        every_stored_sample_is_captured(stored, chunk_size, data->0@);
    }
}

/// The text of what may be there.
pub open spec fn text_of(o: Option<String>) -> Option<Seq<char>> {
    match o {
        Some(s) => Some(s@),
        None => None,
    }
}

/// `PipeWireSink::param_changed` gives the whole value behind the last `media.name` of a tag
/// that lists a count and that many keys and values, and nothing where there is none.
pub proof fn titles_are_the_last_listed_names(
    fields: &Vec<TagField>,
    r: Option<String>,
    pairs: Seq<(Seq<char>, Seq<char>)>,
)
    requires
        call_ensures(PipeWireSink::param_changed, (17u32, Some(fields)), r),
        fields@.len() > 2 * pairs.len(),
        fields@[0] is Int && fields@[0]->Int_0 == pairs.len(),
        forall|i: int|
            0 <= i < pairs.len() ==> pair_at(fields@, 2 * i + 1, #[trigger] pairs[i]),
    ensures
        (forall|j: int| 0 <= j < pairs.len() ==> (#[trigger] pairs[j]).0 != "media.name"@)
            ==> r is None,
        forall|j: int|
            0 <= j < pairs.len() && (#[trigger] pairs[j]).0 == "media.name"@ && (forall|l: int|
                j < l < pairs.len() ==> (#[trigger] pairs[l]).0 != "media.name"@) ==> r is Some
                && r->0@ == pairs[j].1,
{
    title_is_the_last_listed_name(fields@, pairs);
}

/// How the titles of two tags relate, of which one is the other without what it begins with: a
/// key and its value count where nothing behind them gives a title; what is no text where a key
/// is due is passed over alone, and a key without a text behind it together with what is there,
/// each time at the cost of one of the count.
pub proof fn titles_of_tags_relate(
    whole: &Vec<TagField>,
    title: Option<String>,
    less: &Vec<TagField>,
    later: Option<String>,
    n: i32,
    rest: Seq<TagField>,
)
    requires
        call_ensures(PipeWireSink::param_changed, (17u32, Some(whole)), title),
        call_ensures(PipeWireSink::param_changed, (17u32, Some(less)), later),
        n > 0,
        rest.len() > 0,
        whole@ == seq![TagField::Int(n)] + rest,
        less@ == seq![TagField::Int((n - 1) as i32)] + (if !(rest[0] is Text) {
            rest.skip(1)
        } else if rest.len() == 1 {
            rest.skip(1)
        } else {
            rest.skip(2)
        }),
    ensures
        later is Some ==> title is Some && title->0@ == later->0@,
        later is None ==> (title is Some <==> rest.len() > 1 && rest[0] is Text && rest[1] is Text
            && rest[0]->Text_0@ == "media.name"@),
        later is None && title is Some ==> title->0@ == rest[1]->Text_0@,
{
    tags_are_read_field_by_field(n, rest);
    assert(text_of(title) == media_name(17, Some(whole@)));
    assert(text_of(later) == media_name(17, Some(less@)));
    if rest[0] is Text && rest.len() == 1 {
        tags_are_read_field_by_field((n - 1) as i32, rest.skip(1));
    }
}

/// `PipeWireSink::param_changed` gives no title for other parameters, without fields, without a
/// count, for a count of none, or where nothing follows the count.
pub proof fn no_tag_no_title(id: u32, info: Option<&Vec<TagField>>, r: Option<String>)
    requires
        call_ensures(PipeWireSink::param_changed, (id, info), r),
        id != 17 || info is None || info->0@.len() <= 1 || !(info->0@[0] is Int)
            || info->0@[0]->Int_0 <= 0,
    ensures
        r is None,
{
    if id == 17 && info is Some {
        let fields = info->0@;
        if fields.len() > 0 && fields[0] is Int {
            let n = fields[0]->Int_0;
            let rest = fields.skip(1);
            assert(fields =~= seq![TagField::Int(n)] + rest);
            tags_are_read_field_by_field(n, rest);
        } else {
            no_count_gives_no_title(id, fields);
        }
    } else if info is Some {
        other_parameters_give_no_title(id, Some(info->0@));
    }
}

/// `select_device` gives the first device whose name or model is something, the text in any
/// case of its ASCII letters, and something; without a text, the first of all; and an error only
/// where there is no such device.
pub proof fn selecting_gives_the_first_that_mentions<'a>(
    devices: &'a Vec<CastDevice>,
    matcher: Option<&str>,
    r: Result<&'a CastDevice, SelectionError>,
)
    requires
        call_ensures(select_device, (devices, matcher), r),
    ensures
        matcher is Some && r is Ok ==> exists|i: int|
            {
                &&& 0 <= i < devices@.len()
                &&& (#[trigger] devices@[i])@ == r->Ok_0@
                &&& mentions(devices@[i].name@, matcher->0@) || mentions(
                    devices@[i].model@,
                    matcher->0@,
                )
                &&& forall|j: int|
                    0 <= j < i ==> !mentions((#[trigger] devices@[j]).name@, matcher->0@)
                        && !mentions(devices@[j].model@, matcher->0@)
            },
        matcher is Some && r is Err ==> {
            &&& forall|j: int|
                0 <= j < devices@.len() ==> !mentions((#[trigger] devices@[j]).name@, matcher->0@)
                    && !mentions(devices@[j].model@, matcher->0@)
            &&& r->Err_0 is NoMatch
            &&& r->Err_0->length == devices@.len()
            &&& r->Err_0->matcher@.len() == matcher->0@.len()
            &&& forall|i: int|
                0 <= i < matcher->0@.len() ==> (#[trigger] r->Err_0->matcher@[i]) as int
                    == matcher->0@[i] as int + (if 65 <= matcher->0@[i] as int <= 90 {
                    32int
                } else {
                    0int
                })
        },
        matcher is None ==> (r is Ok <==> devices@.len() > 0),
        matcher is None && r is Ok ==> r->Ok_0@ == devices@[0]@,
        matcher is None && r is Err ==> r->Err_0 is NoDevices,
{
    let views = device_views(devices@);
    assert(views.len() == devices@.len());
    assert(forall|i: int| 0 <= i < devices@.len() ==> #[trigger] views[i] == devices@[i]@);
    match matcher {
        Some(text) => {
            choice_is_the_first_that_mentions(views, text@);
            only_ascii_capitals_are_made_small(text@);
            if r is Ok {
                let device = r->Ok_0@;
                let i = choose|i: int|
                    {
                        &&& 0 <= i < views.len()
                        &&& #[trigger] views[i] == device
                        &&& mentions(device.name, text@) || mentions(device.model, text@)
                        &&& forall|j: int|
                            0 <= j < i ==> !mentions((#[trigger] views[j]).name, text@)
                                && !mentions(views[j].model, text@)
                    };
                assert(views[i] == devices@[i]@);
                assert forall|j: int| 0 <= j < i implies !mentions(
                    (#[trigger] devices@[j]).name@,
                    text@,
                ) && !mentions(devices@[j].model@, text@) by {
                    assert(views[j] == devices@[j]@);
                }
            } else {
                assert forall|j: int| 0 <= j < devices@.len() implies !mentions(
                    (#[trigger] devices@[j]).name@,
                    text@,
                ) && !mentions(devices@[j].model@, text@) by {
                    assert(views[j] == devices@[j]@);
                }
            }
        },
        None => {
            choice_is_the_first_that_mentions(views, Seq::empty());
        },
    }
}

/// `SelectionError::message` says how many devices there were and which text none matches.
pub proof fn messages_say_what_was_looked_for(error: &SelectionError, r: String)
    requires
        call_ensures(SelectionError::message, (error,), r),
    ensures
        match *error {
            SelectionError::NoMatch { length, matcher } => exists|n: Seq<char>|
                r@ == #[trigger] ("none of the "@ + n) + " Cast devices matches “"@ + matcher@
                    + "”"@ && numeral_value(n) == length && (n.len() > 1 ==> n[0] != '0'),
            SelectionError::NoDevices => r@ == "no Cast devices found"@,
        },
{
    errors_say_what_was_looked_for(*error);
}

/// `Discovery::step` adds the devices of an answer, in their order, up to the first one whose
/// address is known by then, at which the search ends; what cannot be received ends it, and a
/// search that is over stays as it is.
pub proof fn hearing_adds_new_devices(heard: Heard)
    ensures
        forall|d: &mut Discovery| #[trigger]
            call_ensures(Discovery::step, (d, heard), ()) ==> {
                &&& !d.listening() || heard is Closed ==> final(d).found() == d.found()
                &&& !d.listening() || heard is Closed ==> !final(d).listening()
                &&& d.listening() && heard is Answer ==> exists|k: int| #[trigger]
                    takes_in(
                        d.found(),
                        devices_in(heard->Answer_0@),
                        k,
                        final(d).found(),
                        final(d).listening(),
                    )
            },
{
    assert forall|d: &mut Discovery| #[trigger]
        call_ensures(
            Discovery::step,
            (d, heard),
            (),
        ) && d.listening() && heard is Answer implies exists|k: int| #[trigger]
        takes_in(
            d.found(),
            devices_in(heard->Answer_0@),
            k,
            final(d).found(),
            final(d).listening(),
        ) by {
        answers_are_taken_up_to_a_known_address(d.found(), devices_in(heard->Answer_0@));
    }
}

/// `Discovery::new` has found nothing and listens, and `Discovery::into_devices` gives every
/// device found, in the order in which they were.
pub proof fn searches_give_all_they_found(
    begun: Discovery,
    ended: Discovery,
    listens: bool,
    r: Vec<CastDevice>,
)
    requires
        call_ensures(Discovery::new, (), begun),
        call_ensures(Discovery::is_listening, (&begun,), listens),
        call_ensures(Discovery::into_devices, (ended,), r),
    ensures
        begun.found().len() == 0,
        listens,
        r@.len() == ended.found().len(),
        forall|i: int| 0 <= i < r@.len() ==> (#[trigger] r@[i])@ == ended.found()[i],
{
    assert(device_views(r@).len() == r@.len());
    assert forall|i: int| 0 <= i < r@.len() implies (#[trigger] r@[i])@ == ended.found()[i] by {
        assert(device_views(r@)[i] == r@[i]@);
    }
}

/// `PipeWireSink::start` names the sink after the whole name of the receiver, and gives the same
/// settings otherwise.
pub proof fn sinks_are_named_after_their_receiver(receiver_name: &str, r: SinkSettings)
    requires
        call_ensures(PipeWireSink::start, (receiver_name,), r),
    ensures
        r.node_description@ == "Cast to “"@ + receiver_name@ + "”"@,
        r.media_class@ == "Audio/Sink"@,
        numeral_value(r.audio_channels@) == 2,
        r.rate == 48000,
        r.channels == 2,
{
    sinks_differ_in_their_description(r, receiver_name@);
}

/// `PipeWireHandler::new` gives a stream of two channels at 48 kHz, 320 kbps and the best
/// quality, into which nothing went and of which nothing came.
pub proof fn streams_begin_empty(r: Result<PipeWireHandler, HandlerError>)
    requires
        call_ensures(PipeWireHandler::new, (), r),
        r is Ok,
    ensures
        r->Ok_0.settings() == seq![
            Setting::NumChannels(2),
            Setting::InputRate(48000),
            Setting::BitRate(Bitrate::Kbps320),
            Setting::QualityLevel(Quality::Best),
        ],
        r->Ok_0.samples().len() == 0,
        r->Ok_0.output().len() == 0,
{
    streams_are_encoded_at_their_best();
}

/// `PipeWireHandler::encode` hands every sample of the packet to the stream's encoder, changes
/// no setting, and gives all that the encoder gave out for it.
pub proof fn encoding_hands_on_whole_packets(packet: &Vec<i16>, r: Result<Vec<u8>, HandlerError>)
    ensures
        forall|h: &mut PipeWireHandler| #[trigger]
            call_ensures(PipeWireHandler::encode, (h, packet), r) ==> {
                &&& final(h).samples() == h.samples() + packet@
                &&& final(h).settings() == h.settings()
                &&& r is Ok ==> final(h).output() == h.output() + r->Ok_0@
                &&& r is Err ==> final(h).output() == h.output()
            },
{
}

/// `PipeWireHandler::encode` can be called with every packet of whole frames that a C `int` can
/// count.
pub proof fn whole_frames_can_be_encoded(packet: &Vec<i16>)
    requires
        packet@.len() % 2 == 0,
        packet@.len() <= i32::MAX,
    ensures
        forall|h: &mut PipeWireHandler| #[trigger]
            call_requires(PipeWireHandler::encode, (h, packet)),
{
}

/// `PipeWireHandler::call` answers every request alike, and logs the whole user agent.
pub proof fn calls_are_answered_alike(user_agent: Option<&str>, r: Answer)
    requires
        call_ensures(PipeWireHandler::call, (user_agent,), r),
    ensures
        r.head.status == 200,
        r.head.headers@.len() == 3,
        r.head.headers@[0].0@ == "Content-Type"@ && r.head.headers@[0].1@ == "audio/mpeg"@,
        r.head.headers@[1].0@ == "Cache-Control"@ && r.head.headers@[1].1@ == "no-cache"@,
        r.head.headers@[2].0@ == "Transfer-Encoding"@ && r.head.headers@[2].1@ == "chunked"@,
        user_agent is Some ==> r.log_line@ == "Serving new HTTP stream request for "@
            + user_agent->0@,
        user_agent is None ==> r.log_line@ == "Serving new HTTP stream request for "@,
{
    match user_agent {
        Some(agent) => requests_are_answered_with_a_stream(r, Some(agent@)),
        None => requests_are_answered_with_a_stream(r, None),
    }
}

/// `Chromecast::start` begins with stopping what is played.
pub proof fn sessions_begin_with_stopping(
    listen_sock: &str,
    metadata: bool,
    r: (Chromecast, Action),
)
    requires
        call_ensures(Chromecast::start, (listen_sock, metadata), r),
    ensures
        r.0.phase() == Phase::Stopping,
        r.0.socket() == listen_sock@,
        r.0.metadata_wanted() == metadata,
        r.1 is Stop,
{
}

/// `Chromecast::step` takes a session on: the stream is loaded from the whole address after
/// stopping, however that went; titles are awaited once it is loaded, where they are wanted; and
/// every title is shown as it is, whereupon the next one is awaited, however that went.
pub proof fn sessions_load_and_show(outcome: Outcome, r: Action)
    ensures
        forall|s: &mut Chromecast| #[trigger]
            call_ensures(Chromecast::step, (s, outcome), r) ==> {
                &&& final(s).socket() == s.socket()
                &&& final(s).metadata_wanted() == s.metadata_wanted()
                &&& s.phase() == Phase::Stopping ==> {
                    &&& final(s).phase() == Phase::Loading
                    &&& r is Load
                    &&& r->Load_0.content_id@ == "http://"@ + s.socket()
                    &&& r->Load_0.content_type@ == "audio/*"@
                    &&& r->Load_0.live
                    &&& r->Load_0.device_name@ == "pw-cast"@
                }
                &&& s.phase() == Phase::Loading ==> if outcome is Succeeded && s.metadata_wanted() {
                    final(s).phase() == Phase::Listening && r is NextTitle
                } else {
                    final(s).phase() == Phase::Done && r is Finish
                }
                &&& s.phase() == Phase::Listening ==> if outcome is Title {
                    &&& final(s).phase() == Phase::Publishing
                    &&& r is Publish
                    &&& r->Publish_0.title@ == outcome->Title_0@
                    &&& r->Publish_0.shows(outcome->Title_0@)
                } else {
                    final(s).phase() == Phase::Done && r is Finish
                }
                &&& s.phase() == Phase::Publishing ==> final(s).phase() == Phase::Listening
                    && r is NextTitle
                &&& s.phase() == Phase::Done ==> final(s).phase() == Phase::Done && r is Finish
            },
{
}

/// `Chromecast::step` can be called with every outcome of what was done in its phase, and every
/// title whose cover fits in memory.
pub proof fn sessions_take_every_outcome(title: String)
    requires
        (encode_utf8(cover_document(title@)).len() + 2) / 3 * 4 <= isize::MAX,
    ensures
        forall|s: &mut Chromecast|
            s.phase() == Phase::Listening ==> #[trigger] call_requires(
                Chromecast::step,
                (s, Outcome::Title(title)),
            ),
        forall|s: &mut Chromecast|
            s.phase() == Phase::Listening ==> #[trigger] call_requires(
                Chromecast::step,
                (s, Outcome::NoMoreTitles),
            ),
        forall|s: &mut Chromecast|
            s.phase() != Phase::Listening ==> #[trigger] call_requires(
                Chromecast::step,
                (s, Outcome::Succeeded),
            ),
        forall|s: &mut Chromecast|
            s.phase() != Phase::Listening ==> #[trigger] call_requires(
                Chromecast::step,
                (s, Outcome::Failed),
            ),
{
}

/// `Chromecast::metadata` gives the whole title and one picture, the URI of its cover.
pub proof fn tracks_have_title_and_cover(media_name: &str, r: TrackMetadata, cover: String)
    requires
        call_ensures(Chromecast::metadata, (media_name,), r),
        call_ensures(generate_cover_svg_base64, (media_name,), cover),
    ensures
        r.title@ == media_name@,
        r.images@.len() == 1,
        r.images@[0]@ == cover@,
{
}

/// `Options::bind_address` is every interface and the given port, or port zero without one;
/// `Options::sends_metadata` is what was given, or yes.
pub proof fn options_count_as_given(options: &Options, address: String, sends: bool)
    requires
        call_ensures(Options::bind_address, (options,), address),
        call_ensures(Options::sends_metadata, (options,), sends),
    ensures
        exists|port: Seq<char>|
            {
                &&& address@ == #[trigger] ("0.0.0.0:"@ + port)
                &&& numeral_value(port) == match options.force_port {
                    Some(p) => p as int,
                    None => 0,
                }
                &&& port.len() > 1 ==> port[0] != '0'
                &&& port.len() > 0
                &&& forall|i: int| 0 <= i < port.len() ==> '0' <= #[trigger] port[i] <= '9'
            },
        sends == match options.metadata {
            Some(wanted) => wanted,
            None => true,
        },
{
    let port = decimal(options.port_or_any() as nat);
    numerals_are_read_back(options.port_or_any() as nat);
    assert(address@ == "0.0.0.0:"@ + port);
}

/// `find` gives the first place at which the pattern can be cut out of the text, `contains` says
/// whether there is one, and `head_before` gives what stands before it.
pub proof fn searching_finds_the_first_cut(
    s: &str,
    pat: &str,
    found: Option<usize>,
    held: bool,
    head: String,
)
    requires
        call_ensures(find, (s, pat), found),
        call_ensures(contains, (s, pat), held),
        call_ensures(head_before, (s, pat), head),
    ensures
        held <==> exists|p: Seq<char>, q: Seq<char>| s@ == #[trigger] (p + pat@ + q),
        held <==> found is Some,
        found is Some ==> {
            let at = found->0 as int;
            &&& at <= s@.len() - pat@.len()
            &&& s@ == s@.take(at) + pat@ + s@.skip(at + pat@.len())
            &&& forall|p: Seq<char>, q: Seq<char>|
                s@ == #[trigger] (p + pat@ + q) ==> at <= p.len()
            &&& head@ == s@.take(at)
        },
        found is None ==> head@ == s@,
{
    held_text_stands_between_two_others(s@, pat@);
    first_occurrence_is_the_first_cut(s@, pat@);
}

/// `to_ascii_lower` changes ASCII capitals, each by 32, and nothing else.
pub proof fn lowering_changes_ascii_capitals(s: &str, r: String)
    requires
        call_ensures(to_ascii_lower, (s,), r),
    ensures
        r@.len() == s@.len(),
        forall|i: int|
            0 <= i < s@.len() ==> (#[trigger] r@[i]) as int == s@[i] as int + (if 65 <= s@[i] as int
                <= 90 {
                32int
            } else {
                0int
            }),
{
    only_ascii_capitals_are_made_small(s@);
}

/// `push_decimal` appends a numeral that stands for the number.
pub proof fn pushed_numerals_are_read_back(n: u64)
    ensures
        forall|out: &mut String| #[trigger]
            call_ensures(push_decimal, (out, n), ()) ==> {
                let numeral = final(out)@.skip(out@.len() as int);
                &&& out@.is_prefix_of(final(out)@)
                &&& numeral_value(numeral) == n
                &&& numeral.len() > 0
                &&& numeral.len() > 1 ==> numeral[0] != '0'
            },
{
    numerals_are_read_back(n as nat);
    assert forall|out: &mut String| #[trigger] call_ensures(push_decimal, (out, n), ()) implies {
        let numeral = final(out)@.skip(out@.len() as int);
        &&& out@.is_prefix_of(final(out)@)
        &&& numeral_value(numeral) == n
        &&& numeral.len() > 0
        &&& numeral.len() > 1 ==> numeral[0] != '0'
    } by {
        assert(final(out)@.skip(out@.len() as int) =~= decimal(n as nat));
    }
}

} // verus!
