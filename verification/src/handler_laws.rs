//! What holds of every stream, and of the answers to any two requests.

use vstd::prelude::*;

use crate::handler::{stream_head, stream_settings, Answer, PipeWireHandler, Setting};
use mp3lame_encoder::{Bitrate, Quality};

verus! {

/// A packet was encoded to an item, which took the stream from one state to the next.
pub open spec fn encodes(
    before: PipeWireHandler,
    packet: Seq<i16>,
    item: Seq<u8>,
    after: PipeWireHandler,
) -> bool {
    &&& after.settings() == before.settings()
    &&& after.samples() == before.samples() + packet
    &&& after.output() == before.output() + item
}

/// The packets were encoded, one after the other, to the items; `states` are those of the stream
/// before the first packet and after each.
pub open spec fn streams(
    states: Seq<PipeWireHandler>,
    packets: Seq<Seq<i16>>,
    items: Seq<Seq<u8>>,
) -> bool {
    &&& states.len() == packets.len() + 1
    &&& items.len() == packets.len()
    &&& forall|i: int|
        0 <= i < packets.len() ==> encodes(
            states[i],
            #[trigger] packets[i],
            items[i],
            states[i + 1],
        )
}

/// A stream is the successive output of one encoder: its settings never change, the packets were
/// handed to it in their order with nothing between them, and the items, one behind the other,
/// are what it gave out meanwhile.
pub proof fn stream_is_the_output_of_one_encoder(
    states: Seq<PipeWireHandler>,
    packets: Seq<Seq<i16>>,
    items: Seq<Seq<u8>>,
)
    requires
        streams(states, packets, items),
    ensures
        states.last().settings() == states[0].settings(),
        states.last().samples() == states[0].samples() + packets.flatten(),
        states.last().output() == states[0].output() + items.flatten(),
    decreases packets.len(),
{
    if packets.len() == 0 {
        assert(packets =~= Seq::empty());
        assert(items =~= Seq::empty());
        assert(states.last().samples() =~= states[0].samples() + packets.flatten());
        assert(states.last().output() =~= states[0].output() + items.flatten());
    } else {
        let before = states.drop_last();
        let head = packets.drop_last();
        let made = items.drop_last();
        assert forall|i: int| 0 <= i < head.len() implies encodes(
            before[i],
            #[trigger] head[i],
            made[i],
            before[i + 1],
        ) by {
            assert(head[i] == packets[i]);
        }
        stream_is_the_output_of_one_encoder(before, head, made);
        assert(encodes(before.last(), packets.last(), items.last(), states.last()));
        head.lemma_flatten_push(packets.last());
        made.lemma_flatten_push(items.last());
        assert(head.push(packets.last()) =~= packets);
        assert(made.push(items.last()) =~= items);
        assert(states.last().samples() =~= states[0].samples() + packets.flatten());
        assert(states.last().output() =~= states[0].output() + items.flatten());
    }
}

/// A request influences only what is logged of it: any two are answered with the same head, and
/// one without a readable user agent is logged as one whose user agent is empty.
pub proof fn requests_change_only_the_log(
    a: Answer,
    agent_a: Option<Seq<char>>,
    b: Answer,
    agent_b: Option<Seq<char>>,
)
    requires
        a.answers(agent_a),
        b.answers(agent_b),
    ensures
        a.head@ == b.head@,
        agent_a is None && agent_b == Some(Seq::<char>::empty()) ==> a.log_line@ == b.log_line@,
{
}

/// Every request is answered with an MP3 stream that is not cached and comes in chunks, and its
/// user agent is logged whole.
pub proof fn requests_are_answered_with_a_stream(answer: Answer, agent: Option<Seq<char>>)
    requires
        answer.answers(agent),
    ensures
        answer.head.status == 200,
        answer.head.headers@.len() == 3,
        answer.head.headers@[0].0@ == "Content-Type"@,
        answer.head.headers@[0].1@ == "audio/mpeg"@,
        answer.head.headers@[1].0@ == "Cache-Control"@,
        answer.head.headers@[1].1@ == "no-cache"@,
        answer.head.headers@[2].0@ == "Transfer-Encoding"@,
        answer.head.headers@[2].1@ == "chunked"@,
        agent is Some ==> answer.log_line@ == "Serving new HTTP stream request for "@ + agent->0,
        agent is None ==> answer.log_line@ == "Serving new HTTP stream request for "@,
{
    let headers = answer.head@.1;
    assert(headers == stream_head().1);
    assert(headers.len() == answer.head.headers@.len());
    assert(headers[0] == (answer.head.headers@[0].0@, answer.head.headers@[0].1@));
    assert(headers[1] == (answer.head.headers@[1].0@, answer.head.headers@[1].1@));
    assert(headers[2] == (answer.head.headers@[2].0@, answer.head.headers@[2].1@));
    if agent is None {
        assert(answer.log_line@ =~= "Serving new HTTP stream request for "@);
    }
}

/// Every stream has two channels at 48 kHz, and is encoded with 320 kbps and the best quality.
pub proof fn streams_are_encoded_at_their_best()
    ensures
        stream_settings() =~= seq![
            Setting::NumChannels(2),
            Setting::InputRate(48000),
            Setting::BitRate(Bitrate::Kbps320),
            Setting::QualityLevel(Quality::Best),
        ],
{
}

} // verus!
