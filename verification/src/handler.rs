//! The serving end: the MP3 stream that a listener gets, and the head of the response that
//! carries it.

use mp3lame_encoder::{Bitrate, BuildError, Builder, EncodeError, Encoder, Quality};
use vstd::prelude::*;
use vstd::string::StringExecFns;

use crate::sink::{CHANNEL_COUNT, SAMPLE_RATE};

verus! {

/// The builder of an encoder.
#[verifier::external_type_specification]
#[verifier::external_body]
pub struct ExBuilder(mp3lame_encoder::Builder);

/// An encoder.
#[verifier::external_type_specification]
#[verifier::external_body]
pub struct ExEncoder(mp3lame_encoder::Encoder);

/// Why an encoder was not built.
#[verifier::external_type_specification]
#[verifier::external_body]
pub struct ExBuildError(mp3lame_encoder::BuildError);

/// Why samples were not encoded.
#[verifier::external_type_specification]
#[verifier::external_body]
pub struct ExEncodeError(mp3lame_encoder::EncodeError);

/// The bit rates that an encoder offers.
#[verifier::external_type_specification]
pub struct ExBitrate(mp3lame_encoder::Bitrate);

/// The qualities that an encoder offers.
#[verifier::external_type_specification]
pub struct ExQuality(mp3lame_encoder::Quality);

/// Something that a builder can be told.
pub enum Setting {
    NumChannels(u8),
    InputRate(u32),
    BitRate(Bitrate),
    QualityLevel(Quality),
}

/// The settings that a builder holds, in the order in which it was told them.
pub uninterp spec fn builder_settings(builder: Builder) -> Seq<Setting>;

/// The settings that an encoder was built with.
pub uninterp spec fn encoder_settings(encoder: Encoder) -> Seq<Setting>;

/// The interleaved samples that an encoder has been handed since it was built.
pub uninterp spec fn encoder_samples(encoder: Encoder) -> Seq<i16>;

/// The bytes that an encoder has given out since it was built, by the calls that succeeded.
pub uninterp spec fn encoder_output(encoder: Encoder) -> Seq<u8>;

/// `mp3lame_encoder::Builder::new`: a builder that was told nothing yet, unless there is no
/// memory for it.
pub assume_specification[ Builder::new ]() -> (r: Option<Builder>)
    ensures
        r matches Some(builder) ==> builder_settings(builder) == Seq::<Setting>::empty(),
;

/// `mp3lame_encoder::Builder::set_num_channels`: takes one channel or two.
pub assume_specification[ Builder::set_num_channels ](builder: &mut Builder, num: u8) -> (r: Result<
    (),
    BuildError,
>)
    ensures
        r is Ok <==> 1 <= num <= 2,
        r is Ok ==> builder_settings(*final(builder)) == builder_settings(*old(builder)).push(
            Setting::NumChannels(num),
        ),
        r is Err ==> builder_settings(*final(builder)) == builder_settings(*old(builder)),
;

/// `mp3lame_encoder::Builder::set_sample_rate`: takes every rate but zero. A rate that is no C
/// `int` would be taken for another.
pub assume_specification[ Builder::set_sample_rate ](builder: &mut Builder, rate: u32) -> (r: Result<
    (),
    BuildError,
>)
    requires
        rate <= i32::MAX,
    ensures
        r is Ok <==> rate > 0,
        r is Ok ==> builder_settings(*final(builder)) == builder_settings(*old(builder)).push(
            Setting::InputRate(rate),
        ),
        r is Err ==> builder_settings(*final(builder)) == builder_settings(*old(builder)),
;

/// `mp3lame_encoder::Builder::set_brate`: takes every bit rate that the crate names.
pub assume_specification[ Builder::set_brate ](builder: &mut Builder, brate: Bitrate) -> (r: Result<
    (),
    BuildError,
>)
    ensures
        r is Ok,
        builder_settings(*final(builder)) == builder_settings(*old(builder)).push(
            Setting::BitRate(brate),
        ),
;

/// `mp3lame_encoder::Builder::set_quality`: takes every quality that the crate names.
pub assume_specification[ Builder::set_quality ](builder: &mut Builder, quality: Quality) -> (r:
    Result<(), BuildError>)
    ensures
        r is Ok,
        builder_settings(*final(builder)) == builder_settings(*old(builder)).push(
            Setting::QualityLevel(quality),
        ),
;

/// `mp3lame_encoder::Builder::build`: an encoder with the settings of the builder, which has
/// been handed no sample and has given out no byte yet. Whether LAME takes the settings together, and has the memory that
/// they need, is left open.
pub assume_specification[ Builder::build ](builder: Builder) -> (r: Result<Encoder, BuildError>)
    ensures
        r matches Ok(encoder) ==> encoder_settings(encoder) == builder_settings(builder)
            && encoder_samples(encoder) == Seq::<i16>::empty() && encoder_output(encoder)
            == Seq::<u8>::empty(),
;

/// `mp3lame_encoder::max_required_buffer_size`: a quarter more than the samples, rounded up, and
/// 7200; counted modulo what a `usize` holds.
pub assume_specification[ mp3lame_encoder::max_required_buffer_size ](sample_number: usize) -> (r:
    usize)
    ensures
        r == (sample_number + (sample_number + 3) / 4 + 7200) % (usize::MAX + 1),
;

/// Calls `mp3lame_encoder::Encoder::encode_to_vec` with interleaved samples and an empty vector
/// of exactly `capacity` bytes, the room that LAME is told it has. The encoder takes whole pairs
/// of samples and counts them, and the room, in a C `int`. What comes back is what LAME wrote,
/// the next piece of what this encoder gives out and never more than the room; a call that fails
/// gives out nothing, and no samples give no bytes. Left unsaid is which bytes LAME writes, since
/// it computes them in floating point and they are not the same on every machine, and when it
/// fails.
#[verifier::external_body]
fn encode_interleaved(encoder: &mut Encoder, data: &[i16], capacity: usize) -> (r: Result<
    Vec<u8>,
    EncodeError,
>)
    requires
        data@.len() % 2 == 0,
        data@.len() <= i32::MAX,
        output_room(data@.len() as int) <= capacity <= i32::MAX,
    ensures
        encoder_settings(*final(encoder)) == encoder_settings(*old(encoder)),
        encoder_samples(*final(encoder)) == encoder_samples(*old(encoder)) + data@,
        r matches Ok(bytes) ==> encoder_output(*final(encoder)) == encoder_output(*old(encoder))
            + bytes@ && bytes@.len() <= capacity,
        r is Err ==> encoder_output(*final(encoder)) == encoder_output(*old(encoder)),
        data@.len() == 0 ==> r is Ok && r->Ok_0@.len() == 0,
{
    let mut output: Vec<u8> = vec![0; capacity];
    output.clear();
    match encoder.encode_to_vec(mp3lame_encoder::InterleavedPcm(data), &mut output) {
        Ok(_) => Ok(output),
        Err(error) => Err(error),
    }
}

/// What can keep a stream from being encoded, by the step that failed.
#[derive(Debug)]
pub enum HandlerError {
    NoBuilder,
    SetChannels(BuildError),
    SetSampleRate(BuildError),
    SetBrate(BuildError),
    SetQuality(BuildError),
    NotBuilt(BuildError),
    NotEncoded(EncodeError),
}

impl HandlerError {
    /// The step that failed, in words.
    pub open spec fn step_text(self) -> Seq<char> {
        match self {
            HandlerError::NoBuilder => "create LAME builder"@,
            HandlerError::SetChannels(_) => "set channels"@,
            HandlerError::SetSampleRate(_) => "set sample rate"@,
            HandlerError::SetBrate(_) => "set brate"@,
            HandlerError::SetQuality(_) => "set quality"@,
            HandlerError::NotBuilt(_) => "initialize LAME encoder"@,
            HandlerError::NotEncoded(_) => "lame encode"@,
        }
    }

    /// The step that failed, in words.
    pub fn step(&self) -> (r: String)
        ensures
            r@ == self.step_text(),
    {
        match self {
            HandlerError::NoBuilder => "create LAME builder".to_owned(),
            HandlerError::SetChannels(_) => "set channels".to_owned(),
            HandlerError::SetSampleRate(_) => "set sample rate".to_owned(),
            HandlerError::SetBrate(_) => "set brate".to_owned(),
            HandlerError::SetQuality(_) => "set quality".to_owned(),
            HandlerError::NotBuilt(_) => "initialize LAME encoder".to_owned(),
            HandlerError::NotEncoded(_) => "lame encode".to_owned(),
        }
    }
}

/// Status and headers of a response.
#[derive(Debug)]
pub struct ResponseHead {
    pub status: u16,
    pub headers: Vec<(String, String)>,
}

impl View for ResponseHead {
    type V = (u16, Seq<(Seq<char>, Seq<char>)>);

    open spec fn view(&self) -> (u16, Seq<(Seq<char>, Seq<char>)>) {
        (self.status, self.headers@.map_values(|h: (String, String)| (h.0@, h.1@)))
    }
}

/// What a request is answered with, apart from the stream itself.
#[derive(Debug)]
pub struct Answer {
    /// What is logged of the request.
    pub log_line: String,
    pub head: ResponseHead,
}

/// The head of every response: that of an endless MP3 stream.
pub open spec fn stream_head() -> (u16, Seq<(Seq<char>, Seq<char>)>) {
    (
        200u16,
        seq![
            ("Content-Type"@, "audio/mpeg"@),
            ("Cache-Control"@, "no-cache"@),
            ("Transfer-Encoding"@, "chunked"@),
        ],
    )
}

/// What is logged of a request: the user agent, or nothing where that is missing or unreadable.
pub open spec fn request_line(user_agent: Option<Seq<char>>) -> Seq<char> {
    "Serving new HTTP stream request for "@ + match user_agent {
        Some(agent) => agent,
        None => Seq::empty(),
    }
}

impl Answer {
    /// This is the answer to a request of that user agent.
    pub open spec fn answers(self, user_agent: Option<Seq<char>>) -> bool {
        &&& self.log_line@ == request_line(user_agent)
        &&& self.head@ == stream_head()
    }
}

/// The settings of every stream: two channels at 48 kHz, encoded with 320 kbps and the best
/// quality.
pub open spec fn stream_settings() -> Seq<Setting> {
    seq![
        Setting::NumChannels(CHANNEL_COUNT as u8),
        Setting::InputRate(SAMPLE_RATE as u32),
        Setting::BitRate(Bitrate::Kbps320),
        Setting::QualityLevel(Quality::Best),
    ]
}

/// The room that is made for what `n` interleaved samples are encoded to: a quarter more than
/// there are frames, rounded up, and 7200.
pub open spec fn output_room(n: int) -> int {
    n / 2 + (n / 2 + 3) / 4 + 7200
}

/// The stream of one listener.
pub struct PipeWireHandler {
    encoder: Encoder,
}

impl PipeWireHandler {
    /// What the stream is encoded with.
    pub closed spec fn settings(self) -> Seq<Setting> {
        encoder_settings(self.encoder)
    }

    /// The samples of the packets that were encoded so far.
    pub closed spec fn samples(self) -> Seq<i16> {
        encoder_samples(self.encoder)
    }

    /// The bytes that the stream's encoder has given out so far.
    pub closed spec fn output(self) -> Seq<u8> {
        encoder_output(self.encoder)
    }

    /// Tells a builder the settings of a stream, all of which are always taken.
    pub fn configured(builder: Builder) -> (r: Result<Builder, HandlerError>)
        ensures
            r is Ok,
            builder_settings(r->Ok_0) == builder_settings(builder) + stream_settings(),
    {
        let ghost before = builder_settings(builder);
        let mut builder = builder;
        if let Err(error) = builder.set_num_channels(CHANNEL_COUNT as u8) {
            return Err(HandlerError::SetChannels(error));
        }
        if let Err(error) = builder.set_sample_rate(SAMPLE_RATE as u32) {
            return Err(HandlerError::SetSampleRate(error));
        }
        if let Err(error) = builder.set_brate(Bitrate::Kbps320) {
            return Err(HandlerError::SetBrate(error));
        }
        if let Err(error) = builder.set_quality(Quality::Best) {
            return Err(HandlerError::SetQuality(error));
        }
        assert(builder_settings(builder) =~= before + stream_settings());
        Ok(builder)
    }

    /// The stream of an encoder, where one was built.
    pub fn from_built(built: Result<Encoder, BuildError>) -> (r: Result<
        PipeWireHandler,
        HandlerError,
    >)
        ensures
            match built {
                Ok(encoder) => r is Ok && r->Ok_0.settings() == encoder_settings(encoder)
                    && r->Ok_0.samples() == encoder_samples(encoder) && r->Ok_0.output()
                    == encoder_output(encoder),
                Err(error) => r == Err::<PipeWireHandler, HandlerError>(
                    HandlerError::NotBuilt(error),
                ),
            },
    {
        match built {
            Ok(encoder) => Ok(PipeWireHandler { encoder }),
            Err(error) => Err(HandlerError::NotBuilt(error)),
        }
    }

    /// A stream that no packet went into yet. Only making the builder and building the encoder
    /// can fail; the settings themselves are always taken.
    pub fn new() -> (r: Result<PipeWireHandler, HandlerError>)
        ensures
            match r {
                Ok(handler) => handler.settings() == stream_settings() && handler.samples()
                    == Seq::<i16>::empty() && handler.output() == Seq::<u8>::empty(),
                Err(error) => error is NoBuilder || error is NotBuilt,
            },
    {
        match Builder::new() {
            Some(builder) => match PipeWireHandler::configured(builder) {
                Ok(builder) => {
                    assert(builder_settings(builder) =~= stream_settings());
                    PipeWireHandler::from_built(builder.build())
                },
                Err(error) => Err(error),
            },
            None => Err(HandlerError::NoBuilder),
        }
    }

    /// What the stream yields for a packet, by what encoding it came to.
    pub fn from_encoded(encoded: Result<Vec<u8>, EncodeError>) -> (r: Result<
        Vec<u8>,
        HandlerError,
    >)
        ensures
            match encoded {
                Ok(bytes) => r == Ok::<Vec<u8>, HandlerError>(bytes),
                Err(error) => r == Err::<Vec<u8>, HandlerError>(HandlerError::NotEncoded(error)),
            },
    {
        match encoded {
            Ok(bytes) => Ok(bytes),
            Err(error) => Err(HandlerError::NotEncoded(error)),
        }
    }

    /// Encodes a packet of interleaved samples, the next of the stream. What comes back is what
    /// the stream's encoder gives out next, within the room that is made for it.
    pub fn encode(&mut self, data: &Vec<i16>) -> (r: Result<Vec<u8>, HandlerError>)
        requires
            data@.len() % 2 == 0,
            data@.len() <= i32::MAX,
        ensures
            final(self).settings() == old(self).settings(),
            final(self).samples() == old(self).samples() + data@,
            r matches Ok(bytes) ==> final(self).output() == old(self).output() + bytes@
                && bytes@.len() <= output_room(data@.len() as int),
            r matches Err(error) ==> error is NotEncoded && final(self).output()
                == old(self).output(),
            data@.len() == 0 ==> r is Ok && r->Ok_0@.len() == 0,
    {
        let room: usize = mp3lame_encoder::max_required_buffer_size(data.len() / 2);
        proof {
            vstd::arithmetic::div_mod::lemma_small_mod(
                output_room(data@.len() as int) as nat,
                (usize::MAX + 1) as nat,
            );
        }
        PipeWireHandler::from_encoded(encode_interleaved(&mut self.encoder, data.as_slice(), room))
    }

    /// Answers a request for a stream. `user_agent` is what the request says of its sender, where
    /// it does so in readable text.
    pub fn call(user_agent: Option<&str>) -> (r: Answer)
        ensures
            match user_agent {
                Some(agent) => r.answers(Some(agent@)),
                None => r.answers(None),
            },
    {
        let mut headers: Vec<(String, String)> = Vec::new();
        headers.push(("Content-Type".to_owned(), "audio/mpeg".to_owned()));
        headers.push(("Cache-Control".to_owned(), "no-cache".to_owned()));
        headers.push(("Transfer-Encoding".to_owned(), "chunked".to_owned()));
        let head = ResponseHead { status: 200, headers };
        assert(head@.1 =~= stream_head().1);
        let agent: &str = match user_agent {
            Some(agent) => agent,
            None => "",
        };
        proof {
            reveal_strlit("");
            assert(""@ =~= Seq::<char>::empty());
        }
        let log_line = "Serving new HTTP stream request for ".to_owned().concat(agent);
        Answer { log_line, head }
    }
}

} // verus!
