//! A casting session: what is sent to the device, and what follows from how that went.

use vstd::prelude::*;
use vstd::string::StringExecFns;
use vstd::utf8::decode_utf8;

use crate::cover::{
    cover_document, generate_cover_svg_base64, svg_data_uri, uri_fits, BLOCK_END, BLOCK_START,
};
use crate::cover_laws::{
    covers_show_their_titles, data_uri_gives_back_the_document, decoded, shown_between,
};

verus! {

/// The application that is launched on the device.
pub const RECEIVER_APP_ID: &'static str = "46C1A819";

/// The name under which the session shows up on the device.
pub const SENDER_NAME: &'static str = "pw-cast";

/// The service under which devices announce themselves.
pub const CAST_SERVICE: &'static str = "_googlecast._tcp.local";

/// What the device is told to play.
#[derive(Debug)]
pub struct MediaInformation {
    pub content_id: String,
    pub content_type: String,
    /// The stream has no end.
    pub live: bool,
    pub device_name: String,
}

/// What the device is told to show.
#[derive(Debug)]
pub struct TrackMetadata {
    pub title: String,
    /// The addresses of pictures.
    pub images: Vec<String>,
}

impl MediaInformation {
    /// The device is told to play the live stream served at a socket address.
    pub open spec fn plays(self, listen_sock: Seq<char>) -> bool {
        &&& self.content_id@ == "http://"@ + listen_sock
        &&& self.content_type@ == "audio/*"@
        &&& self.live
        &&& self.device_name@ == SENDER_NAME@
    }
}

impl TrackMetadata {
    /// The device is told to show a title and its cover.
    pub open spec fn shows(self, media_name: Seq<char>) -> bool {
        &&& self.title@ == media_name
        &&& self.images@.len() == 1
        &&& self.images@[0]@ == svg_data_uri(cover_document(media_name))
    }
}

/// How far a session has got.
#[derive(Debug, Clone, Copy, PartialEq, Eq, Structural)]
pub enum Phase {
    /// What the device plays is being stopped.
    Stopping,
    /// The stream is being loaded.
    Loading,
    /// The next title is awaited.
    Listening,
    /// A title is being sent.
    Publishing,
    /// Nothing more is to be done.
    Done,
}

/// What is to be done next.
#[derive(Debug)]
pub enum Action {
    Stop,
    Load(MediaInformation),
    NextTitle,
    Publish(TrackMetadata),
    Finish,
}

/// What came of it.
#[derive(Debug)]
pub enum Outcome {
    /// The device did what it was told.
    Succeeded,
    /// It did not.
    Failed,
    /// The next title.
    Title(String),
    /// No title will come any more.
    NoMoreTitles,
}

/// The outcome is one of what is done in that phase.
pub open spec fn is_outcome_of(phase: Phase, outcome: Outcome) -> bool {
    match phase {
        Phase::Listening => outcome is Title || outcome is NoMoreTitles,
        _ => outcome is Succeeded || outcome is Failed,
    }
}

/// The phase that follows. Whether the device stopped, or took a title, does not matter; that it
/// did not load the stream ends the session, and so does its being loaded where no titles are
/// wanted.
pub open spec fn next_phase(phase: Phase, metadata: bool, outcome: Outcome) -> Phase {
    match phase {
        Phase::Stopping => Phase::Loading,
        Phase::Loading => if outcome is Succeeded && metadata {
            Phase::Listening
        } else {
            Phase::Done
        },
        Phase::Listening => if outcome is Title {
            Phase::Publishing
        } else {
            Phase::Done
        },
        Phase::Publishing => Phase::Listening,
        Phase::Done => Phase::Done,
    }
}

/// A casting session.
pub struct Chromecast {
    listen_sock: String,
    metadata: bool,
    phase: Phase,
}

impl Chromecast {
    /// How far the session has got.
    pub closed spec fn phase(self) -> Phase {
        self.phase
    }

    /// Titles are sent.
    pub closed spec fn metadata_wanted(self) -> bool {
        self.metadata
    }

    /// The socket address at which the stream is served.
    pub closed spec fn socket(self) -> Seq<char> {
        self.listen_sock@
    }

    /// What the device is told to play.
    fn media_information(&self) -> (r: MediaInformation)
        ensures
            r.plays(self.socket()),
    {
        MediaInformation {
            content_id: "http://".to_owned().concat(self.listen_sock.as_str()),
            content_type: "audio/*".to_owned(),
            live: true,
            device_name: SENDER_NAME.to_owned(),
        }
    }

    /// What the device is told to show for a title.
    pub fn metadata(media_name: &str) -> (r: TrackMetadata)
        requires
            uri_fits(cover_document(media_name@)),
        ensures
            r.shows(media_name@),
    {
        let mut images: Vec<String> = Vec::new();
        images.push(generate_cover_svg_base64(media_name));
        TrackMetadata { title: media_name.to_owned(), images }
    }

    /// Starts a session for the stream served at a socket address. The first thing to be done is
    /// to stop what the device plays.
    pub fn start(listen_sock: &str, metadata: bool) -> (r: (Chromecast, Action))
        ensures
            r.0.phase() == Phase::Stopping,
            r.0.metadata_wanted() == metadata,
            r.0.socket() == listen_sock@,
            r.1 is Stop,
    {
        let session = Chromecast {
            listen_sock: listen_sock.to_owned(),
            metadata,
            phase: Phase::Stopping,
        };
        (session, Action::Stop)
    }

    /// Takes in what came of the last thing done, and says what to do next.
    pub fn step(&mut self, outcome: Outcome) -> (r: Action)
        requires
            old(self).phase() != Phase::Done ==> is_outcome_of(old(self).phase(), outcome),
            outcome matches Outcome::Title(title) ==> uri_fits(cover_document(title@)),
        ensures
            final(self).metadata_wanted() == old(self).metadata_wanted(),
            final(self).socket() == old(self).socket(),
            final(self).phase() == next_phase(
                old(self).phase(),
                old(self).metadata_wanted(),
                outcome,
            ),
            match final(self).phase() {
                Phase::Stopping => r is Stop,
                Phase::Loading => r is Load && r->Load_0.plays(old(self).socket()),
                Phase::Listening => r is NextTitle,
                Phase::Publishing => r is Publish && r->Publish_0.shows(outcome->Title_0@),
                Phase::Done => r is Finish,
            },
    {
        match self.phase {
            Phase::Stopping => {
                self.phase = Phase::Loading;
                Action::Load(self.media_information())
            },
            Phase::Loading => {
                if self.metadata && matches!(outcome, Outcome::Succeeded) {
                    self.phase = Phase::Listening;
                    Action::NextTitle
                } else {
                    self.phase = Phase::Done;
                    Action::Finish
                }
            },
            Phase::Listening => {
                match outcome {
                    Outcome::Title(title) => {
                        self.phase = Phase::Publishing;
                        Action::Publish(Chromecast::metadata(title.as_str()))
                    },
                    _ => {
                        self.phase = Phase::Done;
                        Action::Finish
                    },
                }
            },
            Phase::Publishing => {
                self.phase = Phase::Listening;
                Action::NextTitle
            },
            Phase::Done => Action::Finish,
        }
    }
}

/// The phase after a number of outcomes.
pub open spec fn phase_after(phase: Phase, metadata: bool, outcomes: Seq<Outcome>) -> Phase
    decreases outcomes.len(),
{
    if outcomes.len() == 0 {
        phase
    } else {
        phase_after(next_phase(phase, metadata, outcomes[0]), metadata, outcomes.drop_first())
    }
}

/// Whether the device stopped what it played makes no difference, nor whether it took a title.
pub proof fn ignored_outcomes(metadata: bool, a: Outcome, b: Outcome)
    ensures
        next_phase(Phase::Stopping, metadata, a) == next_phase(Phase::Stopping, metadata, b),
        next_phase(Phase::Publishing, metadata, a) == next_phase(Phase::Publishing, metadata, b),
{
}

/// A session that is over stays over.
pub proof fn done_is_final(metadata: bool, outcomes: Seq<Outcome>)
    ensures
        phase_after(Phase::Done, metadata, outcomes) == Phase::Done,
    decreases outcomes.len(),
{
    if outcomes.len() > 0 {
        done_is_final(metadata, outcomes.drop_first());
    }
}

/// Where no titles are wanted, none is ever awaited or sent, and the session is over once the
/// device was told to load the stream.
pub proof fn no_titles_unless_wanted(outcomes: Seq<Outcome>)
    ensures
        phase_after(Phase::Stopping, false, outcomes) != Phase::Listening,
        phase_after(Phase::Stopping, false, outcomes) != Phase::Publishing,
        outcomes.len() >= 2 ==> phase_after(Phase::Stopping, false, outcomes) == Phase::Done,
{
    reveal_with_fuel(phase_after, 3);
    if outcomes.len() > 0 {
        let rest = outcomes.drop_first();
        if rest.len() > 0 {
            done_is_final(false, rest.drop_first());
        }
    }
}

/// A stream that the device did not load ends the session, whatever comes then.
pub proof fn failed_load_ends_the_session(metadata: bool, outcomes: Seq<Outcome>)
    requires
        outcomes.len() >= 2,
        outcomes[1] is Failed,
    ensures
        phase_after(Phase::Stopping, metadata, outcomes) == Phase::Done,
{
    reveal_with_fuel(phase_after, 3);
    let rest = outcomes.drop_first();
    assert(rest[0] == outcomes[1]);
    done_is_final(metadata, rest.drop_first());
}

/// The course of a session: it stops what is played, however that goes, and loads the stream;
/// that failing, or no titles being wanted, it is over, and otherwise it awaits titles; every
/// title, whatever it is, is sent, and however that goes the next one is awaited, until there
/// are no more.
pub proof fn course_of_a_session(outcome: Outcome, title: String)
    ensures
        next_phase(Phase::Stopping, true, outcome) == Phase::Loading,
        next_phase(Phase::Stopping, false, outcome) == Phase::Loading,
        next_phase(Phase::Loading, true, Outcome::Succeeded) == Phase::Listening,
        next_phase(Phase::Loading, true, Outcome::Failed) == Phase::Done,
        next_phase(Phase::Loading, false, outcome) == Phase::Done,
        next_phase(Phase::Listening, true, Outcome::Title(title)) == Phase::Publishing,
        next_phase(Phase::Listening, true, Outcome::NoMoreTitles) == Phase::Done,
        next_phase(Phase::Publishing, true, outcome) == Phase::Listening,
        next_phase(Phase::Done, true, outcome) == Phase::Done,
        next_phase(Phase::Done, false, outcome) == Phase::Done,
{
}

/// However many titles come, and whether the device took them or not, the next one is awaited.
pub proof fn titles_never_end_the_session(titles: Seq<String>, taken: Seq<Outcome>)
    requires
        titles.len() == taken.len(),
    ensures
        phase_after(
            Phase::Listening,
            true,
            Seq::new(
                2 * titles.len(),
                |i: int|
                    if i % 2 == 0 {
                        Outcome::Title(titles[i / 2])
                    } else {
                        taken[i / 2]
                    },
            ),
        ) == Phase::Listening,
    decreases titles.len(),
{
    let all = Seq::new(
        2 * titles.len(),
        |i: int|
            if i % 2 == 0 {
                Outcome::Title(titles[i / 2])
            } else {
                taken[i / 2]
            },
    );
    if titles.len() > 0 {
        let more = titles.drop_first();
        let rest = Seq::new(
            2 * more.len(),
            |i: int|
                if i % 2 == 0 {
                    Outcome::Title(more[i / 2])
                } else {
                    taken.drop_first()[i / 2]
                },
        );
        titles_never_end_the_session(more, taken.drop_first());
        reveal_with_fuel(phase_after, 3);
        assert(all.drop_first().drop_first() =~= rest);
    }
}

/// What the device is told to play is the live stream served at the whole of the address.
pub proof fn device_plays_the_stream(media: MediaInformation, listen_sock: Seq<char>)
    requires
        media.plays(listen_sock),
    ensures
        media.content_id@ == "http://"@ + listen_sock,
        media.content_type@ == "audio/*"@,
        media.live,
        media.device_name@ == "pw-cast"@,
{
}

/// What the device is told to show is the whole title and one picture, whose document shows the
/// same title between what all covers have in common.
pub proof fn device_shows_the_title()
    ensures
        exists|before: Seq<char>, behind: Seq<char>|
            BLOCK_START@.is_suffix_of(before) && BLOCK_END@.is_prefix_of(behind) && forall|
                track: TrackMetadata,
                title: Seq<char>,
            | #[trigger]
                track.shows(title) ==> {
                    &&& track.title@ == title
                    &&& track.images@.len() == 1
                    &&& "data:image/svg+xml;base64,"@.is_prefix_of(track.images@[0]@)
                    &&& shown_between(
                        decode_utf8(
                            decoded(
                                track.images@[0]@.skip(
                                    "data:image/svg+xml;base64,"@.len() as int,
                                ),
                            ),
                        ),
                        before,
                        behind,
                    ) == Some(title)
                },
{
    covers_show_their_titles();
    let (before, behind) = choose|before: Seq<char>, behind: Seq<char>|
        {
            &&& BLOCK_START@.is_suffix_of(before)
            &&& BLOCK_END@.is_prefix_of(behind)
            &&& forall|title: Seq<char>| #[trigger]
                shown_between(cover_document(title), before, behind) == Some(title)
            &&& forall|title: Seq<char>|
                shown_between(
                    decode_utf8(
                        decoded(
                            (#[trigger] svg_data_uri(cover_document(title))).skip(
                                "data:image/svg+xml;base64,"@.len() as int,
                            ),
                        ),
                    ),
                    before,
                    behind,
                ) == Some(title)
        };
    assert forall|track: TrackMetadata, title: Seq<char>| #[trigger] track.shows(title) implies {
        &&& track.title@ == title
        &&& track.images@.len() == 1
        &&& "data:image/svg+xml;base64,"@.is_prefix_of(track.images@[0]@)
        &&& shown_between(
            decode_utf8(
                decoded(
                    track.images@[0]@.skip("data:image/svg+xml;base64,"@.len() as int),
                ),
            ),
            before,
            behind,
        ) == Some(title)
    } by {
        data_uri_gives_back_the_document(cover_document(title));
        let uri = svg_data_uri(cover_document(title));
    }
}

} // verus!
