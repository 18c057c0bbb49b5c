use pw_cast::chromecast::{Action, Chromecast, Outcome, RECEIVER_APP_ID};
use pw_cast::cover::generate_cover_svg_base64;
use pw_cast::options::Options;

fn kind(action: &Action) -> &'static str {
    match action {
        Action::Stop => "stop",
        Action::Load(_) => "load",
        Action::NextTitle => "next",
        Action::Publish(_) => "publish",
        Action::Finish => "finish",
    }
}

#[test]
fn whole_session() {
    let (mut session, first) = Chromecast::start("192.168.0.2:8000", true);
    assert_eq!(kind(&first), "stop");
    match session.step(Outcome::Failed) {
        Action::Load(media) => {
            assert_eq!(media.content_id, "http://192.168.0.2:8000");
            assert_eq!(media.content_type, "audio/*");
            assert!(media.live);
            assert_eq!(media.device_name, "pw-cast");
        }
        other => panic!("{}", kind(&other)),
    }
    assert_eq!(kind(&session.step(Outcome::Succeeded)), "next");
    match session.step(Outcome::Title("Song".to_string())) {
        Action::Publish(track) => {
            assert_eq!(track.title, "Song");
            assert_eq!(track.images, vec![generate_cover_svg_base64("Song")]);
        }
        other => panic!("{}", kind(&other)),
    }
    assert_eq!(kind(&session.step(Outcome::Failed)), "next");
    assert_eq!(kind(&session.step(Outcome::Title("Next".to_string()))), "publish");
    assert_eq!(kind(&session.step(Outcome::Succeeded)), "next");
    assert_eq!(kind(&session.step(Outcome::NoMoreTitles)), "finish");
    assert_eq!(kind(&session.step(Outcome::Succeeded)), "finish");
}

#[test]
fn stopping_may_fail_or_not() {
    let (mut a, _) = Chromecast::start("s", true);
    let (mut b, _) = Chromecast::start("s", true);
    assert_eq!(kind(&a.step(Outcome::Succeeded)), "load");
    assert_eq!(kind(&b.step(Outcome::Failed)), "load");
}

#[test]
fn failed_load_ends_the_session() {
    let (mut session, _) = Chromecast::start("s", true);
    session.step(Outcome::Succeeded);
    assert_eq!(kind(&session.step(Outcome::Failed)), "finish");
    assert_eq!(kind(&session.step(Outcome::Succeeded)), "finish");
}

#[test]
fn no_titles_unless_wanted() {
    let (mut session, _) = Chromecast::start("s", false);
    session.step(Outcome::Succeeded);
    assert_eq!(kind(&session.step(Outcome::Succeeded)), "finish");
}

#[test]
fn receiver_application() {
    assert_eq!(RECEIVER_APP_ID, "46C1A819");
}

#[test]
fn metadata_of_a_title() {
    let track = Chromecast::metadata("A & B");
    assert_eq!(track.title, "A & B");
    assert_eq!(track.images, vec![generate_cover_svg_base64("A & B")]);
}

#[test]
fn options_and_their_defaults() {
    let none = Options { device: None, force_port: None, metadata: None };
    assert_eq!(none.bind_address(), "0.0.0.0:0");
    assert!(none.sends_metadata());
    let some = Options { device: None, force_port: Some(65535), metadata: Some(false) };
    assert_eq!(some.bind_address(), "0.0.0.0:65535");
    assert!(!some.sends_metadata());
    let on = Options { device: None, force_port: Some(80), metadata: Some(true) };
    assert_eq!(on.bind_address(), "0.0.0.0:80");
    assert!(on.sends_metadata());
}
