use pw_cast::sink::{Direction, PipeWireSink, SampleFormat, TagField, TAG_INFO, TAG_PARAM};

fn text(s: &str) -> TagField {
    TagField::Text(s.to_string())
}

#[test]
fn settings_of_the_sink() {
    let s = PipeWireSink::start("Living Room");
    assert_eq!(s.app_name, "rust-chromecast-sink");
    assert_eq!(s.stream_name, "pw-cast");
    assert_eq!(s.media_type, "Audio");
    assert_eq!(s.media_class, "Audio/Sink");
    assert_eq!(s.media_category, "Capture");
    assert_eq!(s.media_name, "pw-cast");
    assert_eq!(s.node_description, "Cast to “Living Room”");
    assert_eq!(s.audio_channels, "2");
    assert_eq!(s.direction, Direction::Input);
    assert!(s.flags.autoconnect && s.flags.map_buffers && s.flags.rt_process);
    assert_eq!(s.format, SampleFormat::S16LE);
    assert_eq!(s.rate, 48000);
    assert_eq!(s.channels, 2);
}

#[test]
fn tag_with_a_title() {
    let fields = vec![TagField::Int(2), text("media.role"), text("Music"), text("media.name"), text("Song")];
    assert_eq!(PipeWireSink::param_changed(TAG_PARAM, Some(&fields)), Some("Song".to_string()));
    assert_eq!(PipeWireSink::param_changed(17, Some(&fields)), Some("Song".to_string()));
    assert_eq!(TAG_INFO, 2);
}

#[test]
fn last_title_counts_and_fields_behind_do_not() {
    let fields = vec![
        TagField::Int(2),
        text("media.name"),
        text("one"),
        text("media.name"),
        text("two"),
        text("media.name"),
        text("three"),
    ];
    assert_eq!(PipeWireSink::param_changed(17, Some(&fields)), Some("two".to_string()));
}

#[test]
fn other_parameters_give_no_title() {
    let fields = vec![TagField::Int(1), text("media.name"), text("Song")];
    assert_eq!(PipeWireSink::param_changed(3, Some(&fields)), None);
    assert_eq!(PipeWireSink::param_changed(17, None), None);
}

#[test]
fn tags_without_a_title() {
    assert_eq!(PipeWireSink::param_changed(17, Some(&vec![])), None);
    assert_eq!(PipeWireSink::param_changed(17, Some(&vec![TagField::Int(0)])), None);
    let negative = vec![TagField::Int(-1), text("media.name"), text("Song")];
    assert_eq!(PipeWireSink::param_changed(17, Some(&negative)), None);
    let no_count = vec![text("media.name"), text("Song")];
    assert_eq!(PipeWireSink::param_changed(17, Some(&no_count)), None);
    let cut = vec![TagField::Int(1), text("media.name")];
    assert_eq!(PipeWireSink::param_changed(17, Some(&cut)), None);
    let too_few = vec![TagField::Int(i32::MAX), text("media.artist"), text("Band")];
    assert_eq!(PipeWireSink::param_changed(17, Some(&too_few)), None);
}

#[test]
fn a_field_that_is_no_key_is_passed_over_alone() {
    let fields = vec![TagField::Int(2), TagField::Other, text("media.name"), text("Song")];
    assert_eq!(PipeWireSink::param_changed(17, Some(&fields)), Some("Song".to_string()));
    // The attempt that it took is spent.
    let fields = vec![TagField::Int(1), TagField::Other, text("media.name"), text("Song")];
    assert_eq!(PipeWireSink::param_changed(17, Some(&fields)), None);
}

#[test]
fn a_field_that_is_no_value_is_passed_over_with_its_key() {
    let fields = vec![
        TagField::Int(2),
        text("media.name"),
        TagField::Int(5),
        text("media.name"),
        text("Song"),
    ];
    assert_eq!(PipeWireSink::param_changed(17, Some(&fields)), Some("Song".to_string()));
}

fn bytes_of(samples: &[i16]) -> Vec<u8> {
    samples.iter().flat_map(|s| s.to_ne_bytes()).collect()
}

#[test]
fn captured_samples() {
    let samples = vec![0i16, 1, -1, i16::MAX, i16::MIN, 256, -256, 12345];
    let bytes = bytes_of(&samples);
    assert_eq!(PipeWireSink::process(16, Some(&bytes)), Some(samples));
}

#[test]
fn only_whole_frames_of_the_chunk() {
    let samples = vec![10i16, 20, 30, 40, 50, 60];
    let bytes = bytes_of(&samples);
    assert_eq!(PipeWireSink::process(8, Some(&bytes)), Some(vec![10, 20, 30, 40]));
    assert_eq!(PipeWireSink::process(11, Some(&bytes)), Some(vec![10, 20, 30, 40]));
}

#[test]
fn nothing_captured() {
    assert_eq!(PipeWireSink::process(0, Some(&[1, 2, 3, 4])), None);
    assert_eq!(PipeWireSink::process(3, Some(&[1, 2, 3, 4])), None);
    assert_eq!(PipeWireSink::process(4, None), None);
}
