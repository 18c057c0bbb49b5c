use mp3lame_encoder::{BuildError, EncodeError};
use pw_cast::handler::{HandlerError, PipeWireHandler};

#[test]
fn stream_is_mpeg_audio() {
    let mut handler = PipeWireHandler::new().unwrap();
    let mut mp3: Vec<u8> = Vec::new();
    // Two seconds in packets of 1024 frames.
    for packet in 0..94u32 {
        let data: Vec<i16> = (0..2048u32)
            .map(|i| (((packet * 2048 + i) / 2 * 37) % 20000) as i16 - 10000)
            .collect();
        mp3.extend(handler.encode(&data).unwrap());
    }
    // 320 kbps at 48 kHz make frames of 960 bytes, and MPEG 1 layer III without a checksum is
    // FF FB, followed by the indices of the bit rate (14) and of the sample rate (1).
    let start = mp3.windows(3).position(|w| w == [0xff, 0xfb, 0xe4]).unwrap();
    assert_eq!(&mp3[start + 960..start + 963], &[0xff, 0xfb, 0xe4]);
    // Two channels, in any stereo mode but the one of a single channel.
    assert_ne!(mp3[start + 3] >> 6, 3);
}

#[test]
fn no_samples_give_no_bytes() {
    let mut handler = PipeWireHandler::new().unwrap();
    assert_eq!(handler.encode(&Vec::new()).unwrap(), Vec::<u8>::new());
}

#[test]
fn each_handler_is_a_stream_of_its_own() {
    let data: Vec<i16> = (0..4608).map(|i| ((i * 13) % 4000) as i16).collect();
    let mut one = PipeWireHandler::new().unwrap();
    let first = one.encode(&data).unwrap();
    one.encode(&data).unwrap();
    let mut two = PipeWireHandler::new().unwrap();
    assert_eq!(two.encode(&data).unwrap(), first);
}

#[test]
fn items_are_what_one_encoder_gives_out() {
    let mut builder = mp3lame_encoder::Builder::new().unwrap();
    builder.set_num_channels(2).unwrap();
    builder.set_sample_rate(48000).unwrap();
    builder.set_brate(mp3lame_encoder::Bitrate::Kbps320).unwrap();
    builder.set_quality(mp3lame_encoder::Quality::Best).unwrap();
    let mut encoder = builder.build().unwrap();
    let mut handler = PipeWireHandler::new().unwrap();
    let mut total = 0;
    for packet in 0..20usize {
        let data: Vec<i16> = (0..2304).map(|i| ((packet * 31 + i * 7) % 9000) as i16).collect();
        let mut expected: Vec<u8> = Vec::with_capacity(100_000);
        encoder
            .encode_to_vec(mp3lame_encoder::InterleavedPcm(data.as_slice()), &mut expected)
            .unwrap();
        let item = handler.encode(&data).unwrap();
        assert!(item.len() <= 1152 + 288 + 7200);
        assert_eq!(item, expected);
        total += item.len();
    }
    assert!(total > 0);
}

#[test]
fn builders_are_told_the_settings() {
    let builder = mp3lame_encoder::Builder::new().unwrap();
    let built = PipeWireHandler::configured(builder).unwrap().build();
    let mut handler = PipeWireHandler::from_built(built).unwrap();
    let mut usual = PipeWireHandler::new().unwrap();
    let data: Vec<i16> = (0..9216).map(|i| ((i * 11) % 5000) as i16).collect();
    let item = handler.encode(&data).unwrap();
    assert!(!item.is_empty());
    assert_eq!(item, usual.encode(&data).unwrap());
}

#[test]
fn an_encoder_that_was_not_built() {
    match PipeWireHandler::from_built(Err(BuildError::NoMem)) {
        Err(HandlerError::NotBuilt(error)) => assert_eq!(error, BuildError::NoMem),
        _ => panic!("another result"),
    }
}

#[test]
fn what_encoding_came_to() {
    assert_eq!(PipeWireHandler::from_encoded(Ok(vec![1, 2, 3])).unwrap(), vec![1, 2, 3]);
    match PipeWireHandler::from_encoded(Err(EncodeError::BufferTooSmall)) {
        Err(HandlerError::NotEncoded(error)) => assert_eq!(error, EncodeError::BufferTooSmall),
        _ => panic!("another result"),
    }
}

#[test]
fn head_of_the_response() {
    for user_agent in [None, Some(""), Some("Mozilla/5.0")] {
        let head = PipeWireHandler::call(user_agent).head;
        assert_eq!(head.status, 200);
        let headers: Vec<(&str, &str)> =
            head.headers.iter().map(|(k, v)| (k.as_str(), v.as_str())).collect();
        assert_eq!(
            headers,
            vec![
                ("Content-Type", "audio/mpeg"),
                ("Cache-Control", "no-cache"),
                ("Transfer-Encoding", "chunked"),
            ]
        );
    }
}

#[test]
fn what_is_logged_of_a_request() {
    assert_eq!(
        PipeWireHandler::call(Some("Mozilla/5.0")).log_line,
        "Serving new HTTP stream request for Mozilla/5.0"
    );
    assert_eq!(
        PipeWireHandler::call(None).log_line,
        "Serving new HTTP stream request for "
    );
}

#[test]
fn failed_steps_in_words() {
    assert_eq!(HandlerError::NoBuilder.step(), "create LAME builder");
    assert_eq!(HandlerError::SetChannels(BuildError::Generic).step(), "set channels");
    assert_eq!(HandlerError::SetSampleRate(BuildError::Generic).step(), "set sample rate");
    assert_eq!(HandlerError::SetBrate(BuildError::BadBRate).step(), "set brate");
    assert_eq!(HandlerError::SetQuality(BuildError::Generic).step(), "set quality");
    assert_eq!(HandlerError::NotBuilt(BuildError::NoMem).step(), "initialize LAME encoder");
    assert_eq!(HandlerError::NotEncoded(EncodeError::NoMem).step(), "lame encode");
}

#[test]
fn only_valid_settings_are_taken() {
    let mut builder = mp3lame_encoder::Builder::new().unwrap();
    assert!(builder.set_num_channels(0).is_err());
    assert!(builder.set_num_channels(1).is_ok());
    assert!(builder.set_num_channels(2).is_ok());
    assert!(builder.set_num_channels(3).is_err());
    assert!(builder.set_sample_rate(0).is_err());
    assert!(builder.set_sample_rate(48000).is_ok());
    assert_eq!(mp3lame_encoder::max_required_buffer_size(1021), 1021 + 256 + 7200);
}
