use rusic::audio::{
    after_decode, after_read, DecodeEvent, DecodeStep, ReadEvent, ReadStep,
    convert_channels, playback_position, position_advance_micros, ring_buffer_len, DecoderStep, PlaybackFlags,
};

#[test]
fn mono_is_duplicated_to_stereo() {
    assert_eq!(convert_channels(&[0.5f32, -0.25], 1, 2, 0.0), vec![0.5, 0.5, -0.25, -0.25]);
}

#[test]
fn extra_channels_are_dropped_and_missing_ones_silent() {
    assert_eq!(convert_channels(&[1, 2, 3, 4, 5, 6], 3, 2, 0), vec![1, 2, 4, 5]);
    assert_eq!(convert_channels(&[1, 2, 3, 4], 2, 3, 0), vec![1, 2, 0, 3, 4, 0]);
    assert_eq!(convert_channels(&[1, 2, 3], 2, 2, 0), vec![1, 2]);
}

#[test]
fn position_is_capped_at_track_length() {
    assert_eq!(playback_position(5_000_000, Some(3_000_000)), 3_000_000);
    assert_eq!(playback_position(5_000_000, Some(0)), 5_000_000);
    assert_eq!(playback_position(5_000_000, None), 5_000_000);
    assert_eq!(playback_position(1_000_000, Some(3_000_000)), 1_000_000);
}

#[test]
fn position_advance_and_buffer_size() {
    assert_eq!(position_advance_micros(96_000, 2, 48_000), 1_000_000);
    assert_eq!(position_advance_micros(1, 2, 48_000), 10);
    assert_eq!(ring_buffer_len(48_000, 2), 192_000);
}

#[test]
fn flags_follow_pause_resume_stop() {
    let mut f = PlaybackFlags::new();
    assert!(f.pause());
    assert!(!f.pause());
    assert_eq!(f.decoder_step(), DecoderStep::Wait);
    assert!(f.resume());
    assert!(!f.resume());
    assert_eq!(f.decoder_step(), DecoderStep::Proceed);
    assert!(!f.is_empty());
    f.pause();
    f.stop();
    assert!(!f.paused);
    assert_eq!(f.decoder_step(), DecoderStep::Stop);
    assert!(f.is_empty());
}

#[test]
fn decoder_skips_resets_or_ends() {
    assert_eq!(after_read(ReadEvent::Packet { for_track: true }), ReadStep::Decode);
    assert_eq!(after_read(ReadEvent::Packet { for_track: false }), ReadStep::Skip);
    assert_eq!(after_read(ReadEvent::ResetRequired), ReadStep::Reset);
    assert_eq!(after_read(ReadEvent::EndOfStream), ReadStep::Finish);
    assert_eq!(after_read(ReadEvent::Failed), ReadStep::Finish);
    assert_eq!(after_decode(DecodeEvent::Decoded), DecodeStep::Play);
    assert_eq!(after_decode(DecodeEvent::BadPacket), DecodeStep::Skip);
    assert_eq!(after_decode(DecodeEvent::Failed), DecodeStep::Finish);
}
