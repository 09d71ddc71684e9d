use openclaw_speak::audio::{
    choose_stream_config, decode_pcm_s16le, device_listing, device_name_matches, render_frame_count,
    require_pcm, require_samples, source_channel_index, uses_default_device, AudioOutput,
    PcmError, PlaybackCursor, PlaybackError,
    SupportedRange,
};
use openclaw_speak::config::AudioConfig;
use openclaw_speak::report::NoticeLevel;
use openclaw_speak::tts::{AudioFormat, SpeechPreview};

#[test]
fn pcm_decodes_little_endian_samples() {
    let decoded = decode_pcm_s16le(&[0x00, 0x00, 0xff, 0x7f, 0x00, 0x80, 0xff, 0xff, 0x34, 0x12])
        .unwrap();
    assert_eq!(decoded, vec![0, 32767, -32768, -1, 0x1234]);
    assert_eq!(decode_pcm_s16le(&[]).unwrap(), Vec::<i16>::new());
}

#[test]
fn odd_pcm_length_is_refused() {
    assert_eq!(decode_pcm_s16le(&[1, 2, 3]), Err(PcmError::OddLength(3)));
    assert_eq!(
        PcmError::OddLength(3).message(),
        "PCM audio byte length must be even, got 3"
    );
}

#[test]
fn frame_counts() {
    // three mono samples at an unchanged rate
    assert_eq!(render_frame_count(3, 1, 24_000, 2, 24_000), 3);
    // doubling the rate doubles the frames
    assert_eq!(render_frame_count(2, 1, 24_000, 1, 48_000), 4);
    // halving rounds down but keeps at least one frame
    assert_eq!(render_frame_count(3, 1, 48_000, 1, 24_000), 1);
    assert_eq!(render_frame_count(1, 1, 48_000, 1, 8_000), 1);
    // stereo input: frames are sample pairs
    assert_eq!(render_frame_count(5, 2, 44_100, 2, 44_100), 2);
    // nothing to render
    assert_eq!(render_frame_count(0, 1, 24_000, 1, 24_000), 0);
    assert_eq!(render_frame_count(1, 2, 24_000, 1, 24_000), 0);
    assert_eq!(render_frame_count(4, 0, 24_000, 1, 24_000), 0);
    assert_eq!(render_frame_count(4, 1, 24_000, 0, 24_000), 0);
}

#[test]
fn channels_map_to_the_nearest_source() {
    assert_eq!(source_channel_index(0, 1), 0);
    assert_eq!(source_channel_index(1, 1), 0);
    assert_eq!(source_channel_index(1, 2), 1);
    assert_eq!(source_channel_index(5, 2), 1);
    assert_eq!(source_channel_index(0, 2), 0);
}

#[test]
fn first_serving_layout_is_chosen() {
    let ranges = vec![
        SupportedRange { channels: 2, min_sample_rate: 8_000, max_sample_rate: 96_000 },
        SupportedRange { channels: 1, min_sample_rate: 48_000, max_sample_rate: 48_000 },
        SupportedRange { channels: 1, min_sample_rate: 8_000, max_sample_rate: 48_000 },
        SupportedRange { channels: 1, min_sample_rate: 8_000, max_sample_rate: 96_000 },
    ];
    assert_eq!(choose_stream_config(&ranges, 44_100, 1), Some(2));
    assert_eq!(choose_stream_config(&ranges, 48_000, 1), Some(1));
    assert_eq!(choose_stream_config(&ranges, 44_100, 2), Some(0));
    assert_eq!(choose_stream_config(&ranges, 192_000, 1), None);
    assert_eq!(choose_stream_config(&Vec::new(), 44_100, 1), None);
}

#[test]
fn device_selection() {
    assert!(uses_default_device(""));
    assert!(uses_default_device("  \n"));
    assert!(!uses_default_device(" hdmi "));
    assert!(device_name_matches("HDMI Output", " hdmi "));
    assert!(device_name_matches("hdmi", "HDMI"));
    assert!(!device_name_matches("Speakers", "hdmi"));
    assert!(device_name_matches("anything", ""));
}

#[test]
fn cursor_fills_buffers_then_completes() {
    let mut cursor = PlaybackCursor::new(5);
    assert_eq!(cursor.fill(2), 2);
    assert_eq!(cursor.current(), 2);
    assert!(!cursor.is_completed());
    assert_eq!(cursor.fill(3), 3);
    assert_eq!(cursor.current(), 5);
    assert!(!cursor.is_completed());
    assert_eq!(cursor.fill(4), 0);
    assert!(cursor.is_completed());

    let mut short = PlaybackCursor::new(3);
    assert_eq!(short.fill(8), 3);
    assert!(short.is_completed());
    assert_eq!(short.current(), 3);
}

#[test]
fn output_reports_its_configuration() {
    let output = AudioOutput::new(AudioConfig {
        output_device: "hdmi".to_string(),
        sample_rate_hz: 44_100,
        channel_count: 2,
    });
    let notices = output.describe_configuration();
    assert_eq!(notices.len(), 1);
    assert_eq!(notices[0].level, NoticeLevel::Info);
    assert_eq!(
        notices[0].message,
        "audio output configured: device='hdmi', sample_rate_hz=44100, channel_count=2"
    );
}

#[test]
fn preview_is_described_before_playing() {
    let output = AudioOutput::new(AudioConfig {
        output_device: String::new(),
        sample_rate_hz: 44_100,
        channel_count: 1,
    });
    let preview = SpeechPreview {
        text: "Hello".to_string(),
        audio_bytes: vec![0; 4800],
        audio_format: AudioFormat::PcmS16Le,
        sample_rate_hz: 24_000,
        channel_count: 1,
    };
    assert_eq!(
        output.preview_lines(&preview),
        vec![
            "Preview text: Hello".to_string(),
            "Preview audio: 4800 bytes, format=pcm_s16le, 24000 Hz, 1 channel(s)".to_string(),
        ]
    );
}

#[test]
fn device_listing_notes_an_empty_list() {
    assert_eq!(device_listing(Vec::new()), vec!["No output devices found.".to_string()]);
    assert_eq!(
        device_listing(vec!["default".to_string(), "hdmi".to_string()]),
        vec!["default".to_string(), "hdmi".to_string()]
    );
}

#[test]
fn only_pcm_plays_and_only_when_non_empty() {
    assert_eq!(require_pcm(&AudioFormat::PcmS16Le), Ok(()));
    assert_eq!(
        require_pcm(&AudioFormat::Encoded("mp3".to_string())),
        Err(PlaybackError::NotPcm)
    );
    assert_eq!(require_samples(1), Ok(()));
    assert_eq!(require_samples(0), Err(PlaybackError::EmptyBuffer));
    assert_eq!(
        PlaybackError::NotPcm.message(),
        "audio playback requires PCM output when using `audio-cpal`"
    );
    assert_eq!(PlaybackError::EmptyBuffer.message(), "received empty PCM audio buffer");
}
