use openclaw_speak::config::ElevenLabsConfig;
use openclaw_speak::report::NoticeLevel;
use openclaw_speak::tts::{
    infer_sample_rate_hz, is_success_status, AudioFormat, ElevenLabsClient, TtsError,
};

fn config(api_key: &str, voice_id: &str, output_format: &str, language: Option<&str>) -> ElevenLabsConfig {
    ElevenLabsConfig {
        api_key: api_key.to_string(),
        voice_id: voice_id.to_string(),
        model_id: "eleven_multilingual_v2".to_string(),
        output_format: output_format.to_string(),
        language_code: language.map(|l| l.to_string()),
    }
}

#[test]
fn pcm_output_formats_are_pcm_in_any_case() {
    assert!(matches!(AudioFormat::from_output_format("pcm_24000"), Ok(AudioFormat::PcmS16Le)));
    assert!(matches!(AudioFormat::from_output_format("PCM_16000"), Ok(AudioFormat::PcmS16Le)));
    assert!(matches!(AudioFormat::from_output_format("pcm"), Ok(AudioFormat::PcmS16Le)));
}

#[test]
fn other_codecs_are_named_by_their_prefix() {
    match AudioFormat::from_output_format("mp3_44100_128") {
        Ok(AudioFormat::Encoded(codec)) => assert_eq!(codec, "mp3"),
        other => panic!("unexpected {:?}", other),
    }
    match AudioFormat::from_output_format("pcmx_8000") {
        Ok(AudioFormat::Encoded(codec)) => assert_eq!(codec, "pcmx"),
        other => panic!("unexpected {:?}", other),
    }
    match AudioFormat::from_output_format("") {
        Ok(AudioFormat::Encoded(codec)) => assert_eq!(codec, ""),
        other => panic!("unexpected {:?}", other),
    }
}

#[test]
fn labels() {
    assert_eq!(AudioFormat::PcmS16Le.label(), "pcm_s16le");
    assert_eq!(AudioFormat::Encoded("opus".to_string()).label(), "opus");
}

#[test]
fn sample_rate_is_the_second_field() {
    assert_eq!(infer_sample_rate_hz("pcm_24000"), Ok(24000));
    assert_eq!(infer_sample_rate_hz("mp3_44100_128"), Ok(44100));
    assert_eq!(infer_sample_rate_hz("pcm_+16000"), Ok(16000));
    assert_eq!(infer_sample_rate_hz("pcm_4294967295"), Ok(4294967295));
}

#[test]
fn sample_rate_errors() {
    assert_eq!(
        infer_sample_rate_hz("pcm"),
        Err(TtsError::MissingSampleRate("pcm".to_string()))
    );
    assert_eq!(
        infer_sample_rate_hz("pcm_abc"),
        Err(TtsError::InvalidSampleRate("pcm_abc".to_string()))
    );
    assert_eq!(
        infer_sample_rate_hz("pcm_"),
        Err(TtsError::InvalidSampleRate("pcm_".to_string()))
    );
    assert_eq!(
        infer_sample_rate_hz("pcm_4294967296"),
        Err(TtsError::InvalidSampleRate("pcm_4294967296".to_string()))
    );
    assert_eq!(
        infer_sample_rate_hz("pcm_-1"),
        Err(TtsError::InvalidSampleRate("pcm_-1".to_string()))
    );
    assert_eq!(
        infer_sample_rate_hz("pcm_+"),
        Err(TtsError::InvalidSampleRate("pcm_+".to_string()))
    );
}

#[test]
fn error_messages() {
    assert_eq!(TtsError::EmptyText.message(), "test text cannot be empty");
    assert_eq!(TtsError::MissingApiKey.message(), "ELEVENLABS_API_KEY is not configured");
    assert_eq!(TtsError::MissingVoiceId.message(), "ELEVENLABS_VOICE_ID is not configured");
    assert_eq!(
        TtsError::MissingSampleRate("pcm".to_string()).message(),
        "output_format is missing sample rate: pcm"
    );
    assert_eq!(
        TtsError::InvalidSampleRate("pcm_x".to_string()).message(),
        "failed to parse sample rate from ElevenLabs output_format pcm_x"
    );
}

#[test]
fn requests_are_checked_in_order() {
    let empty = ElevenLabsClient::new(config("", "", "pcm_24000", None));
    assert_eq!(empty.prepare_request("  ").unwrap_err(), TtsError::EmptyText);
    assert_eq!(empty.prepare_request("hi").unwrap_err(), TtsError::MissingApiKey);
    let keyed = ElevenLabsClient::new(config("key", " ", "pcm_24000", None));
    assert_eq!(keyed.prepare_request("hi").unwrap_err(), TtsError::MissingVoiceId);
    let blank_key = ElevenLabsClient::new(config("\t", "voice", "pcm_24000", None));
    assert_eq!(blank_key.prepare_request("hi").unwrap_err(), TtsError::MissingApiKey);
}

#[test]
fn request_carries_the_configuration() {
    let client = ElevenLabsClient::new(config("key", "voice-1", "mp3_44100_128", Some("  de ")));
    let req = client.prepare_request(" Hallo ").unwrap();
    assert_eq!(req.url, "https://api.elevenlabs.io/v1/text-to-speech/voice-1");
    assert_eq!(req.api_key, "key");
    assert_eq!(req.output_format, "mp3_44100_128");
    assert_eq!(req.text, " Hallo ");
    assert_eq!(req.model_id, "eleven_multilingual_v2");
    assert_eq!(req.language_code.as_deref(), Some("de"));

    let no_language = ElevenLabsClient::new(config("key", "voice-1", "pcm_24000", Some("   ")));
    assert_eq!(no_language.prepare_request("x").unwrap().language_code, None);
    let unset = ElevenLabsClient::new(config("key", "voice-1", "pcm_24000", None));
    assert_eq!(unset.prepare_request("x").unwrap().language_code, None);
}

#[test]
fn preview_takes_format_and_rate_from_the_output_format() {
    let client = ElevenLabsClient::new(config("key", "voice", "pcm_22050", None));
    let preview = client.finish_preview("hello", vec![1, 2, 3, 4]).unwrap();
    assert_eq!(preview.text, "hello");
    assert_eq!(preview.audio_bytes, vec![1, 2, 3, 4]);
    assert!(matches!(preview.audio_format, AudioFormat::PcmS16Le));
    assert_eq!(preview.sample_rate_hz, 22050);
    assert_eq!(preview.channel_count, 1);

    let bad = ElevenLabsClient::new(config("key", "voice", "ulaw", None));
    assert_eq!(
        bad.finish_preview("hello", vec![]).unwrap_err(),
        TtsError::MissingSampleRate("ulaw".to_string())
    );
}

#[test]
fn configuration_report_warns_for_missing_credentials() {
    let client = ElevenLabsClient::new(config("", "", "pcm_24000", None));
    let notices = client.describe_configuration();
    assert_eq!(notices.len(), 3);
    assert_eq!(notices[0].level, NoticeLevel::Warn);
    assert_eq!(notices[0].message, "ElevenLabs voice_id is not configured yet");
    assert_eq!(notices[1].level, NoticeLevel::Warn);
    assert_eq!(notices[1].message, "ElevenLabs api_key is not configured yet");
    assert_eq!(notices[2].level, NoticeLevel::Info);
    assert_eq!(
        notices[2].message,
        "ElevenLabs client configured with model eleven_multilingual_v2 and output format pcm_24000"
    );

    let configured = ElevenLabsClient::new(config(" ", "v", "mp3_44100_128", None));
    let notices = configured.describe_configuration();
    assert_eq!(notices.len(), 1);
    assert_eq!(notices[0].level, NoticeLevel::Info);
}

#[test]
fn success_is_the_2xx_range() {
    assert!(is_success_status(200));
    assert!(is_success_status(204));
    assert!(is_success_status(299));
    assert!(!is_success_status(199));
    assert!(!is_success_status(300));
    assert!(!is_success_status(401));
}
