//! The text-to-speech side: which requests may be sent, what they carry, and
//! how the returned audio is described.
use vstd::prelude::*;
use crate::config::ElevenLabsConfig;
use crate::number::{parse_decimal_u32, parse_u32};
use crate::report::{Notice, NoticeLevel, notices_view};
use crate::text::{
    blank, chars_of, find_char, first_field, is_blank, lower, lower_chars, second_field,
    trim, trimmed,
};

verus! {

/// The text-to-speech endpoint, to which the voice identifier is appended.
pub open spec fn endpoint_prefix() -> Seq<char> {
    "https://api.elevenlabs.io/v1/text-to-speech/"@
}

/// The encoding of the audio that comes back.
#[derive(Debug, Clone)]
pub enum AudioFormat {
    /// Signed 16-bit little-endian PCM.
    PcmS16Le,
    /// Any other codec, by the name the output format starts with.
    Encoded(String),
}

/// Why a preview cannot be made.
#[derive(Debug, Clone, PartialEq, Eq)]
pub enum TtsError {
    /// The text to speak is empty or whitespace.
    EmptyText,
    /// No API key is configured.
    MissingApiKey,
    /// No voice is configured.
    MissingVoiceId,
    /// The output format names no sample rate (it holds no `_`).
    MissingSampleRate(String),
    /// The output format's sample rate is not a 32-bit decimal number.
    InvalidSampleRate(String),
}

/// A spoken rendition of a text, ready to play.
#[derive(Debug, Clone)]
pub struct SpeechPreview {
    pub text: String,
    pub audio_bytes: Vec<u8>,
    pub audio_format: AudioFormat,
    pub sample_rate_hz: u32,
    pub channel_count: u16,
}

/// Everything a text-to-speech request carries.
#[derive(Debug, Clone)]
pub struct SynthesisRequest {
    /// The endpoint, voice included.
    pub url: String,
    /// Sent in the `xi-api-key` header.
    pub api_key: String,
    /// Sent as the `output_format` query parameter.
    pub output_format: String,
    /// The body's `text`.
    pub text: String,
    /// The body's `model_id`.
    pub model_id: String,
    /// The body's `language_code`, absent where none is configured.
    pub language_code: Option<String>,
}

/// The client of the text-to-speech service.
#[derive(Debug, Clone)]
pub struct ElevenLabsClient {
    config: ElevenLabsConfig,
}

/// A codec name that denotes PCM, in any letter case.
pub open spec fn is_pcm_codec(codec: Seq<char>) -> bool {
    lower(codec) == seq!['p', 'c', 'm']
}

/// The codec an output format names: the part before its first `_`.
pub open spec fn codec_of(output_format: Seq<char>) -> Seq<char> {
    first_field(output_format, '_')
}

/// The audio format that an output format denotes.
pub open spec fn audio_format_matches(f: AudioFormat, output_format: Seq<char>) -> bool {
    match f {
        AudioFormat::PcmS16Le => is_pcm_codec(codec_of(output_format)),
        AudioFormat::Encoded(c) => !is_pcm_codec(codec_of(output_format)) && c@ == codec_of(
            output_format,
        ),
    }
}

/// The sample rate an output format names: the number after its first `_`.
pub open spec fn sample_rate_of(output_format: Seq<char>) -> Option<u32> {
    match second_field(output_format, '_') {
        Some(field) => parse_u32(field),
        None => None,
    }
}

/// The error a bad output format gives, or `None` where its sample rate reads.
pub open spec fn sample_rate_error(output_format: Seq<char>, e: TtsError) -> bool {
    match second_field(output_format, '_') {
        None => e matches TtsError::MissingSampleRate(f) && f@ == output_format,
        Some(field) => parse_u32(field) is None && (e matches TtsError::InvalidSampleRate(f)
            && f@ == output_format),
    }
}

/// The language code a request carries: the configured one, trimmed, where it
/// is not blank.
pub open spec fn requested_language(code: Option<String>) -> Option<Seq<char>> {
    match code {
        Some(c) => if is_blank(c@) {
            None
        } else {
            Some(trim(c@))
        },
        None => None,
    }
}

pub open spec fn optional_view(o: Option<String>) -> Option<Seq<char>> {
    match o {
        Some(s) => Some(s@),
        None => None,
    }
}

/// What the client reports of its configuration: a warning for each missing
/// credential, then the model and output format in use.
pub open spec fn configuration_report(config: ElevenLabsConfig) -> Seq<(NoticeLevel, Seq<char>)> {
    let voice = if config.voice_id@.len() == 0 {
        seq![(NoticeLevel::Warn, "ElevenLabs voice_id is not configured yet"@)]
    } else {
        Seq::empty()
    };
    let key = if config.api_key@.len() == 0 {
        seq![(NoticeLevel::Warn, "ElevenLabs api_key is not configured yet"@)]
    } else {
        Seq::empty()
    };
    voice + key + seq![
        (
            NoticeLevel::Info,
            "ElevenLabs client configured with model "@ + config.model_id@ + " and output format "@
                + config.output_format@,
        ),
    ]
}

/// What an output format denotes: its codec is the text before its first
/// `_` (all of it where there is none); the format is 16-bit PCM exactly
/// when that codec is the three letters `pcm` in any ASCII case, and any other
/// codec is kept by name.
pub proof fn lemma_output_format_codec(f: AudioFormat, output_format: Seq<char>)
    requires
        audio_format_matches(f, output_format),
    ensures
        ({
            let n = codec_of(output_format).len() as int;
            &&& n <= output_format.len()
            &&& codec_of(output_format) == output_format.take(n)
            &&& forall|j: int| 0 <= j < n ==> output_format[j] != '_'
            &&& n < output_format.len() ==> output_format[n] == '_'
            &&& (f is PcmS16Le) <==> (n == 3 && crate::text::ascii_lower(output_format[0]) == 'p'
                && crate::text::ascii_lower(output_format[1]) == 'c' && crate::text::ascii_lower(
                output_format[2],
            ) == 'm')
            &&& f matches AudioFormat::Encoded(c) ==> c@ == output_format.take(n)
        }),
{
    crate::text::lemma_index_of_bounds(output_format, '_');
    let codec = codec_of(output_format);
    let n = codec.len() as int;
    let lowered = lower(codec);
    if n == 3 {
        assert(lowered[0] == crate::text::ascii_lower(output_format[0]));
        assert(lowered[1] == crate::text::ascii_lower(output_format[1]));
        assert(lowered[2] == crate::text::ascii_lower(output_format[2]));
        if crate::text::ascii_lower(output_format[0]) == 'p' && crate::text::ascii_lower(
            output_format[1],
        ) == 'c' && crate::text::ascii_lower(output_format[2]) == 'm' {
            assert(lowered =~= seq!['p', 'c', 'm']);
        }
    }
    if lowered == seq!['p', 'c', 'm'] {
        assert(lowered.len() == 3);
        assert(lowered[0] == 'p' && lowered[1] == 'c' && lowered[2] == 'm');
    }
}

/// Whether an HTTP status code reports success (the 2xx range).
pub fn is_success_status(code: u16) -> (r: bool)
    ensures
        r == (200 <= code && code <= 299),
{
    200 <= code && code <= 299
}

impl AudioFormat {
    /// The audio format that an output format such as `pcm_24000` or
    /// `mp3_44100_128` denotes: PCM where its codec is `pcm` in any letter
    /// case, else the codec by name. Every output format denotes one.
    pub fn from_output_format(output_format: &str) -> (r: Result<AudioFormat, TtsError>)
        ensures
            r matches Ok(f) && audio_format_matches(f, output_format@),
    {
        let v = chars_of(output_format);
        let i = find_char(&v, '_');
        proof {
            crate::text::lemma_index_of_bounds(v@, '_');
        }
        let codec = output_format.substring_char(0, i);
        let lowered = lower_chars(&chars_of(codec));
        assert(codec@ == codec_of(output_format@));
        if lowered.len() == 3 && lowered[0] == 'p' && lowered[1] == 'c' && lowered[2] == 'm' {
            assert(lowered@ == seq!['p', 'c', 'm']);
            Ok(AudioFormat::PcmS16Le)
        } else {
            assert(lowered@ != seq!['p', 'c', 'm']);
            Ok(AudioFormat::Encoded(String::from_str(codec)))
        }
    }

    /// The format's name as the player reports it.
    pub fn label(&self) -> (r: &str)
        ensures
            match self {
                AudioFormat::PcmS16Le => r@ == "pcm_s16le"@,
                AudioFormat::Encoded(codec) => r@ == codec@,
            },
    {
        match self {
            AudioFormat::PcmS16Le => "pcm_s16le",
            AudioFormat::Encoded(codec) => codec.as_str(),
        }
    }
}

/// The sample rate that an output format names, as in `pcm_24000` or
/// `mp3_44100_128`.
pub fn infer_sample_rate_hz(output_format: &str) -> (r: Result<u32, TtsError>)
    ensures
        match r {
            Ok(rate) => sample_rate_of(output_format@) == Some(rate),
            Err(e) => sample_rate_of(output_format@) is None && sample_rate_error(
                output_format@,
                e,
            ),
        },
{
    let v = chars_of(output_format);
    let n = v.len();
    let i = find_char(&v, '_');
    proof {
        crate::text::lemma_index_of_bounds(v@, '_');
    }
    if i == n {
        return Err(TtsError::MissingSampleRate(String::from_str(output_format)));
    }
    let rest = output_format.substring_char(i + 1, n);
    let w = chars_of(rest);
    let j = find_char(&w, '_');
    proof {
        crate::text::lemma_index_of_bounds(w@, '_');
    }
    let field = rest.substring_char(0, j);
    assert(rest@ == output_format@.skip(i + 1));
    assert(field@ == first_field(output_format@.skip(i + 1), '_'));
    match parse_decimal_u32(field) {
        Some(rate) => Ok(rate),
        None => Err(TtsError::InvalidSampleRate(String::from_str(output_format))),
    }
}

impl TtsError {
    /// The error's text, as it is reported to the user.
    pub fn message(&self) -> (r: String)
        ensures
            r@ == match self {
                TtsError::EmptyText => "test text cannot be empty"@,
                TtsError::MissingApiKey => "ELEVENLABS_API_KEY is not configured"@,
                TtsError::MissingVoiceId => "ELEVENLABS_VOICE_ID is not configured"@,
                TtsError::MissingSampleRate(f) => "output_format is missing sample rate: "@ + f@,
                TtsError::InvalidSampleRate(f) => "failed to parse sample rate from ElevenLabs output_format "@
                    + f@,
            },
    {
        match self {
            TtsError::EmptyText => String::from_str("test text cannot be empty"),
            TtsError::MissingApiKey => String::from_str("ELEVENLABS_API_KEY is not configured"),
            TtsError::MissingVoiceId => String::from_str("ELEVENLABS_VOICE_ID is not configured"),
            TtsError::MissingSampleRate(f) => String::from_str(
                "output_format is missing sample rate: ",
            ).concat(f.as_str()),
            TtsError::InvalidSampleRate(f) => String::from_str(
                "failed to parse sample rate from ElevenLabs output_format ",
            ).concat(f.as_str()),
        }
    }
}

impl ElevenLabsClient {
    pub fn new(config: ElevenLabsConfig) -> (r: Self)
        ensures
            r.config() == config,
    {
        ElevenLabsClient { config }
    }

    pub closed spec fn config(&self) -> ElevenLabsConfig {
        self.config
    }

    /// What to log about the configuration: a warning for an empty voice and
    /// one for an empty key, then the model and output format in use.
    pub fn describe_configuration(&self) -> (r: Vec<Notice>)
        ensures
            notices_view(r@) == configuration_report(self.config()),
    {
        let mut r: Vec<Notice> = Vec::new();
        if self.config.voice_id.as_str().is_empty() {
            r.push(
                Notice {
                    level: NoticeLevel::Warn,
                    message: String::from_str("ElevenLabs voice_id is not configured yet"),
                },
            );
        }
        if self.config.api_key.as_str().is_empty() {
            r.push(
                Notice {
                    level: NoticeLevel::Warn,
                    message: String::from_str("ElevenLabs api_key is not configured yet"),
                },
            );
        }
        let message = String::from_str("ElevenLabs client configured with model ").concat(
            self.config.model_id.as_str(),
        ).concat(" and output format ").concat(self.config.output_format.as_str());
        r.push(Notice { level: NoticeLevel::Info, message });
        assert(notices_view(r@) =~= configuration_report(self.config()));
        r
    }

    /// The request that speaks `text`, or why none may be sent: the text must
    /// hold more than whitespace, and the key and the voice must be
    /// configured (checked in that order).
    pub fn prepare_request(&self, text: &str) -> (r: Result<SynthesisRequest, TtsError>)
        ensures
            is_blank(text@) ==> r == Err::<SynthesisRequest, TtsError>(TtsError::EmptyText),
            !is_blank(text@) && is_blank(self.config().api_key@) ==> r == Err::<
                SynthesisRequest,
                TtsError,
            >(TtsError::MissingApiKey),
            !is_blank(text@) && !is_blank(self.config().api_key@) && is_blank(
                self.config().voice_id@,
            ) ==> r == Err::<SynthesisRequest, TtsError>(TtsError::MissingVoiceId),
            !is_blank(text@) && !is_blank(self.config().api_key@) && !is_blank(
                self.config().voice_id@,
            ) ==> (r matches Ok(req) && {
                &&& req.url@ == endpoint_prefix() + self.config().voice_id@
                &&& req.api_key == self.config().api_key
                &&& req.output_format == self.config().output_format
                &&& req.text@ == text@
                &&& req.model_id == self.config().model_id
                &&& optional_view(req.language_code) == requested_language(
                    self.config().language_code,
                )
            }),
    {
        if blank(text) {
            return Err(TtsError::EmptyText);
        }
        if blank(self.config.api_key.as_str()) {
            return Err(TtsError::MissingApiKey);
        }
        if blank(self.config.voice_id.as_str()) {
            return Err(TtsError::MissingVoiceId);
        }
        let language_code = match &self.config.language_code {
            Some(code) => {
                if blank(code.as_str()) {
                    None
                } else {
                    Some(trimmed(code.as_str()))
                }
            },
            None => None,
        };
        let url = String::from_str("https://api.elevenlabs.io/v1/text-to-speech/").concat(
            self.config.voice_id.as_str(),
        );
        Ok(
            SynthesisRequest {
                url,
                api_key: self.config.api_key.clone(),
                output_format: self.config.output_format.clone(),
                text: String::from_str(text),
                model_id: self.config.model_id.clone(),
                language_code,
            },
        )
    }

    /// The preview made of the audio the service returned for `text`: its
    /// format and sample rate are those the configured output format names,
    /// and it has one channel.
    pub fn finish_preview(&self, text: &str, audio_bytes: Vec<u8>) -> (r: Result<
        SpeechPreview,
        TtsError,
    >)
        ensures
            match r {
                Ok(p) => {
                    &&& sample_rate_of(self.config().output_format@) == Some(p.sample_rate_hz)
                    &&& audio_format_matches(p.audio_format, self.config().output_format@)
                    &&& p.text@ == text@
                    &&& p.audio_bytes@ == audio_bytes@
                    &&& p.channel_count == 1
                },
                Err(e) => sample_rate_of(self.config().output_format@) is None
                    && sample_rate_error(self.config().output_format@, e),
            },
    {
        let audio_format = match AudioFormat::from_output_format(
            self.config.output_format.as_str(),
        ) {
            Ok(f) => f,
            Err(e) => {
                return Err(e);
            },
        };
        let sample_rate_hz = match infer_sample_rate_hz(self.config.output_format.as_str()) {
            Ok(rate) => rate,
            Err(e) => {
                return Err(e);
            },
        };
        Ok(
            SpeechPreview {
                text: String::from_str(text),
                audio_bytes,
                audio_format,
                sample_rate_hz,
                channel_count: 1,
            },
        )
    }
}

} // verus!
