//! The speaker's configuration: its sections, the values a missing setting
//! takes, and how environment variables override what the file says.
use vstd::prelude::*;

verus! {

/// Where the assistant replies come from.
#[derive(Debug, Clone)]
pub struct OpenClawConfig {
    pub gateway_url: String,
    pub gateway_token: String,
    pub session_filter: String,
}

/// How replies are turned into speech.
#[derive(Debug, Clone)]
pub struct ElevenLabsConfig {
    pub api_key: String,
    pub voice_id: String,
    pub model_id: String,
    pub output_format: String,
    pub language_code: Option<String>,
}

/// Where speech is played.
#[derive(Debug, Clone)]
pub struct AudioConfig {
    pub output_device: String,
    pub sample_rate_hz: u32,
    pub channel_count: u16,
}

/// How replies are spoken over time.
#[derive(Debug, Clone)]
pub struct SpeechConfig {
    pub interrupt_on_new_reply: bool,
    pub dedupe_window_ms: u64,
}

/// The whole configuration.
#[derive(Debug, Clone)]
pub struct AppConfig {
    pub openclaw: OpenClawConfig,
    pub elevenlabs: ElevenLabsConfig,
    pub audio: AudioConfig,
    pub speech: SpeechConfig,
}

/// The values of the environment variables that override the configuration,
/// each `None` where the variable is unset.
#[derive(Debug, Clone)]
pub struct EnvOverrides {
    /// `OPENCLAW_GATEWAY_URL`
    pub gateway_url: Option<String>,
    /// `OPENCLAW_GATEWAY_TOKEN`
    pub gateway_token: Option<String>,
    /// `OPENCLAW_SESSION_FILTER`
    pub session_filter: Option<String>,
    /// `ELEVENLABS_API_KEY`
    pub api_key: Option<String>,
    /// `ELEVENLABS_VOICE_ID`
    pub voice_id: Option<String>,
    /// `ELEVENLABS_MODEL_ID`
    pub model_id: Option<String>,
    /// `ELEVENLABS_OUTPUT_FORMAT`
    pub output_format: Option<String>,
    /// `ELEVENLABS_LANGUAGE_CODE`
    pub language_code: Option<String>,
    /// `AUDIO_OUTPUT_DEVICE`
    pub output_device: Option<String>,
}

/// A setting after an optional override: the override where there is one.
pub open spec fn overridden(current: String, value: Option<String>) -> String {
    match value {
        Some(v) => v,
        None => current,
    }
}

/// Applying the same environment twice gives what applying it once gives.
pub proof fn lemma_override_idempotent(current: String, value: Option<String>)
    ensures
        overridden(overridden(current, value), value) == overridden(current, value),
{
}

/// A set variable wins over whatever the file said.
pub proof fn lemma_environment_wins(current: String, other: String, value: String)
    ensures
        overridden(current, Some(value)) == overridden(other, Some(value)),
{
}

/// The speech model used when none is configured.
pub fn default_model_id() -> (r: String)
    ensures
        r@ == "eleven_multilingual_v2"@,
{
    String::from_str("eleven_multilingual_v2")
}

/// The audio format requested when none is configured: raw PCM at 24 kHz.
pub fn default_output_format() -> (r: String)
    ensures
        r@ == "pcm_24000"@,
{
    String::from_str("pcm_24000")
}

/// The preferred device sample rate when none is configured.
pub fn default_sample_rate_hz() -> (r: u32)
    ensures
        r == 44_100,
{
    44_100
}

/// The preferred device channel count when none is configured.
pub fn default_channel_count() -> (r: u16)
    ensures
        r == 1,
{
    1
}

/// Whether a new reply cuts off queued speech, when not configured.
pub fn default_interrupt_on_new_reply() -> (r: bool)
    ensures
        r,
{
    true
}

/// The deduplication window, in milliseconds, when not configured.
pub fn default_dedupe_window_ms() -> (r: u64)
    ensures
        r == 5_000,
{
    5_000
}

impl Default for AppConfig {
    /// The configuration used when no configuration file is found.
    fn default() -> (r: Self)
        ensures
            r.openclaw.gateway_url@ == "ws://127.0.0.1:18789"@,
            r.openclaw.gateway_token@ == Seq::<char>::empty(),
            r.openclaw.session_filter@ == Seq::<char>::empty(),
            r.elevenlabs.api_key@ == Seq::<char>::empty(),
            r.elevenlabs.voice_id@ == Seq::<char>::empty(),
            r.elevenlabs.model_id@ == "eleven_multilingual_v2"@,
            r.elevenlabs.output_format@ == "pcm_24000"@,
            r.elevenlabs.language_code.is_none(),
            r.audio.output_device@ == Seq::<char>::empty(),
            r.audio.sample_rate_hz == 44_100,
            r.audio.channel_count == 1,
            r.speech.interrupt_on_new_reply,
            r.speech.dedupe_window_ms == 5_000,
    {
        AppConfig {
            openclaw: OpenClawConfig {
                gateway_url: String::from_str("ws://127.0.0.1:18789"),
                gateway_token: String::new(),
                session_filter: String::new(),
            },
            elevenlabs: ElevenLabsConfig {
                api_key: String::new(),
                voice_id: String::new(),
                model_id: default_model_id(),
                output_format: default_output_format(),
                language_code: None,
            },
            audio: AudioConfig {
                output_device: String::new(),
                sample_rate_hz: default_sample_rate_hz(),
                channel_count: default_channel_count(),
            },
            speech: SpeechConfig {
                interrupt_on_new_reply: default_interrupt_on_new_reply(),
                dedupe_window_ms: default_dedupe_window_ms(),
            },
        }
    }
}

impl AppConfig {
    /// Lets each set environment variable replace the setting it names; a set
    /// `ELEVENLABS_LANGUAGE_CODE` makes the language code present. Every other
    /// setting is kept.
    pub fn apply_env_overrides(&mut self, env: EnvOverrides)
        ensures
            final(self).openclaw.gateway_url == overridden(old(self).openclaw.gateway_url, env.gateway_url),
            final(self).openclaw.gateway_token == overridden(
                old(self).openclaw.gateway_token,
                env.gateway_token,
            ),
            final(self).openclaw.session_filter == overridden(
                old(self).openclaw.session_filter,
                env.session_filter,
            ),
            final(self).elevenlabs.api_key == overridden(old(self).elevenlabs.api_key, env.api_key),
            final(self).elevenlabs.voice_id == overridden(old(self).elevenlabs.voice_id, env.voice_id),
            final(self).elevenlabs.model_id == overridden(old(self).elevenlabs.model_id, env.model_id),
            final(self).elevenlabs.output_format == overridden(
                old(self).elevenlabs.output_format,
                env.output_format,
            ),
            final(self).elevenlabs.language_code == (match env.language_code {
                Some(v) => Some(v),
                None => old(self).elevenlabs.language_code,
            }),
            final(self).audio.output_device == overridden(old(self).audio.output_device, env.output_device),
            final(self).audio.sample_rate_hz == old(self).audio.sample_rate_hz,
            final(self).audio.channel_count == old(self).audio.channel_count,
            final(self).speech == old(self).speech,
    {
        if let Some(value) = env.gateway_url {
            self.openclaw.gateway_url = value;
        }
        if let Some(value) = env.gateway_token {
            self.openclaw.gateway_token = value;
        }
        if let Some(value) = env.session_filter {
            self.openclaw.session_filter = value;
        }
        if let Some(value) = env.api_key {
            self.elevenlabs.api_key = value;
        }
        if let Some(value) = env.voice_id {
            self.elevenlabs.voice_id = value;
        }
        if let Some(value) = env.model_id {
            self.elevenlabs.model_id = value;
        }
        if let Some(value) = env.output_format {
            self.elevenlabs.output_format = value;
        }
        if let Some(value) = env.language_code {
            self.elevenlabs.language_code = Some(value);
        }
        if let Some(value) = env.output_device {
            self.audio.output_device = value;
        }
    }
}

/// The configuration file to read, in this order: the one named with
/// `--config`; else `$XDG_CONFIG_HOME/openclaw-speak/config.toml`; else
/// `~/.config/openclaw-speak/config.toml`; else none. `xdg_candidate` and
/// `home_candidate` are those two files, each present only where it exists.
pub fn resolve_config_path<P>(
    explicit: Option<P>,
    xdg_candidate: Option<P>,
    home_candidate: Option<P>,
) -> (r: Option<P>)
    ensures
        r == (match explicit {
            Some(p) => Some(p),
            None => match xdg_candidate {
                Some(p) => Some(p),
                None => home_candidate,
            },
        }),
{
    match explicit {
        Some(p) => Some(p),
        None => match xdg_candidate {
            Some(p) => Some(p),
            None => home_candidate,
        },
    }
}

} // verus!
