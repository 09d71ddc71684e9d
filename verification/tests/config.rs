use openclaw_speak::config::{
    default_channel_count, default_dedupe_window_ms, default_interrupt_on_new_reply,
    default_model_id, default_output_format, default_sample_rate_hz, resolve_config_path,
    AppConfig, EnvOverrides,
};
use openclaw_speak::number::{format_decimal, parse_decimal_u32};
use openclaw_speak::text::{blank, chars_of, lower_chars, trim_bounds, trimmed};

fn no_overrides() -> EnvOverrides {
    EnvOverrides {
        gateway_url: None,
        gateway_token: None,
        session_filter: None,
        api_key: None,
        voice_id: None,
        model_id: None,
        output_format: None,
        language_code: None,
        output_device: None,
    }
}

#[test]
fn defaults() {
    let config = AppConfig::default();
    assert_eq!(config.openclaw.gateway_url, "ws://127.0.0.1:18789");
    assert_eq!(config.openclaw.gateway_token, "");
    assert_eq!(config.openclaw.session_filter, "");
    assert_eq!(config.elevenlabs.api_key, "");
    assert_eq!(config.elevenlabs.voice_id, "");
    assert_eq!(config.elevenlabs.model_id, "eleven_multilingual_v2");
    assert_eq!(config.elevenlabs.output_format, "pcm_24000");
    assert_eq!(config.elevenlabs.language_code, None);
    assert_eq!(config.audio.output_device, "");
    assert_eq!(config.audio.sample_rate_hz, 44_100);
    assert_eq!(config.audio.channel_count, 1);
    assert!(config.speech.interrupt_on_new_reply);
    assert_eq!(config.speech.dedupe_window_ms, 5_000);
}

#[test]
fn default_values() {
    assert_eq!(default_model_id(), "eleven_multilingual_v2");
    assert_eq!(default_output_format(), "pcm_24000");
    assert_eq!(default_sample_rate_hz(), 44_100);
    assert_eq!(default_channel_count(), 1);
    assert!(default_interrupt_on_new_reply());
    assert_eq!(default_dedupe_window_ms(), 5_000);
}

#[test]
fn environment_overrides_what_is_set() {
    let mut config = AppConfig::default();
    let mut env = no_overrides();
    env.gateway_url = Some("ws://192.168.1.50:18789".to_string());
    env.gateway_token = Some("token".to_string());
    env.api_key = Some("key".to_string());
    env.language_code = Some("de".to_string());
    env.output_device = Some("hdmi".to_string());
    config.apply_env_overrides(env);
    assert_eq!(config.openclaw.gateway_url, "ws://192.168.1.50:18789");
    assert_eq!(config.openclaw.gateway_token, "token");
    assert_eq!(config.openclaw.session_filter, "");
    assert_eq!(config.elevenlabs.api_key, "key");
    assert_eq!(config.elevenlabs.voice_id, "");
    assert_eq!(config.elevenlabs.model_id, "eleven_multilingual_v2");
    assert_eq!(config.elevenlabs.language_code.as_deref(), Some("de"));
    assert_eq!(config.audio.output_device, "hdmi");
    assert_eq!(config.audio.sample_rate_hz, 44_100);
}

#[test]
fn empty_environment_changes_nothing_and_set_values_win() {
    let mut config = AppConfig::default();
    config.elevenlabs.voice_id = "from-file".to_string();
    config.apply_env_overrides(no_overrides());
    assert_eq!(config.elevenlabs.voice_id, "from-file");
    let mut env = no_overrides();
    env.voice_id = Some("from-env".to_string());
    env.session_filter = Some(String::new());
    config.apply_env_overrides(env.clone());
    config.apply_env_overrides(env);
    assert_eq!(config.elevenlabs.voice_id, "from-env");
    assert_eq!(config.openclaw.session_filter, "");
}

#[test]
fn config_file_search_order() {
    let some = |p: &str| Some(p.to_string());
    assert_eq!(
        resolve_config_path(some("a.toml"), some("xdg.toml"), some("home.toml")),
        some("a.toml")
    );
    assert_eq!(
        resolve_config_path(None, some("xdg.toml"), some("home.toml")),
        some("xdg.toml")
    );
    assert_eq!(resolve_config_path(None, None, some("home.toml")), some("home.toml"));
    assert_eq!(resolve_config_path::<String>(None, None, None), None);
}

#[test]
fn decimal_text_round_trips() {
    assert_eq!(format_decimal(0), "0");
    assert_eq!(format_decimal(7), "7");
    assert_eq!(format_decimal(10), "10");
    assert_eq!(format_decimal(44_100), "44100");
    assert_eq!(format_decimal(u64::MAX), "18446744073709551615");
    for n in [0u32, 9, 10, 99, 100, 24_000, 4_294_967_295] {
        assert_eq!(parse_decimal_u32(&format_decimal(n as u64)), Some(n));
    }
    assert_eq!(parse_decimal_u32("007"), Some(7));
    assert_eq!(parse_decimal_u32(""), None);
    assert_eq!(parse_decimal_u32(" 7"), None);
    assert_eq!(parse_decimal_u32("7a"), None);
}

#[test]
fn trimming_uses_unicode_whitespace() {
    assert_eq!(trimmed("\u{3000} de\t\n"), "de");
    assert_eq!(trimmed("a b"), "a b");
    assert!(blank("\u{2028}\u{85} "));
    assert!(!blank(" x "));
}

#[test]
fn trimming_and_lowercasing_commute() {
    let s = " \tMixed Case\u{2003}";
    let lowered: String = lower_chars(&chars_of(s)).into_iter().collect();
    let trimmed_then_lowered: String = lower_chars(&chars_of(&trimmed(s))).into_iter().collect();
    assert_eq!(trimmed(&lowered), trimmed_then_lowered);
    assert_eq!(trimmed_then_lowered, "mixed case");
    let v = chars_of("  ab ");
    assert_eq!(trim_bounds(&v), (2, 4));
}
