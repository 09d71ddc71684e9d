//! The audio side: what the output reports, which device and stream layout
//! it picks, how PCM bytes decode, how many frames a resampled rendering
//! has, and how a playback cursor walks the rendered samples.
use vstd::prelude::*;
use crate::config::AudioConfig;
use crate::number::{decimal, format_decimal};
use crate::report::{Notice, NoticeLevel, notices_view};
use crate::text::{
    blank, chars_of, contains, contains_chars, equal_chars, is_blank, lower, lower_chars, trim,
    trimmed_chars,
};
use crate::tts::{AudioFormat, SpeechPreview};

verus! {

/// The local audio output.
#[derive(Debug, Clone)]
pub struct AudioOutput {
    config: AudioConfig,
}

/// Why PCM bytes do not decode.
#[derive(Debug, Clone, PartialEq, Eq)]
pub enum PcmError {
    /// 16-bit samples take two bytes each; the buffer had this odd length.
    OddLength(usize),
}

/// Why a preview cannot be played on a device.
#[derive(Debug, Clone, PartialEq, Eq)]
pub enum PlaybackError {
    /// Devices are fed PCM only; the preview is in another format.
    NotPcm,
    /// The rendering came out with no sample.
    EmptyBuffer,
}

/// One stream layout that a device supports: a channel count and a range of
/// sample rates.
#[derive(Debug, Clone, Copy, PartialEq, Eq)]
pub struct SupportedRange {
    pub channels: u16,
    pub min_sample_rate: u32,
    pub max_sample_rate: u32,
}

/// Where playback stands in a buffer of rendered samples.
#[derive(Debug, Clone, Copy)]
pub struct PlaybackCursor {
    position: usize,
    sample_count: usize,
    completed: bool,
}

/// The signed value of a little-endian 16-bit sample.
pub open spec fn sample_value(lo: u8, hi: u8) -> int {
    let u = lo + 256 * hi;
    if u >= 32768 {
        u - 65536
    } else {
        u
    }
}

/// The samples that a PCM buffer of even length holds.
pub open spec fn decoded_samples(bytes: Seq<u8>) -> Seq<i16> {
    Seq::new(
        bytes.len() / 2,
        |i: int| sample_value(bytes[2 * i], bytes[2 * i + 1]) as i16,
    )
}

/// The frame count of a rendering: none where the input has no whole frame
/// or either side has no channel; as many as the input where the rates agree;
/// else the input's count scaled by the rate ratio, rounded down, at least
/// one, and cut to the machine's word as a cast does.
pub open spec fn frame_count(
    sample_count: nat,
    input_channels: nat,
    input_rate: nat,
    output_channels: nat,
    output_rate: nat,
) -> nat {
    if sample_count == 0 || input_channels == 0 || output_channels == 0 {
        0
    } else {
        let frames = sample_count / input_channels;
        if frames == 0 {
            0
        } else if input_rate == output_rate {
            frames
        } else {
            let scaled = frames * output_rate / input_rate;
            let at_least_one: nat = if scaled == 0 {
                1
            } else {
                scaled
            };
            at_least_one as usize as nat
        }
    }
}

/// Whether a rendering scales the frame count by the rate ratio: there are
/// whole input frames, output channels, and the rates differ.
pub open spec fn renders_by_ratio(
    sample_count: nat,
    input_channels: nat,
    input_rate: nat,
    output_channels: nat,
    output_rate: nat,
) -> bool {
    &&& sample_count > 0
    &&& input_channels > 0
    &&& output_channels > 0
    &&& sample_count / input_channels > 0
    &&& input_rate != output_rate
}

/// A supported layout that serves the preferred rate and channel count.
pub open spec fn serves(range: SupportedRange, rate: u32, channels: u16) -> bool {
    range.channels == channels && range.min_sample_rate <= rate && rate <= range.max_sample_rate
}

/// A device name that the configured name selects: equal to it, or holding
/// it, after trimming the configured name and ignoring ASCII case.
pub open spec fn selects_device(name: Seq<char>, configured: Seq<char>) -> bool {
    let wanted = lower(trim(configured));
    lower(name) == wanted || contains(lower(name), wanted)
}

/// What the output reports of its configuration.
pub open spec fn audio_report(config: AudioConfig) -> Seq<(NoticeLevel, Seq<char>)> {
    seq![
        (
            NoticeLevel::Info,
            "audio output configured: device='"@ + config.output_device@ + "', sample_rate_hz="@
                + decimal(config.sample_rate_hz as nat) + ", channel_count="@ + decimal(
                config.channel_count as nat,
            ),
        ),
    ]
}

/// The two lines that describe a preview before it plays.
pub open spec fn preview_report(preview: SpeechPreview, label: Seq<char>) -> Seq<Seq<char>> {
    seq![
        "Preview text: "@ + preview.text@,
        "Preview audio: "@ + decimal(preview.audio_bytes@.len()) + " bytes, format="@ + label
            + ", "@ + decimal(preview.sample_rate_hz as nat) + " Hz, "@ + decimal(
            preview.channel_count as nat,
        ) + " channel(s)"@,
    ]
}

impl AudioOutput {
    pub fn new(config: AudioConfig) -> (r: Self)
        ensures
            r.config() == config,
    {
        Self { config }
    }

    pub closed spec fn config(&self) -> AudioConfig {
        self.config
    }

    /// What to log about the configuration: the device, the preferred sample
    /// rate and the preferred channel count.
    pub fn describe_configuration(&self) -> (r: Vec<Notice>)
        ensures
            notices_view(r@) == audio_report(self.config()),
    {
        let message = String::from_str("audio output configured: device='").concat(
            self.config.output_device.as_str(),
        ).concat("', sample_rate_hz=").concat(
            format_decimal(self.config.sample_rate_hz as u64).as_str(),
        ).concat(", channel_count=").concat(
            format_decimal(self.config.channel_count as u64).as_str(),
        );
        let mut r: Vec<Notice> = Vec::new();
        r.push(Notice { level: NoticeLevel::Info, message });
        assert(notices_view(r@) =~= audio_report(self.config()));
        r
    }

    /// The lines printed before a preview plays: its text, then its size,
    /// format, sample rate and channel count.
    pub fn preview_lines(&self, preview: &SpeechPreview) -> (r: Vec<String>)
        ensures
            r@.map_values(|s: String| s@) == preview_report(*preview, match preview.audio_format {
                AudioFormat::PcmS16Le => "pcm_s16le"@,
                AudioFormat::Encoded(codec) => codec@,
            }),
    {
        let first = String::from_str("Preview text: ").concat(preview.text.as_str());
        let label = preview.audio_format.label();
        let second = String::from_str("Preview audio: ").concat(
            format_decimal(preview.audio_bytes.len() as u64).as_str(),
        ).concat(" bytes, format=").concat(label).concat(", ").concat(
            format_decimal(preview.sample_rate_hz as u64).as_str(),
        ).concat(" Hz, ").concat(format_decimal(preview.channel_count as u64).as_str()).concat(
            " channel(s)",
        );
        let mut r: Vec<String> = Vec::new();
        r.push(first);
        r.push(second);
        assert(r@.map_values(|s: String| s@) =~= preview_report(*preview, label@));
        r
    }
}

/// What the device listing prints: the devices' names, or a note that there
/// is none.
pub fn device_listing(names: Vec<String>) -> (r: Vec<String>)
    ensures
        names.len() == 0 ==> r@.map_values(|s: String| s@) == seq!["No output devices found."@],
        names.len() > 0 ==> r == names,
{
    if names.len() == 0 {
        let mut r: Vec<String> = Vec::new();
        r.push(String::from_str("No output devices found."));
        assert(r@.map_values(|s: String| s@) =~= seq!["No output devices found."@]);
        r
    } else {
        names
    }
}

/// A device is selected exactly when the configured name, trimmed and
/// ASCII-lowercased, occurs somewhere in the ASCII-lowercased device name:
/// at its start, its end or anywhere between.
pub proof fn lemma_device_selected_by_substring(name: Seq<char>, configured: Seq<char>)
    ensures
        selects_device(name, configured) <==> exists|i: int|
            0 <= i && i + lower(trim(configured)).len() <= name.len() && #[trigger] lower(
                name,
            ).subrange(i, i + lower(trim(configured)).len()) == lower(trim(configured)),
{
    let wanted = lower(trim(configured));
    let lowered = lower(name);
    assert(lowered.len() == name.len());
    if lowered == wanted {
        assert(lowered.subrange(0, wanted.len() as int) =~= wanted);
        assert(crate::text::occurs_at(lowered, wanted, 0));
    }
    if exists|i: int|
        0 <= i && i + wanted.len() <= name.len() && #[trigger] lowered.subrange(
            i,
            i + wanted.len(),
        ) == wanted {
        let i = choose|i: int|
            0 <= i && i + wanted.len() <= name.len() && #[trigger] lowered.subrange(
                i,
                i + wanted.len(),
            ) == wanted;
        assert(crate::text::occurs_at(lowered, wanted, i));
    }
    if contains(lowered, wanted) {
        let i = choose|i: int| crate::text::occurs_at(lowered, wanted, i);
        assert(lowered.subrange(i, i + wanted.len()) == wanted);
    }
}

/// Decoding PCM gives one sample per byte pair, in order, and each sample's
/// 16-bit two's-complement form is its byte pair read little-endian.
pub proof fn lemma_decoded_samples(bytes: Seq<u8>)
    requires
        bytes.len() % 2 == 0,
    ensures
        decoded_samples(bytes).len() * 2 == bytes.len(),
        forall|i: int|
            0 <= i < bytes.len() / 2 ==> ((#[trigger] decoded_samples(bytes)[i]) as int + 65536)
                % 65536 == bytes[2 * i] + 256 * bytes[2 * i + 1],
{
    assert forall|i: int| 0 <= i < bytes.len() / 2 implies ((
    #[trigger] decoded_samples(bytes)[i]) as int + 65536) % 65536 == bytes[2 * i] + 256 * bytes[2
        * i + 1] by {
        let lo = bytes[2 * i];
        let hi = bytes[2 * i + 1];
        let v = sample_value(lo, hi);
        assert(-32768 <= v <= 32767);
        assert(decoded_samples(bytes)[i] as int == v);
        let u = lo + 256 * hi;
        assert(0 <= u < 65536);
        if u >= 32768 {
            assert(v + 65536 == u);
        } else {
            assert(v + 65536 == u + 65536);
            assert((u + 65536) % 65536 == u);
        }
    }
}

/// Decoding two buffers one after the other gives what decoding them joined
/// gives, where the first holds whole samples.
pub proof fn lemma_decode_concat(first: Seq<u8>, second: Seq<u8>)
    requires
        first.len() % 2 == 0,
    ensures
        decoded_samples(first + second) == decoded_samples(first) + decoded_samples(second),
{
    let joined = first + second;
    let h = first.len() / 2;
    assert(2 * h == first.len());
    assert(joined.len() / 2 == h + second.len() / 2);
    assert forall|i: int| 0 <= i < joined.len() / 2 implies #[trigger] decoded_samples(joined)[i]
        == (decoded_samples(first) + decoded_samples(second))[i] by {
        if i < h {
            assert(joined[2 * i] == first[2 * i]);
            assert(joined[2 * i + 1] == first[2 * i + 1]);
        } else {
            let k = i - h;
            assert(2 * i == first.len() + 2 * k);
            assert(joined[2 * i] == second[2 * k]);
            assert(joined[2 * i + 1] == second[2 * k + 1]);
        }
    }
    assert(decoded_samples(joined) =~= decoded_samples(first) + decoded_samples(second));
}

/// Whether the configured device name asks for the system's default device:
/// it is empty or whitespace.
pub fn uses_default_device(configured: &str) -> (r: bool)
    ensures
        r == is_blank(configured@),
{
    blank(configured)
}

/// Whether the device called `name` is the one the configuration asks for.
pub fn device_name_matches(name: &str, configured: &str) -> (r: bool)
    ensures
        r == selects_device(name@, configured@),
{
    let wanted = lower_chars(&trimmed_chars(configured));
    let lowered = lower_chars(&chars_of(name));
    let same = equal_chars(&lowered, &wanted);
    same || contains_chars(&lowered, &wanted)
}

/// Checks that a preview can be fed to a device: its audio must be PCM.
pub fn require_pcm(format: &AudioFormat) -> (r: Result<(), PlaybackError>)
    ensures
        r == (match format {
            AudioFormat::PcmS16Le => Ok::<(), PlaybackError>(()),
            AudioFormat::Encoded(_) => Err(PlaybackError::NotPcm),
        }),
{
    match format {
        AudioFormat::PcmS16Le => Ok(()),
        AudioFormat::Encoded(_) => Err(PlaybackError::NotPcm),
    }
}

/// Checks that a rendering has something to play.
pub fn require_samples(rendered_count: usize) -> (r: Result<(), PlaybackError>)
    ensures
        r == (if rendered_count == 0 {
            Err(PlaybackError::EmptyBuffer)
        } else {
            Ok::<(), PlaybackError>(())
        }),
{
    if rendered_count == 0 {
        Err(PlaybackError::EmptyBuffer)
    } else {
        Ok(())
    }
}

impl PlaybackError {
    /// The error's text.
    pub fn message(&self) -> (r: String)
        ensures
            r@ == match self {
                PlaybackError::NotPcm => "audio playback requires PCM output when using `audio-cpal`"@,
                PlaybackError::EmptyBuffer => "received empty PCM audio buffer"@,
            },
    {
        match self {
            PlaybackError::NotPcm => String::from_str(
                "audio playback requires PCM output when using `audio-cpal`",
            ),
            PlaybackError::EmptyBuffer => String::from_str("received empty PCM audio buffer"),
        }
    }
}

/// Decodes signed 16-bit little-endian PCM into samples.
pub fn decode_pcm_s16le(bytes: &[u8]) -> (r: Result<Vec<i16>, PcmError>)
    ensures
        bytes@.len() % 2 == 1 ==> r == Err::<Vec<i16>, PcmError>(PcmError::OddLength(bytes@.len() as usize)),
        bytes@.len() % 2 == 0 ==> (r matches Ok(v) && v@ == decoded_samples(bytes@)),
{
    let n = bytes.len();
    if n % 2 != 0 {
        return Err(PcmError::OddLength(n));
    }
    let mut samples: Vec<i16> = Vec::new();
    let mut k: usize = 0;
    while k < n / 2
        invariant
            n == bytes@.len(),
            n % 2 == 0,
            k <= n / 2,
            samples@ == decoded_samples(bytes@).take(k as int),
        decreases n / 2 - k,
    {
        let lo = bytes[2 * k];
        let hi = bytes[2 * k + 1];
        let value: i16 = if hi < 128 {
            (hi as i16) * 256 + (lo as i16)
        } else {
            ((hi as i32 - 256) * 256 + (lo as i32)) as i16
        };
        assert(value as int == sample_value(lo, hi));
        samples.push(value);
        assert(decoded_samples(bytes@).take(k + 1) =~= decoded_samples(bytes@).take(k as int).push(
            value,
        ));
        k = k + 1;
    }
    assert(decoded_samples(bytes@).take(k as int) =~= decoded_samples(bytes@));
    Ok(samples)
}

impl PcmError {
    /// The error's text.
    pub fn message(&self) -> (r: String)
        ensures
            match self {
                PcmError::OddLength(n) => r@ == "PCM audio byte length must be even, got "@
                    + decimal(*n as nat),
            },
    {
        match self {
            PcmError::OddLength(n) => String::from_str(
                "PCM audio byte length must be even, got ",
            ).concat(format_decimal(*n as u64).as_str()),
        }
    }
}

/// The number of frames rendered from `sample_count` interleaved input
/// samples for the output layout.
pub fn render_frame_count(
    sample_count: usize,
    input_channels: u16,
    input_rate_hz: u32,
    output_channels: u16,
    output_rate_hz: u32,
) -> (r: usize)
    requires
        renders_by_ratio(
            sample_count as nat,
            input_channels as nat,
            input_rate_hz as nat,
            output_channels as nat,
            output_rate_hz as nat,
        ) ==> input_rate_hz > 0 && ((sample_count as nat) / (input_channels as nat))
            * output_rate_hz <= u64::MAX,
    ensures
        r == frame_count(
            sample_count as nat,
            input_channels as nat,
            input_rate_hz as nat,
            output_channels as nat,
            output_rate_hz as nat,
        ),
{
    if sample_count == 0 || input_channels == 0 || output_channels == 0 {
        return 0;
    }
    let frames = sample_count / (input_channels as usize);
    if frames == 0 {
        return 0;
    }
    if input_rate_hz == output_rate_hz {
        frames
    } else {
        let product = (frames as u64) * (output_rate_hz as u64);
        let scaled = product / (input_rate_hz as u64);
        let at_least_one: u64 = if scaled == 0 {
            1
        } else {
            scaled
        };
        at_least_one as usize
    }
}

/// The input channel that feeds an output channel: the only one of a mono
/// input, else the channel of the same index, or the last one where the
/// input has fewer.
pub fn source_channel_index(output_channel: usize, input_channels: usize) -> (r: usize)
    requires
        input_channels > 0,
    ensures
        r == (if input_channels == 1 {
            0
        } else if output_channel < input_channels - 1 {
            output_channel as int
        } else {
            input_channels - 1
        }),
{
    if input_channels == 1 {
        0
    } else if output_channel < input_channels - 1 {
        output_channel
    } else {
        input_channels - 1
    }
}

/// The first supported layout that serves the preferred sample rate and
/// channel count, by its position; `None` where no layout does, and the
/// device's default layout is used.
pub fn choose_stream_config(
    ranges: &Vec<SupportedRange>,
    preferred_rate: u32,
    preferred_channels: u16,
) -> (r: Option<usize>)
    ensures
        match r {
            Some(i) => i < ranges.len() && serves(ranges@[i as int], preferred_rate, preferred_channels)
                && forall|j: int|
                0 <= j < i ==> !serves(#[trigger] ranges@[j], preferred_rate, preferred_channels),
            None => forall|j: int|
                0 <= j < ranges.len() ==> !serves(
                    #[trigger] ranges@[j],
                    preferred_rate,
                    preferred_channels,
                ),
        },
{
    let mut i: usize = 0;
    while i < ranges.len()
        invariant
            i <= ranges.len(),
            forall|j: int|
                0 <= j < i ==> !serves(#[trigger] ranges@[j], preferred_rate, preferred_channels),
        decreases ranges.len() - i,
    {
        let range = ranges[i];
        if range.channels == preferred_channels && range.min_sample_rate <= preferred_rate
            && preferred_rate <= range.max_sample_rate {
            return Some(i);
        }
        i = i + 1;
    }
    None
}

impl PlaybackCursor {
    /// A cursor at the start of `sample_count` rendered samples.
    pub fn new(sample_count: usize) -> (r: Self)
        ensures
            r.position() == 0,
            r.sample_count() == sample_count,
            !r.completed(),
    {
        PlaybackCursor { position: 0, sample_count, completed: false }
    }

    pub closed spec fn position(&self) -> nat {
        self.position as nat
    }

    pub closed spec fn sample_count(&self) -> nat {
        self.sample_count as nat
    }

    pub closed spec fn completed(&self) -> bool {
        self.completed
    }

    #[verifier::type_invariant]
    spec fn within_bounds(&self) -> bool {
        self.position <= self.sample_count
    }

    /// Fills an output buffer of `slots` slots: the samples from the current
    /// position go first, as many as fit, and the rest of the buffer is
    /// silence. Returns how many samples were taken; playback is complete
    /// once a buffer has had a slot left over.
    pub fn fill(&mut self, slots: usize) -> (taken: usize)
        ensures
            final(self).sample_count() == old(self).sample_count(),
            old(self).position() + taken <= old(self).sample_count(),
            taken == (if slots <= old(self).sample_count() - old(self).position() {
                slots as int
            } else {
                old(self).sample_count() - old(self).position()
            }),
            final(self).position() == old(self).position() + taken,
            final(self).completed() == (old(self).completed() || slots > taken),
    {
        proof {
            use_type_invariant(&*self);
        }
        let remaining = self.sample_count - self.position;
        let taken = if slots <= remaining {
            slots
        } else {
            remaining
        };
        let completed = self.completed || slots > taken;
        *self = PlaybackCursor {
            position: self.position + taken,
            sample_count: self.sample_count,
            completed,
        };
        taken
    }

    /// The position of the next sample to play.
    pub fn current(&self) -> (r: usize)
        ensures
            r == self.position(),
    {
        self.position
    }

    /// Whether a buffer has run past the last sample.
    pub fn is_completed(&self) -> (r: bool)
        ensures
            r == self.completed(),
    {
        self.completed
    }
}

} // verus!
