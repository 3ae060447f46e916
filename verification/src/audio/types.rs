//! Data types used across the audio subsystem.

use vstd::prelude::*;

use crate::text::{decimal, decimal_of};

verus! {

/// Current playback state
#[derive(Debug, Clone, Copy, PartialEq, Eq, Structural)]
pub enum PlaybackState {
    Stopped,
    Playing,
    Paused,
}

impl Default for PlaybackState {
    fn default() -> (r: Self)
        ensures
            r == PlaybackState::Stopped,
    {
        PlaybackState::Stopped
    }
}

/// The name of a playback state.
pub open spec fn state_name(s: PlaybackState) -> Seq<char> {
    match s {
        PlaybackState::Stopped => "Stopped"@,
        PlaybackState::Playing => "Playing"@,
        PlaybackState::Paused => "Paused"@,
    }
}

impl PlaybackState {
    /// The state's name.
    pub fn to_string(&self) -> (r: String)
        ensures
            r@ == state_name(*self),
    {
        match self {
            PlaybackState::Stopped => "Stopped".to_string(),
            PlaybackState::Playing => "Playing".to_string(),
            PlaybackState::Paused => "Paused".to_string(),
        }
    }
}

/// Codec information for the current stream
#[derive(Debug)]
pub struct CodecInfo {
    pub codec_name: String,
    pub channels: u16,
    pub sample_rate: u32,
    pub bits_per_sample: Option<u32>,
    pub bitrate: Option<u32>,
}

/// What a `CodecInfo` says.
pub struct CodecInfoView {
    pub codec_name: Seq<char>,
    pub channels: u16,
    pub sample_rate: u32,
    pub bits_per_sample: Option<u32>,
    pub bitrate: Option<u32>,
}

impl View for CodecInfo {
    type V = CodecInfoView;

    open spec fn view(&self) -> CodecInfoView {
        CodecInfoView {
            codec_name: self.codec_name@,
            channels: self.channels,
            sample_rate: self.sample_rate,
            bits_per_sample: self.bits_per_sample,
            bitrate: self.bitrate,
        }
    }
}

impl Clone for CodecInfo {
    fn clone(&self) -> (r: Self)
        ensures
            r@ == self@,
    {
        CodecInfo {
            codec_name: self.codec_name.clone(),
            channels: self.channels,
            sample_rate: self.sample_rate,
            bits_per_sample: self.bits_per_sample,
            bitrate: self.bitrate,
        }
    }
}

/// One field of a codec description: a separator, a number and its unit.
pub open spec fn field_text(n: u32, unit: Seq<char>) -> Seq<char> {
    " · "@ + decimal_of(n as nat) + unit
}

/// A field that is left out where its number is not known.
pub open spec fn optional_field_text(n: Option<u32>, unit: Seq<char>) -> Seq<char> {
    match n {
        Some(n) => field_text(n, unit),
        None => Seq::empty(),
    }
}

/// A codec description: name, bitrate, sample rate, bits per sample, channel layout.
pub open spec fn codec_text(c: CodecInfoView) -> Seq<char> {
    c.codec_name + optional_field_text(c.bitrate, " kbps"@) + field_text(c.sample_rate, " Hz"@)
        + optional_field_text(c.bits_per_sample, "-bit"@) + " · "@ + (if c.channels == 1 {
        "Mono"@
    } else {
        "Stereo"@
    })
}

/// Appends one field of a codec description.
fn append_field(text: &mut String, n: u32, unit: &str)
    ensures
        final(text)@ == old(text)@ + field_text(n, unit@),
{
    let ghost before = text@;
    text.append(" · ");
    let digits: String = decimal(n as u64);
    text.append(&digits);
    text.append(unit);
    assert(text@ =~= before + field_text(n, unit@));
}

impl CodecInfo {
    /// The codec described for display.
    pub fn to_string(&self) -> (r: String)
        ensures
            r@ == codec_text(self@),
    {
        let mut r: String = self.codec_name.clone();
        if let Some(bitrate) = self.bitrate {
            append_field(&mut r, bitrate, " kbps");
        }
        assert(r@ =~= self.codec_name@ + optional_field_text(self.bitrate, " kbps"@));
        append_field(&mut r, self.sample_rate, " Hz");
        let ghost before = r@;
        if let Some(bits) = self.bits_per_sample {
            append_field(&mut r, bits, "-bit");
        }
        assert(r@ =~= before + optional_field_text(self.bits_per_sample, "-bit"@));
        r.append(" · ");
        if self.channels == 1 {
            r.append("Mono");
        } else {
            r.append("Stereo");
        }
        r
    }
}

/// Events emitted by the audio engine
#[derive(Debug, Clone)]
pub enum AudioEvent {
    /// Playback started with codec info
    Playing(CodecInfo),
    /// Playback stopped
    Stopped,
    /// Playback paused
    Paused,
    /// Playback resumed
    Resumed,
    /// An error occurred
    Error(String),
    /// Metadata update from stream (ICY, etc.)
    MetadataUpdate { title: String, artist: String },
    /// Stream stalled — no audio data received for too long
    StreamStalled,
    /// Format probe timed out (e.g., MPEG-2 ADTS hang)
    ProbeTimeout,
    /// Probe succeeded but no audio samples were produced
    NoAudioTimeout,
    /// Buffer fill percentage (0–100); 100 means done buffering
    Buffering(u8),
}

/// What an `AudioEvent` says.
pub enum AudioEventView {
    Playing(CodecInfoView),
    Stopped,
    Paused,
    Resumed,
    Error(Seq<char>),
    MetadataUpdate { title: Seq<char>, artist: Seq<char> },
    StreamStalled,
    ProbeTimeout,
    NoAudioTimeout,
    Buffering(u8),
}

impl View for AudioEvent {
    type V = AudioEventView;

    open spec fn view(&self) -> AudioEventView {
        match *self {
            AudioEvent::Playing(info) => AudioEventView::Playing(info@),
            AudioEvent::Stopped => AudioEventView::Stopped,
            AudioEvent::Paused => AudioEventView::Paused,
            AudioEvent::Resumed => AudioEventView::Resumed,
            AudioEvent::Error(text) => AudioEventView::Error(text@),
            AudioEvent::MetadataUpdate { title, artist } => AudioEventView::MetadataUpdate {
                title: title@,
                artist: artist@,
            },
            AudioEvent::StreamStalled => AudioEventView::StreamStalled,
            AudioEvent::ProbeTimeout => AudioEventView::ProbeTimeout,
            AudioEvent::NoAudioTimeout => AudioEventView::NoAudioTimeout,
            AudioEvent::Buffering(percent) => AudioEventView::Buffering(percent),
        }
    }
}

/// A codec is described by its name, the bitrate where it is known, the sample rate, the sample
/// size where it is known, and the channel layout, in that order, with a dot between them.
pub proof fn law_codec_description(c: CodecInfoView, bitrate: u32, bits: u32)
    ensures
        ({
            let rate = " · "@ + decimal_of(c.sample_rate as nat) + " Hz"@;
            let layout = if c.channels == 1 {
                " · "@ + "Mono"@
            } else {
                " · "@ + "Stereo"@
            };
            let known_rate = " · "@ + decimal_of(bitrate as nat) + " kbps"@;
            let known_bits = " · "@ + decimal_of(bits as nat) + "-bit"@;
            &&& codec_text(CodecInfoView { bitrate: None, bits_per_sample: None, ..c })
                == c.codec_name + rate + layout
            &&& codec_text(CodecInfoView { bitrate: Some(bitrate), bits_per_sample: None, ..c })
                == c.codec_name + known_rate + rate + layout
            &&& codec_text(CodecInfoView { bitrate: None, bits_per_sample: Some(bits), ..c })
                == c.codec_name + rate + known_bits + layout
            &&& codec_text(
                CodecInfoView { bitrate: Some(bitrate), bits_per_sample: Some(bits), ..c },
            ) == c.codec_name + known_rate + rate + known_bits + layout
        }),
{
    let rate = " · "@ + decimal_of(c.sample_rate as nat) + " Hz"@;
    let layout = if c.channels == 1 {
        " · "@ + "Mono"@
    } else {
        " · "@ + "Stereo"@
    };
    let known_rate = " · "@ + decimal_of(bitrate as nat) + " kbps"@;
    let known_bits = " · "@ + decimal_of(bits as nat) + "-bit"@;
    assert(codec_text(CodecInfoView { bitrate: None, bits_per_sample: None, ..c })
        =~= c.codec_name + rate + layout);
    assert(codec_text(CodecInfoView { bitrate: Some(bitrate), bits_per_sample: None, ..c })
        =~= c.codec_name + known_rate + rate + layout);
    assert(codec_text(CodecInfoView { bitrate: None, bits_per_sample: Some(bits), ..c })
        =~= c.codec_name + rate + known_bits + layout);
    assert(codec_text(
        CodecInfoView { bitrate: Some(bitrate), bits_per_sample: Some(bits), ..c },
    ) =~= c.codec_name + known_rate + rate + known_bits + layout);
}

/// Each playback state goes by its own name.
pub proof fn law_state_names(s: PlaybackState)
    ensures
        s == PlaybackState::Stopped <==> state_name(s) == "Stopped"@,
        s == PlaybackState::Playing <==> state_name(s) == "Playing"@,
        s == PlaybackState::Paused <==> state_name(s) == "Paused"@,
{
    reveal_strlit("Stopped");
    reveal_strlit("Playing");
    reveal_strlit("Paused");
    assert("Stopped"@[0] == 'S' && "Playing"@[0] == 'P' && "Paused"@[0] == 'P');
    assert("Playing"@[1] == 'l' && "Paused"@[1] == 'a');
}

/// A codec description says what its fields hold.
pub proof fn law_codec_says(c: CodecInfo)
    ensures
        c@.channels == c.channels,
        c@.sample_rate == c.sample_rate,
        c@.bits_per_sample == c.bits_per_sample,
        c@.bitrate == c.bitrate,
        c@.codec_name == c.codec_name@,
{
}

} // verus!
