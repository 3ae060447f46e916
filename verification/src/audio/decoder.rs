//! The decisions of the audio decoder
//!
//! Which track is played, what becomes of each packet, and what is told of the codec.

use symphonia_core::codecs::{
    CodecType, CODEC_TYPE_AAC, CODEC_TYPE_ALAC, CODEC_TYPE_FLAC, CODEC_TYPE_MP3, CODEC_TYPE_NULL,
    CODEC_TYPE_OPUS, CODEC_TYPE_PCM_ALAW, CODEC_TYPE_PCM_F32BE, CODEC_TYPE_PCM_F32LE,
    CODEC_TYPE_PCM_F64BE, CODEC_TYPE_PCM_F64LE, CODEC_TYPE_PCM_MULAW, CODEC_TYPE_PCM_S16BE,
    CODEC_TYPE_PCM_S16LE, CODEC_TYPE_PCM_S24BE, CODEC_TYPE_PCM_S24LE, CODEC_TYPE_PCM_S32BE,
    CODEC_TYPE_PCM_S32LE, CODEC_TYPE_PCM_U8, CODEC_TYPE_VORBIS,
};

use vstd::prelude::*;

use crate::audio::stats::{counted, DecoderStats};
use crate::audio::types::{CodecInfo, CodecInfoView};
use crate::config::timeouts::PROBE_TIMEOUT_SECS;
use crate::error::{RadioError, Result};
use crate::text::{decimal, decimal_of, join, opt_text};

verus! {

/// The codecs that are told apart.
#[derive(Debug, Clone, Copy, PartialEq, Eq, Structural)]
pub enum Codec {
    /// No codec: the track holds no audio.
    Null,
    Aac,
    Flac,
    Mp3,
    Opus,
    Vorbis,
    PcmU8,
    PcmS16Le,
    PcmS16Be,
    PcmS24Le,
    PcmS24Be,
    PcmS32Le,
    PcmS32Be,
    PcmF32Le,
    PcmF32Be,
    PcmF64Le,
    PcmF64Be,
    PcmAlaw,
    PcmMulaw,
    Alac,
    /// Any other.
    Other,
}

/// `symphonia_core::codecs::CodecType`, which identifies a codec. It is only carried.
#[verifier::external_type_specification]
#[verifier::external_body]
pub struct ExCodecType(CodecType);

/// The number that a `CodecType` holds. Two of them are equal where it is the same.
pub uninterp spec fn codec_number(codec: CodecType) -> u32;

/// The codec that an identifier stands for.
pub open spec fn codec_of(codec: CodecType) -> Codec {
    match codec_number(codec) {
        0x0 => Codec::Null,
        0x1004 => Codec::Aac,
        0x2000 => Codec::Flac,
        0x1003 => Codec::Mp3,
        0x1005 => Codec::Opus,
        0x1000 => Codec::Vorbis,
        0x11a => Codec::PcmU8,
        0x108 => Codec::PcmS16Le,
        0x10a => Codec::PcmS16Be,
        0x104 => Codec::PcmS24Le,
        0x106 => Codec::PcmS24Be,
        0x100 => Codec::PcmS32Le,
        0x102 => Codec::PcmS32Be,
        0x11c => Codec::PcmF32Le,
        0x11e => Codec::PcmF32Be,
        0x120 => Codec::PcmF64Le,
        0x122 => Codec::PcmF64Be,
        0x124 => Codec::PcmAlaw,
        0x125 => Codec::PcmMulaw,
        0x2003 => Codec::Alac,
        _ => Codec::Other,
    }
}

/// The identifiers of the codecs that are told apart.
struct CodecTypes {
    null: CodecType,
    aac: CodecType,
    flac: CodecType,
    mp3: CodecType,
    opus: CodecType,
    vorbis: CodecType,
    pcm_u8: CodecType,
    pcm_s16le: CodecType,
    pcm_s16be: CodecType,
    pcm_s24le: CodecType,
    pcm_s24be: CodecType,
    pcm_s32le: CodecType,
    pcm_s32be: CodecType,
    pcm_f32le: CodecType,
    pcm_f32be: CodecType,
    pcm_f64le: CodecType,
    pcm_f64be: CodecType,
    pcm_alaw: CodecType,
    pcm_mulaw: CodecType,
    alac: CodecType,
}

/// The constants `CODEC_TYPE_NULL`, `CODEC_TYPE_AAC` and so on of `symphonia_core::codecs`, each
/// with the number that the module defines it by.
#[verifier::external_body]
fn codec_types() -> (r: CodecTypes)
    ensures
        codec_number(r.null) == 0x0,
        codec_number(r.aac) == 0x1004,
        codec_number(r.flac) == 0x2000,
        codec_number(r.mp3) == 0x1003,
        codec_number(r.opus) == 0x1005,
        codec_number(r.vorbis) == 0x1000,
        codec_number(r.pcm_u8) == 0x11a,
        codec_number(r.pcm_s16le) == 0x108,
        codec_number(r.pcm_s16be) == 0x10a,
        codec_number(r.pcm_s24le) == 0x104,
        codec_number(r.pcm_s24be) == 0x106,
        codec_number(r.pcm_s32le) == 0x100,
        codec_number(r.pcm_s32be) == 0x102,
        codec_number(r.pcm_f32le) == 0x11c,
        codec_number(r.pcm_f32be) == 0x11e,
        codec_number(r.pcm_f64le) == 0x120,
        codec_number(r.pcm_f64be) == 0x122,
        codec_number(r.pcm_alaw) == 0x124,
        codec_number(r.pcm_mulaw) == 0x125,
        codec_number(r.alac) == 0x2003,
{
    CodecTypes {
        null: CODEC_TYPE_NULL, aac: CODEC_TYPE_AAC,
        flac: CODEC_TYPE_FLAC, mp3: CODEC_TYPE_MP3,
        opus: CODEC_TYPE_OPUS, vorbis: CODEC_TYPE_VORBIS,
        pcm_u8: CODEC_TYPE_PCM_U8, pcm_s16le: CODEC_TYPE_PCM_S16LE,
        pcm_s16be: CODEC_TYPE_PCM_S16BE, pcm_s24le: CODEC_TYPE_PCM_S24LE,
        pcm_s24be: CODEC_TYPE_PCM_S24BE, pcm_s32le: CODEC_TYPE_PCM_S32LE,
        pcm_s32be: CODEC_TYPE_PCM_S32BE, pcm_f32le: CODEC_TYPE_PCM_F32LE,
        pcm_f32be: CODEC_TYPE_PCM_F32BE, pcm_f64le: CODEC_TYPE_PCM_F64LE,
        pcm_f64be: CODEC_TYPE_PCM_F64BE, pcm_alaw: CODEC_TYPE_PCM_ALAW,
        pcm_mulaw: CODEC_TYPE_PCM_MULAW, alac: CODEC_TYPE_ALAC,
    }
}

/// `==` on `symphonia_core::codecs::CodecType`, which is derived: it compares the numbers.
#[verifier::external_body]
fn same_codec_type(a: CodecType, b: CodecType) -> (r: bool)
    ensures
        r == (codec_number(a) == codec_number(b)),
{
    a == b
}

/// Tells the identifiers of the codecs apart.
fn identify(codec: CodecType) -> (r: Codec)
    ensures
        r == codec_of(codec),
{
    let types = codec_types();
    if same_codec_type(codec, types.null) {
        Codec::Null
    } else if same_codec_type(codec, types.aac) {
        Codec::Aac
    } else if same_codec_type(codec, types.flac) {
        Codec::Flac
    } else if same_codec_type(codec, types.mp3) {
        Codec::Mp3
    } else if same_codec_type(codec, types.opus) {
        Codec::Opus
    } else if same_codec_type(codec, types.vorbis) {
        Codec::Vorbis
    } else if same_codec_type(codec, types.pcm_u8) {
        Codec::PcmU8
    } else if same_codec_type(codec, types.pcm_s16le) {
        Codec::PcmS16Le
    } else if same_codec_type(codec, types.pcm_s16be) {
        Codec::PcmS16Be
    } else if same_codec_type(codec, types.pcm_s24le) {
        Codec::PcmS24Le
    } else if same_codec_type(codec, types.pcm_s24be) {
        Codec::PcmS24Be
    } else if same_codec_type(codec, types.pcm_s32le) {
        Codec::PcmS32Le
    } else if same_codec_type(codec, types.pcm_s32be) {
        Codec::PcmS32Be
    } else if same_codec_type(codec, types.pcm_f32le) {
        Codec::PcmF32Le
    } else if same_codec_type(codec, types.pcm_f32be) {
        Codec::PcmF32Be
    } else if same_codec_type(codec, types.pcm_f64le) {
        Codec::PcmF64Le
    } else if same_codec_type(codec, types.pcm_f64be) {
        Codec::PcmF64Be
    } else if same_codec_type(codec, types.pcm_alaw) {
        Codec::PcmAlaw
    } else if same_codec_type(codec, types.pcm_mulaw) {
        Codec::PcmMulaw
    } else if same_codec_type(codec, types.alac) {
        Codec::Alac
    } else {
        Codec::Other
    }
}

/// The name of a codec.
pub open spec fn codec_name_of(codec: Codec) -> Seq<char> {
    match codec {
        Codec::Aac => "AAC"@,
        Codec::Flac => "FLAC"@,
        Codec::Mp3 => "MP3"@,
        Codec::Opus => "Opus"@,
        Codec::Vorbis => "Vorbis"@,
        Codec::PcmU8 => "PCM 8-bit"@,
        Codec::PcmS16Le => "PCM 16-bit"@,
        Codec::PcmS16Be => "PCM 16-bit"@,
        Codec::PcmS24Le => "PCM 24-bit"@,
        Codec::PcmS24Be => "PCM 24-bit"@,
        Codec::PcmS32Le => "PCM 32-bit"@,
        Codec::PcmS32Be => "PCM 32-bit"@,
        Codec::PcmF32Le => "PCM 32-bit Float"@,
        Codec::PcmF32Be => "PCM 32-bit Float"@,
        Codec::PcmF64Le => "PCM 64-bit Float"@,
        Codec::PcmF64Be => "PCM 64-bit Float"@,
        Codec::PcmAlaw => "PCM A-law"@,
        Codec::PcmMulaw => "PCM u-law"@,
        Codec::Alac => "ALAC"@,
        Codec::Null => "Audio"@,
        Codec::Other => "Audio"@,
    }
}

/// Convert a symphonia codec type to a human-readable name
pub fn codec_type_to_name(codec: CodecType) -> (r: String)
    ensures
        r@ == codec_name_of(codec_of(codec)),
{
    codec_name(identify(codec))
}

/// The name of a codec.
pub fn codec_name(codec: Codec) -> (r: String)
    ensures
        r@ == codec_name_of(codec),
{
    match codec {
        Codec::Aac => "AAC".to_string(),
        Codec::Flac => "FLAC".to_string(),
        Codec::Mp3 => "MP3".to_string(),
        Codec::Opus => "Opus".to_string(),
        Codec::Vorbis => "Vorbis".to_string(),
        Codec::PcmU8 => "PCM 8-bit".to_string(),
        Codec::PcmS16Le | Codec::PcmS16Be => "PCM 16-bit".to_string(),
        Codec::PcmS24Le | Codec::PcmS24Be => "PCM 24-bit".to_string(),
        Codec::PcmS32Le | Codec::PcmS32Be => "PCM 32-bit".to_string(),
        Codec::PcmF32Le | Codec::PcmF32Be => "PCM 32-bit Float".to_string(),
        Codec::PcmF64Le | Codec::PcmF64Be => "PCM 64-bit Float".to_string(),
        Codec::PcmAlaw => "PCM A-law".to_string(),
        Codec::PcmMulaw => "PCM u-law".to_string(),
        Codec::Alac => "ALAC".to_string(),
        Codec::Null | Codec::Other => "Audio".to_string(),
    }
}

/// What a container says of one of its tracks.
#[derive(Debug, Clone, Copy, PartialEq, Eq, Structural)]
pub struct Track {
    pub id: u32,
    pub codec: Codec,
    pub channels: Option<u16>,
    pub sample_rate: Option<u32>,
    pub bits_per_sample: Option<u32>,
}

impl Track {
    /// A track of which only its id and codec are known.
    pub fn new(id: u32, codec: CodecType) -> (r: Self)
        ensures
            r == (Track {
                id,
                codec: codec_of(codec),
                channels: None,
                sample_rate: None,
                bits_per_sample: None,
            }),
    {
        Track {
            id,
            codec: identify(codec),
            channels: None,
            sample_rate: None,
            bits_per_sample: None,
        }
    }
}

/// The track holds audio.
pub open spec fn holds_audio(track: Track) -> bool {
    track.codec != Codec::Null
}

/// The index of the track to play: the first that holds audio.
pub fn select_track(tracks: &Vec<Track>) -> (r: Result<usize>)
    ensures
        match r {
            Ok(i) => {
                &&& i < tracks@.len()
                &&& holds_audio(tracks@[i as int])
                &&& forall|k: int| 0 <= k < i ==> !holds_audio(#[trigger] tracks@[k])
            },
            Err(e) => {
                &&& e matches RadioError::Decode(text) && text@ == "No audio track found"@
                &&& forall|k: int| 0 <= k < tracks@.len() ==> !holds_audio(#[trigger] tracks@[k])
            },
        },
{
    let mut i: usize = 0;
    while i < tracks.len()
        invariant
            i <= tracks@.len(),
            forall|k: int| 0 <= k < i ==> !holds_audio(#[trigger] tracks@[k]),
        decreases tracks@.len() - i,
    {
        if tracks[i].codec != Codec::Null {
            return Ok(i);
        }
        i += 1;
    }
    Err(RadioError::Decode("No audio track found".to_string()))
}

/// Why a probe brought nothing.
#[derive(Debug, Clone, Copy, PartialEq, Eq, Structural)]
pub enum ProbeFailure {
    /// It took too long.
    TimedOut,
    /// It is gone without a result.
    Disconnected,
}

/// The error on a probe that brought nothing.
pub fn probe_error(failure: ProbeFailure) -> (r: RadioError)
    ensures
        match failure {
            ProbeFailure::TimedOut => r matches RadioError::Timeout(text) && text@
                == "Format probe timed out after "@ + decimal_of(PROBE_TIMEOUT_SECS as nat) + "s"@,
            ProbeFailure::Disconnected => r matches RadioError::Decode(text) && text@
                == "Probe thread panicked"@,
        },
{
    match failure {
        ProbeFailure::TimedOut => {
            let mut text: String = join(
                "Format probe timed out after ",
                &decimal(PROBE_TIMEOUT_SECS),
            );
            text.append("s");
            RadioError::Timeout(text)
        },
        ProbeFailure::Disconnected => RadioError::Decode("Probe thread panicked".to_string()),
    }
}

/// How reading failed.
#[derive(Debug, Clone, Copy, PartialEq, Eq, Structural)]
pub enum IoFault {
    /// The input ended where more was asked for.
    UnexpectedEof,
    /// Anything else, most likely the network.
    Other,
}

/// What container or codec says went wrong.
#[derive(Debug, Clone, Copy, PartialEq, Eq, Structural)]
pub enum MediaFault {
    Io(IoFault),
    /// The data is damaged.
    Decode,
    Seek,
    Unsupported,
    Limit,
    ResetRequired,
}

/// What the container gave when it was asked for a packet.
#[derive(Debug)]
pub enum PacketEvent {
    /// A packet of the track with this id.
    Packet(u32),
    /// An error, with its text.
    Failed(MediaFault, String),
}

/// What the codec made of a packet.
#[derive(Debug)]
pub enum DecodeEvent {
    /// Samples, at this rate and in so many channels.
    Decoded { sample_rate: u32, channels: u16 },
    /// An error, with its text.
    Failed(MediaFault, String),
}

/// What the decoder does next.
#[derive(Debug, Clone, Copy, PartialEq, Eq, Structural)]
pub enum DecodeStep {
    /// Ask for the next packet.
    NextPacket,
    /// Hand the packet to the codec.
    Decode,
    /// Play the samples.
    Play,
    /// End.
    End,
}

/// What the decoder remembers.
#[derive(Debug)]
pub struct DecoderCore {
    pub track_id: u32,
    pub channels: u16,
    pub sample_rate: u32,
    pub codec_name: String,
    pub bits_per_sample: Option<u32>,
    /// The index of the next sample to play.
    pub sample_idx: usize,
    /// The last error other than the end of the stream.
    pub last_error: Option<String>,
    pub stats: DecoderStats,
}

/// What a `DecoderCore` says.
pub struct DecoderView {
    pub track_id: u32,
    pub channels: u16,
    pub sample_rate: u32,
    pub codec_name: Seq<char>,
    pub bits_per_sample: Option<u32>,
    pub sample_idx: usize,
    pub last_error: Option<Seq<char>>,
    pub stats: DecoderStats,
}

impl View for DecoderCore {
    type V = DecoderView;

    open spec fn view(&self) -> DecoderView {
        DecoderView {
            track_id: self.track_id,
            channels: self.channels,
            sample_rate: self.sample_rate,
            codec_name: self.codec_name@,
            bits_per_sample: self.bits_per_sample,
            sample_idx: self.sample_idx,
            last_error: opt_text(self.last_error),
            stats: self.stats,
        }
    }
}

/// What a request for a packet makes of the decoder, and what follows.
pub open spec fn after_packet(d: DecoderView, event: PacketEvent) -> (DecoderView, DecodeStep) {
    match event {
        PacketEvent::Packet(id) => (
            d,
            if id == d.track_id {
                DecodeStep::Decode
            } else {
                DecodeStep::NextPacket
            },
        ),
        PacketEvent::Failed(fault, text) => (
            if fault == MediaFault::Io(IoFault::UnexpectedEof) {
                d
            } else {
                DecoderView { last_error: Some(text@), ..d }
            },
            DecodeStep::End,
        ),
    }
}

/// What the codec's answer makes of the decoder, and what follows.
pub open spec fn after_decode(d: DecoderView, event: DecodeEvent) -> (DecoderView, DecodeStep) {
    match event {
        DecodeEvent::Decoded { sample_rate, channels } => (
            DecoderView {
                sample_rate,
                channels,
                sample_idx: 0,
                stats: DecoderStats {
                    frames_played: counted(d.stats.frames_played),
                    ..d.stats
                },
                ..d
            },
            DecodeStep::Play,
        ),
        DecodeEvent::Failed(MediaFault::Decode, _) => (
            DecoderView {
                stats: DecoderStats {
                    decode_errors: counted(d.stats.decode_errors),
                    ..d.stats
                },
                ..d
            },
            DecodeStep::NextPacket,
        ),
        DecodeEvent::Failed(_, text) => (
            DecoderView { last_error: Some(text@), ..d },
            DecodeStep::End,
        ),
    }
}

/// What a request for a sample makes of the decoder, and the index of the sample.
pub open spec fn after_sample(d: DecoderView, available: usize) -> (DecoderView, Option<usize>) {
    if d.sample_idx < available {
        (DecoderView { sample_idx: (d.sample_idx + 1) as usize, ..d }, Some(d.sample_idx))
    } else {
        (d, None)
    }
}

impl DecoderCore {
    /// A decoder for the track. What the container does not say is taken to be stereo at 44100 Hz
    /// until the first packet is decoded.
    pub fn new(track: &Track) -> (r: Self)
        ensures
            r@ == (DecoderView {
                track_id: track.id,
                channels: match track.channels {
                    Some(n) => n,
                    None => 2,
                },
                sample_rate: match track.sample_rate {
                    Some(n) => n,
                    None => 44100,
                },
                codec_name: codec_name_of(track.codec),
                bits_per_sample: track.bits_per_sample,
                sample_idx: 0,
                last_error: None,
                stats: DecoderStats { frames_played: 0, decode_errors: 0 },
            }),
    {
        DecoderCore {
            track_id: track.id,
            channels: match track.channels {
                Some(n) => n,
                None => 2,
            },
            sample_rate: match track.sample_rate {
                Some(n) => n,
                None => 44100,
            },
            codec_name: codec_name(track.codec),
            bits_per_sample: track.bits_per_sample,
            sample_idx: 0,
            last_error: None,
            stats: DecoderStats::new(),
        }
    }

    /// Get full codec info as a `CodecInfo` struct
    pub fn codec_info(&self) -> (r: CodecInfo)
        ensures
            r@ == (CodecInfoView {
                codec_name: self@.codec_name,
                channels: self@.channels,
                sample_rate: self@.sample_rate,
                bits_per_sample: self@.bits_per_sample,
                bitrate: None,
            }),
    {
        CodecInfo {
            codec_name: self.codec_name.clone(),
            channels: self.channels,
            sample_rate: self.sample_rate,
            bits_per_sample: self.bits_per_sample,
            bitrate: None,
        }
    }

    /// The container was asked for a packet.
    ///
    /// Packets of other tracks are passed over. Any error ends the decoding; that the input ended
    /// is the clean end of the stream, and only another error is remembered.
    pub fn on_packet(&mut self, event: PacketEvent) -> (step: DecodeStep)
        ensures
            (final(self)@, step) == after_packet(old(self)@, event),
            match event {
                PacketEvent::Packet(id) => final(self)@ == old(self)@ && step == if id == old(
                    self,
                )@.track_id {
                    DecodeStep::Decode
                } else {
                    DecodeStep::NextPacket
                },
                PacketEvent::Failed(fault, text) => step == DecodeStep::End && if fault
                    == MediaFault::Io(IoFault::UnexpectedEof) {
                    final(self)@ == old(self)@
                } else {
                    final(self)@ == (DecoderView { last_error: Some(text@), ..old(self)@ })
                },
            },
    {
        match event {
            PacketEvent::Packet(id) => if id == self.track_id {
                DecodeStep::Decode
            } else {
                DecodeStep::NextPacket
            },
            PacketEvent::Failed(fault, text) => {
                if fault != MediaFault::Io(IoFault::UnexpectedEof) {
                    self.last_error = Some(text);
                }
                DecodeStep::End
            },
        }
    }

    /// A packet was handed to the codec.
    ///
    /// Rate and channels are taken from what it gave: they may differ from what the container
    /// said. A damaged packet is counted and passed over.
    pub fn on_decoded(&mut self, event: DecodeEvent) -> (step: DecodeStep)
        ensures
            (final(self)@, step) == after_decode(old(self)@, event),
            match event {
                DecodeEvent::Decoded { sample_rate, channels } => {
                    &&& step == DecodeStep::Play
                    &&& final(self)@ == (DecoderView {
                        sample_rate,
                        channels,
                        sample_idx: 0,
                        stats: DecoderStats {
                            frames_played: counted(old(self)@.stats.frames_played),
                            ..old(self)@.stats
                        },
                        ..old(self)@
                    })
                },
                DecodeEvent::Failed(MediaFault::Decode, _) => {
                    &&& step == DecodeStep::NextPacket
                    &&& final(self)@ == (DecoderView {
                        stats: DecoderStats {
                            decode_errors: counted(old(self)@.stats.decode_errors),
                            ..old(self)@.stats
                        },
                        ..old(self)@
                    })
                },
                DecodeEvent::Failed(_, text) => {
                    &&& step == DecodeStep::End
                    &&& final(self)@ == (DecoderView { last_error: Some(text@), ..old(self)@ })
                },
            },
    {
        match event {
            DecodeEvent::Decoded { sample_rate, channels } => {
                self.stats.record_frame();
                self.sample_rate = sample_rate;
                self.channels = channels;
                self.sample_idx = 0;
                DecodeStep::Play
            },
            DecodeEvent::Failed(MediaFault::Decode, _) => {
                self.stats.record_error();
                DecodeStep::NextPacket
            },
            DecodeEvent::Failed(_, text) => {
                self.last_error = Some(text);
                DecodeStep::End
            },
        }
    }

    /// The index of the next sample to play among `available` decoded ones; nothing where a
    /// packet has to be decoded first.
    pub fn next_sample(&mut self, available: usize) -> (r: Option<usize>)
        ensures
            (final(self)@, r) == after_sample(old(self)@, available),
            if old(self)@.sample_idx < available {
                &&& r == Some(old(self)@.sample_idx)
                &&& final(self)@ == (DecoderView {
                    sample_idx: (old(self)@.sample_idx + 1) as usize,
                    ..old(self)@
                })
            } else {
                r is None && final(self)@ == old(self)@
            },
    {
        if self.sample_idx < available {
            let index: usize = self.sample_idx;
            self.sample_idx = index + 1;
            Some(index)
        } else {
            None
        }
    }
}

/// Each identifier goes by the name of its codec, and one of a codec that is not told apart, or of
/// none, by that of audio in general.
pub proof fn law_codec_names(codec: CodecType)
    ensures
        ({
            let n = codec_number(codec);
            let name = codec_name_of(codec_of(codec));
            &&& n == 0x1004 ==> name == "AAC"@
            &&& n == 0x2000 ==> name == "FLAC"@
            &&& n == 0x1003 ==> name == "MP3"@
            &&& n == 0x1005 ==> name == "Opus"@
            &&& n == 0x1000 ==> name == "Vorbis"@
            &&& n == 0x11a ==> name == "PCM 8-bit"@
            &&& n == 0x108 || n == 0x10a ==> name == "PCM 16-bit"@
            &&& n == 0x104 || n == 0x106 ==> name == "PCM 24-bit"@
            &&& n == 0x100 || n == 0x102 ==> name == "PCM 32-bit"@
            &&& n == 0x11c || n == 0x11e ==> name == "PCM 32-bit Float"@
            &&& n == 0x120 || n == 0x122 ==> name == "PCM 64-bit Float"@
            &&& n == 0x124 ==> name == "PCM A-law"@
            &&& n == 0x125 ==> name == "PCM u-law"@
            &&& n == 0x2003 ==> name == "ALAC"@
            &&& !seq![
                0x1004u32,
                0x2000,
                0x1003,
                0x1005,
                0x1000,
                0x11a,
                0x108,
                0x10a,
                0x104,
                0x106,
                0x100,
                0x102,
                0x11c,
                0x11e,
                0x120,
                0x122,
                0x124,
                0x125,
                0x2003,
            ].contains(n) ==> name == "Audio"@
        }),
{
    let known = seq![
        0x1004u32,
        0x2000,
        0x1003,
        0x1005,
        0x1000,
        0x11a,
        0x108,
        0x10a,
        0x104,
        0x106,
        0x100,
        0x102,
        0x11c,
        0x11e,
        0x120,
        0x122,
        0x124,
        0x125,
        0x2003,
    ];
    assert(known[0] == 0x1004 && known[1] == 0x2000 && known[2] == 0x1003 && known[3] == 0x1005
        && known[4] == 0x1000 && known[5] == 0x11a && known[6] == 0x108 && known[7] == 0x10a
        && known[8] == 0x104 && known[9] == 0x106 && known[10] == 0x100 && known[11] == 0x102
        && known[12] == 0x11c && known[13] == 0x11e && known[14] == 0x120 && known[15] == 0x122
        && known[16] == 0x124 && known[17] == 0x125 && known[18] == 0x2003);
}

/// A track holds audio unless its codec is the null codec, which is the one with the number zero.
pub proof fn law_tracks_with_audio(codec: CodecType, track: Track)
    requires
        track.codec == codec_of(codec),
    ensures
        holds_audio(track) <==> codec_number(codec) != 0,
{
}

/// The decoder is what its fields hold.
pub proof fn law_decoder_says(d: DecoderCore)
    ensures
        d@.track_id == d.track_id,
        d@.channels == d.channels,
        d@.sample_rate == d.sample_rate,
        d@.bits_per_sample == d.bits_per_sample,
        d@.sample_idx == d.sample_idx,
        d@.stats == d.stats,
        d@.codec_name == d.codec_name@,
        d@.last_error == opt_text(d.last_error),
{
}

/// A packet of the track is handed to the codec, one of any other track is passed over. Every error
/// ends the decoding: the end of the input is the clean end, and leaves no error behind; any other
/// error is remembered by its text. Nothing else changes.
pub proof fn law_what_packets_lead_to(d: DecoderView, id: u32, fault: MediaFault, text: String)
    ensures
        ({
            let (next, step) = after_packet(d, PacketEvent::Packet(id));
            &&& next == d
            &&& id == d.track_id ==> step == DecodeStep::Decode
            &&& id != d.track_id ==> step == DecodeStep::NextPacket
        }),
        ({
            let (next, step) = after_packet(d, PacketEvent::Failed(fault, text));
            let clean = fault matches MediaFault::Io(IoFault::UnexpectedEof);
            &&& step == DecodeStep::End
            &&& clean ==> next == d
            &&& !clean ==> next.last_error == Some(text@)
            &&& next == (DecoderView { last_error: next.last_error, ..d })
        }),
{
}

/// What the codec gave is played from its first sample on, in the rate and the channels that it
/// gave, and counted. A damaged packet is counted and passed over; any other error ends the
/// decoding and is remembered by its text. Nothing else changes.
pub proof fn law_what_decoding_leads_to(
    d: DecoderView,
    sample_rate: u32,
    channels: u16,
    fault: MediaFault,
    text: String,
)
    ensures
        ({
            let (next, step) = after_decode(d, DecodeEvent::Decoded { sample_rate, channels });
            &&& step == DecodeStep::Play
            &&& next.sample_rate == sample_rate
            &&& next.channels == channels
            &&& next.sample_idx == 0
            &&& d.stats.frames_played < u64::MAX ==> next.stats.frames_played
                == d.stats.frames_played + 1
            &&& next.stats.decode_errors == d.stats.decode_errors
            &&& next == (DecoderView {
                sample_rate: next.sample_rate,
                channels: next.channels,
                sample_idx: next.sample_idx,
                stats: next.stats,
                ..d
            })
        }),
        ({
            let (next, step) = after_decode(d, DecodeEvent::Failed(fault, text));
            &&& fault is Decode ==> step == DecodeStep::NextPacket && next.last_error
                == d.last_error
            &&& fault is Decode && d.stats.decode_errors < u64::MAX ==> next.stats.decode_errors
                == d.stats.decode_errors + 1
            &&& !(fault is Decode) ==> step == DecodeStep::End && next.last_error == Some(text@)
                && next.stats == d.stats
            &&& next.stats.frames_played == d.stats.frames_played
            &&& next == (DecoderView { last_error: next.last_error, stats: next.stats, ..d })
        }),
{
}

/// The decoded samples are played one after the other, each once, until there are no more.
pub proof fn law_samples_are_played_in_order(d: DecoderView, available: usize)
    ensures
        ({
            let (next, sample) = after_sample(d, available);
            &&& d.sample_idx < available ==> sample == Some(d.sample_idx) && next.sample_idx
                == d.sample_idx + 1
            &&& d.sample_idx >= available ==> sample is None && next == d
            &&& next == (DecoderView { sample_idx: next.sample_idx, ..d })
        }),
{
}

} // verus!
