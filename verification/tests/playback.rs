use std::cell::RefCell;
use std::collections::VecDeque;
use std::io::{Cursor, Read};
use std::rc::Rc;
use std::sync::atomic::{AtomicU64, Ordering};
use std::sync::{Arc, Mutex};
use std::time::{Duration, Instant};

use crossbeam_channel::Receiver;
use radiotrope::audio::analyzer::SampleRouter;
use radiotrope::audio::decoder::{
    select_track, DecodeEvent, DecodeStep, DecoderCore, IoFault, MediaFault, PacketEvent, Track,
};
use radiotrope::audio::engine::{EngineAction, EngineCore, ProbePoll, StreamReading};
use radiotrope::audio::health::HealthState;
use radiotrope::audio::stats::{EventBus, StreamEvent, StreamStats};
use radiotrope::audio::types::AudioEvent;
use radiotrope::error::RadioError;
use symphonia_core::codecs::{Decoder, DecoderOptions};
use symphonia_core::errors::Error;
use symphonia_core::formats::{FormatOptions, FormatReader};
use symphonia_core::io::{MediaSourceStream, ReadOnlySource};
use symphonia_core::meta::MetadataOptions;
use symphonia_core::probe::Hint;

// --- An engine in which time passes only when it is told to ---

/// What the library knows of an error of symphonia.
fn fault_of(error: &Error) -> MediaFault {
    match error {
        Error::IoError(e) => MediaFault::Io(match e.kind() {
            std::io::ErrorKind::UnexpectedEof => IoFault::UnexpectedEof,
            _ => IoFault::Other,
        }),
        Error::DecodeError(_) => MediaFault::Decode,
        Error::SeekError(_) => MediaFault::Seek,
        Error::Unsupported(_) => MediaFault::Unsupported,
        Error::LimitError(_) => MediaFault::Limit,
        Error::ResetRequired => MediaFault::ResetRequired,
    }
}

/// A stream that is being decoded.
struct Session {
    format: Box<dyn FormatReader>,
    decoder: Box<dyn Decoder>,
    core: DecoderCore,
    available: usize,
    router: SampleRouter,
    ended: bool,
}

impl Session {
    fn open(reader: Box<dyn Read + Send + Sync>) -> Result<Session, RadioError> {
        let source = ReadOnlySource::new(reader);
        let mss = MediaSourceStream::new(Box::new(source), Default::default());
        let format = symphonia::default::get_probe()
            .format(
                &Hint::new(),
                mss,
                &FormatOptions::default(),
                &MetadataOptions::default(),
            )
            .map_err(|e| RadioError::Decode(format!("Probe error: {}", e)))?
            .format;
        let tracks: Vec<Track> = format
            .tracks()
            .iter()
            .map(|t| Track {
                channels: t.codec_params.channels.map(|c| c.count() as u16),
                sample_rate: t.codec_params.sample_rate,
                bits_per_sample: t.codec_params.bits_per_sample,
                ..Track::new(t.id, t.codec_params.codec)
            })
            .collect();
        let index = select_track(&tracks)?;
        let params = format.tracks()[index].codec_params.clone();
        let decoder = symphonia::default::get_codecs()
            .make(&params, &DecoderOptions::default())
            .map_err(|e| RadioError::Decode(format!("Decoder creation error: {}", e)))?;
        let mut session = Session {
            format,
            decoder,
            core: DecoderCore::new(&tracks[index]),
            available: 0,
            router: SampleRouter::new(1),
            ended: false,
        };
        session.decode_next_packet();
        session.router = SampleRouter::new(session.core.channels);
        Ok(session)
    }

    fn decode_next_packet(&mut self) {
        loop {
            let (event, packet) = match self.format.next_packet() {
                Ok(packet) => (PacketEvent::Packet(packet.track_id()), Some(packet)),
                Err(e) => (PacketEvent::Failed(fault_of(&e), e.to_string()), None),
            };
            let mut step = self.core.on_packet(event);
            if let (DecodeStep::Decode, Some(packet)) = (step, packet) {
                let event = match self.decoder.decode(&packet) {
                    Ok(decoded) => {
                        let spec = *decoded.spec();
                        self.available = decoded.frames() * spec.channels.count();
                        DecodeEvent::Decoded {
                            sample_rate: spec.rate,
                            channels: spec.channels.count() as u16,
                        }
                    }
                    Err(e) => DecodeEvent::Failed(fault_of(&e), e.to_string()),
                };
                step = self.core.on_decoded(event);
            }
            match step {
                DecodeStep::Play => return,
                DecodeStep::End => {
                    self.ended = true;
                    return;
                }
                DecodeStep::NextPacket | DecodeStep::Decode => {}
            }
        }
    }

    /// Plays one sample. Returns the sample count that is published with it, if one is.
    fn play_sample(&mut self) -> Option<u64> {
        while !self.ended {
            if self.core.next_sample(self.available).is_some() {
                let route = self.router.on_sample();
                return route.process.then_some(self.router.sample_count);
            }
            self.decode_next_packet();
        }
        None
    }
}

/// The event bus as the engine shares it.
#[derive(Clone)]
struct Bus(Rc<RefCell<EventBus>>);

impl Bus {
    fn subscribe(&self) -> Receiver<StreamEvent> {
        self.0.borrow_mut().subscribe()
    }
}

struct Inner {
    core: EngineCore,
    bus: Bus,
    events: VecDeque<AudioEvent>,
    stats: Arc<Mutex<StreamStats>>,
    now_ms: u64,
    idle_ms: u64,
    request: Option<Box<dyn Read + Send + Sync>>,
    probed: Option<Result<Session, RadioError>>,
    ready: Option<Session>,
    sink: Option<Session>,
    paused: bool,
    last_decoder: (u64, u64),
    last_error: Option<String>,
    analysed: u64,
    pending_bytes: Option<Arc<AtomicU64>>,
    bytes: Option<Arc<AtomicU64>>,
    bitrate: Option<u32>,
}

impl Inner {
    fn now(&self) -> u128 {
        self.now_ms as u128 * 1_000_000
    }

    fn perform(&mut self, actions: Vec<EngineAction>) {
        for action in actions {
            match action {
                EngineAction::StopPending => self.probed = None,
                EngineAction::StopProducer | EngineAction::ApplyVolume => {}
                EngineAction::StopSink => self.sink = None,
                EngineAction::PauseSink => self.paused = true,
                EngineAction::PlaySink => self.paused = false,
                EngineAction::ResetAnalysis => self.analysed = 0,
                EngineAction::StartProbe => {
                    self.probed = self.request.take().map(Session::open);
                    let counts_bytes = self.pending_bytes.is_some();
                    let now = self.now();
                    let more = self.core.on_probe_started(Ok(()), self.bitrate, counts_bytes, now);
                    self.perform(more);
                }
                EngineAction::AdoptPending => {
                    self.bytes = self.pending_bytes.take();
                    self.last_error = None;
                }
                EngineAction::AppendSource => self.sink = self.ready.take(),
                EngineAction::PublishStats => {
                    *self.stats.lock().unwrap() = self.core.stats.clone();
                }
                EngineAction::Emit(event) => self.events.push_back(event),
                EngineAction::Broadcast(event) => self.bus.0.borrow_mut().emit(event),
            }
        }
    }

    fn sink_empty(&self) -> bool {
        self.sink.as_ref().map_or(true, |session| session.ended)
    }

    fn tick(&mut self) {
        let now = self.now();
        if let Some(probed) = self.probed.take() {
            let poll = match probed {
                Ok(session) => {
                    let info = session.core.codec_info();
                    self.ready = Some(session);
                    ProbePoll::Ready(info)
                }
                Err(e) => ProbePoll::Failed(e),
            };
            let actions = self.core.on_probe_polled(poll, now, Instant::now());
            self.perform(actions);
        }
        if let Some(session) = &self.sink {
            self.last_decoder = session.core.stats.snapshot();
            self.last_error = session.core.last_error.clone();
        }
        let actions = self.core.on_sink_checked(self.sink_empty(), self.last_error.clone());
        self.perform(actions);
        let reading = StreamReading {
            decoder: self.last_decoder,
            bytes_received: self.bytes.as_ref().map_or(0, |b| b.load(Ordering::Relaxed)),
            sample_count: Some(self.analysed),
            buffer: None,
        };
        let actions = self.core.on_stream_read(reading, now);
        self.perform(actions);
        let actions = self.core.on_buffer_checked(self.sink_empty(), None, 0, now);
        self.perform(actions);
        let actions = self.core.on_samples_counted(self.analysed, now);
        self.perform(actions);
    }

    /// Lets ten milliseconds pass.
    fn pass(&mut self) {
        self.now_ms += 10;
        self.idle_ms += 10;
        if !self.paused {
            if let Some(session) = &mut self.sink {
                let rate = session.core.sample_rate as u64 * session.core.channels as u64;
                for _ in 0..rate / 100 {
                    if let Some(count) = session.play_sample() {
                        self.analysed = count;
                    }
                }
            }
        }
        if self.idle_ms >= 500 {
            self.idle_ms = 0;
            self.tick();
        }
    }
}

struct Engine(RefCell<Inner>);

impl Engine {
    fn play(
        &self,
        reader: Box<dyn Read + Send + Sync>,
        format_hint: Option<String>,
        bitrate: Option<u32>,
    ) {
        self.play_with_stats(reader, format_hint, bitrate, None);
    }

    fn play_with_stats(
        &self,
        reader: Box<dyn Read + Send + Sync>,
        _format_hint: Option<String>,
        bitrate: Option<u32>,
        bytes_received: Option<Arc<AtomicU64>>,
    ) {
        self.command(|inner| {
            inner.request = Some(reader);
            inner.bitrate = bitrate;
            inner.pending_bytes = bytes_received;
            inner.core.on_play()
        });
    }

    fn command(&self, act: impl FnOnce(&mut Inner) -> Vec<EngineAction>) {
        let mut inner = self.0.borrow_mut();
        inner.idle_ms = 0;
        let actions = act(&mut inner);
        inner.perform(actions);
    }

    fn stop(&self) {
        self.command(|inner| inner.core.on_stop());
    }

    fn pause(&self) {
        self.command(|inner| inner.core.on_pause());
    }

    fn resume(&self) {
        self.command(|inner| inner.core.on_resume());
    }

    fn shutdown(self) {
        self.command(|inner| inner.core.on_shutdown());
        assert!(!self.0.borrow().core.running);
    }

    fn try_recv_event(&self) -> Option<AudioEvent> {
        self.0.borrow_mut().events.pop_front()
    }

    fn shared_stats(&self) -> Arc<Mutex<StreamStats>> {
        self.0.borrow().stats.clone()
    }

    fn event_bus(&self) -> Bus {
        self.0.borrow().bus.clone()
    }

    /// Lets so many milliseconds pass.
    fn advance(&self, ms: u64) {
        for _ in 0..ms / 10 {
            self.0.borrow_mut().pass();
        }
    }
}

fn try_engine() -> Option<Engine> {
    Some(Engine(RefCell::new(Inner {
        core: EngineCore::new(0),
        bus: Bus(Rc::new(RefCell::new(EventBus::new()))),
        events: VecDeque::new(),
        stats: Arc::new(Mutex::new(StreamStats::default())),
        now_ms: 0,
        idle_ms: 0,
        request: None,
        probed: None,
        ready: None,
        sink: None,
        paused: false,
        last_decoder: (0, 0),
        last_error: None,
        analysed: 0,
        pending_bytes: None,
        bytes: None,
        bitrate: None,
    })))
}

fn wait_for_event(engine: &Engine, timeout_ms: u64) -> Option<AudioEvent> {
    for _ in 0..timeout_ms / 10 {
        if let Some(event) = engine.try_recv_event() {
            return Some(event);
        }
        engine.advance(10);
    }
    engine.try_recv_event()
}

/// Build a minimal valid WAV file in memory
fn make_wav(sample_rate: u32, channels: u16, samples: &[i16]) -> Vec<u8> {
    let data_size = (samples.len() * 2) as u32;
    let byte_rate = sample_rate * channels as u32 * 2;
    let mut buf = Vec::new();
    buf.extend_from_slice(b"RIFF");
    buf.extend_from_slice(&(36 + data_size).to_le_bytes());
    buf.extend_from_slice(b"WAVEfmt ");
    buf.extend_from_slice(&16u32.to_le_bytes());
    buf.extend_from_slice(&1u16.to_le_bytes());
    buf.extend_from_slice(&channels.to_le_bytes());
    buf.extend_from_slice(&sample_rate.to_le_bytes());
    buf.extend_from_slice(&byte_rate.to_le_bytes());
    buf.extend_from_slice(&(channels * 2).to_le_bytes());
    buf.extend_from_slice(&16u16.to_le_bytes());
    buf.extend_from_slice(b"data");
    buf.extend_from_slice(&data_size.to_le_bytes());
    for sample in samples {
        buf.extend_from_slice(&sample.to_le_bytes());
    }
    buf
}

/// Generate 1 second of mono sine wave
fn make_one_second_wav() -> Vec<u8> {
    let samples: Vec<i16> = (0..44100)
        .map(|i| ((i as f32 * 0.1).sin() * 10000.0) as i16)
        .collect();
    make_wav(44100, 1, &samples)
}

/// Generate a short WAV (10ms)
fn make_short_wav() -> Vec<u8> {
    let samples: Vec<i16> = (0..441)
        .map(|i| ((i as f32 * 0.5).sin() * 5000.0) as i16)
        .collect();
    make_wav(44100, 1, &samples)
}

/// A reader that serves valid WAV data then returns a network error
struct FailAfterReader {
    inner: Cursor<Vec<u8>>,
    fail_after: usize,
    bytes_read: usize,
}

impl FailAfterReader {
    fn new(data: Vec<u8>, fail_after: usize) -> Self {
        FailAfterReader {
            inner: Cursor::new(data),
            fail_after,
            bytes_read: 0,
        }
    }
}

impl Read for FailAfterReader {
    fn read(&mut self, buf: &mut [u8]) -> std::io::Result<usize> {
        if self.bytes_read >= self.fail_after {
            return Err(std::io::Error::new(
                std::io::ErrorKind::ConnectionReset,
                "simulated network drop",
            ));
        }
        let limit = buf.len().min(self.fail_after - self.bytes_read);
        let n = self.inner.read(&mut buf[..limit])?;
        self.bytes_read += n;
        Ok(n)
    }
}

// --- Play / Stop ---

#[test]
fn play_and_stop() {
    let Some(engine) = try_engine() else { return };

    engine.play(Box::new(Cursor::new(make_one_second_wav())), None, None);

    match wait_for_event(&engine, 2000) {
        Some(AudioEvent::Playing(_)) => {}
        other => panic!("Expected Playing event, got {:?}", other),
    }

    engine.stop();

    match wait_for_event(&engine, 2000) {
        Some(AudioEvent::Stopped) => {}
        other => panic!("Expected Stopped event, got {:?}", other),
    }

    engine.shutdown();
}

#[test]
fn play_emits_codec_info() {
    let Some(engine) = try_engine() else { return };

    engine.play(Box::new(Cursor::new(make_one_second_wav())), None, None);

    match wait_for_event(&engine, 2000) {
        Some(AudioEvent::Playing(info)) => {
            assert_eq!(info.channels, 1);
            assert_eq!(info.sample_rate, 44100);
            assert!(!info.codec_name.is_empty());
        }
        other => panic!("Expected Playing with CodecInfo, got {:?}", other),
    }

    engine.shutdown();
}

#[test]
fn play_stereo_wav() {
    let Some(engine) = try_engine() else { return };

    let samples: Vec<i16> = (0..88200)
        .map(|i| ((i as f32 * 0.05).sin() * 8000.0) as i16)
        .collect();
    let wav = make_wav(44100, 2, &samples);

    engine.play(Box::new(Cursor::new(wav)), None, None);

    match wait_for_event(&engine, 2000) {
        Some(AudioEvent::Playing(info)) => {
            assert_eq!(info.channels, 2);
            assert_eq!(info.sample_rate, 44100);
        }
        other => panic!("Expected Playing event, got {:?}", other),
    }

    engine.shutdown();
}

#[test]
fn stop_when_not_playing_does_not_emit_event() {
    let Some(engine) = try_engine() else { return };

    engine.stop();
    // Give it time to process
    engine.advance(200);

    // Should not have received a Stopped event (already stopped)
    let evt = engine.try_recv_event();
    assert!(
        evt.is_none(),
        "Stop when already stopped should not emit event, got {:?}",
        evt
    );

    engine.shutdown();
}

#[test]
fn double_stop_only_emits_one_stopped_event() {
    let Some(engine) = try_engine() else { return };

    engine.play(Box::new(Cursor::new(make_one_second_wav())), None, None);

    // Wait for Playing
    match wait_for_event(&engine, 2000) {
        Some(AudioEvent::Playing(_)) => {}
        other => panic!("Expected Playing, got {:?}", other),
    }

    engine.stop();
    // Small delay then stop again
    engine.advance(100);
    engine.stop();

    // Wait for first Stopped event
    match wait_for_event(&engine, 2000) {
        Some(AudioEvent::Stopped) => {}
        other => panic!("Expected Stopped, got {:?}", other),
    }

    // Second stop should not produce another event
    engine.advance(200);
    let evt = engine.try_recv_event();
    assert!(
        evt.is_none(),
        "Second stop should not emit event, got {:?}",
        evt
    );

    engine.shutdown();
}

// --- Play replaces current playback ---

#[test]
fn play_replaces_current_playback() {
    let Some(engine) = try_engine() else { return };

    // Start playing first clip
    engine.play(Box::new(Cursor::new(make_one_second_wav())), None, None);
    match wait_for_event(&engine, 2000) {
        Some(AudioEvent::Playing(_)) => {}
        other => panic!("Expected first Playing, got {:?}", other),
    }

    // Play second clip without stopping first
    let samples: Vec<i16> = (0..48000)
        .map(|i| ((i as f32 * 0.2).sin() * 8000.0) as i16)
        .collect();
    let wav2 = make_wav(48000, 2, &samples);
    engine.play(Box::new(Cursor::new(wav2)), None, None);

    // Should get a new Playing event with updated info
    match wait_for_event(&engine, 2000) {
        Some(AudioEvent::Playing(info)) => {
            assert_eq!(info.channels, 2);
            assert_eq!(info.sample_rate, 48000);
        }
        other => panic!("Expected second Playing, got {:?}", other),
    }

    engine.shutdown();
}

// --- Error handling ---

#[test]
fn play_invalid_data_returns_error_event() {
    let Some(engine) = try_engine() else { return };

    engine.play(Box::new(Cursor::new(vec![0u8; 100])), None, None);

    match wait_for_event(&engine, 2000) {
        Some(AudioEvent::Error(msg)) => {
            assert!(!msg.is_empty(), "Error message should not be empty");
        }
        other => panic!("Expected Error event, got {:?}", other),
    }

    engine.shutdown();
}

#[test]
fn play_empty_data_returns_error_event() {
    let Some(engine) = try_engine() else { return };

    engine.play(Box::new(Cursor::new(Vec::<u8>::new())), None, None);

    match wait_for_event(&engine, 2000) {
        Some(AudioEvent::Error(msg)) => {
            assert!(!msg.is_empty());
        }
        other => panic!("Expected Error event for empty data, got {:?}", other),
    }

    engine.shutdown();
}

#[test]
fn error_does_not_break_engine() {
    let Some(engine) = try_engine() else { return };

    // Send invalid data
    engine.play(Box::new(Cursor::new(vec![0u8; 100])), None, None);
    match wait_for_event(&engine, 2000) {
        Some(AudioEvent::Error(_)) => {}
        other => panic!("Expected Error, got {:?}", other),
    }

    // Engine should still work - play valid data
    engine.play(Box::new(Cursor::new(make_one_second_wav())), None, None);
    match wait_for_event(&engine, 2000) {
        Some(AudioEvent::Playing(info)) => {
            assert_eq!(info.channels, 1);
        }
        other => panic!("Expected Playing after error recovery, got {:?}", other),
    }

    engine.shutdown();
}

#[test]
fn multiple_errors_in_sequence() {
    let Some(engine) = try_engine() else { return };

    for _ in 0..3 {
        engine.play(Box::new(Cursor::new(vec![0xDE, 0xAD])), None, None);
        match wait_for_event(&engine, 2000) {
            Some(AudioEvent::Error(_)) => {}
            other => panic!("Expected Error, got {:?}", other),
        }
    }

    // Engine still works
    engine.play(Box::new(Cursor::new(make_one_second_wav())), None, None);
    match wait_for_event(&engine, 2000) {
        Some(AudioEvent::Playing(_)) => {}
        other => panic!("Expected Playing after multiple errors, got {:?}", other),
    }

    engine.shutdown();
}

// --- Stream-ended detection ---

#[test]
fn short_clip_auto_stops() {
    let Some(engine) = try_engine() else { return };

    // Play a very short clip (10ms) - should end quickly
    engine.play(Box::new(Cursor::new(make_short_wav())), None, None);

    match wait_for_event(&engine, 2000) {
        Some(AudioEvent::Playing(_)) => {}
        other => panic!("Expected Playing, got {:?}", other),
    }

    // Wait for auto-stop (stream ends naturally, detected via recv_timeout)
    match wait_for_event(&engine, 3000) {
        Some(AudioEvent::Stopped) => {}
        other => panic!("Expected auto-Stopped for short clip, got {:?}", other),
    }

    engine.shutdown();
}

// --- Format hints ---

#[test]
fn play_with_format_hint() {
    let Some(engine) = try_engine() else { return };

    engine.play(
        Box::new(Cursor::new(make_one_second_wav())),
        Some("wav".to_string()),
        None,
    );

    match wait_for_event(&engine, 2000) {
        Some(AudioEvent::Playing(_)) => {}
        other => panic!("Expected Playing with hint, got {:?}", other),
    }

    engine.shutdown();
}

// --- Rapid command sequences ---

#[test]
fn rapid_play_stop_sequence() {
    let Some(engine) = try_engine() else { return };

    for _ in 0..5 {
        engine.play(Box::new(Cursor::new(make_one_second_wav())), None, None);
        engine.stop();
    }

    // Give engine time to process all commands
    engine.advance(500);

    // Engine should still be responsive
    engine.play(Box::new(Cursor::new(make_one_second_wav())), None, None);
    match wait_for_event(&engine, 2000) {
        Some(_) => {
            // Any event is acceptable after rapid commands
        }
        None => panic!("Engine became unresponsive after rapid commands"),
    }

    engine.shutdown();
}

#[test]
fn play_then_immediate_play_different() {
    let Some(engine) = try_engine() else { return };

    // Play first, immediately play second without explicit stop
    engine.play(Box::new(Cursor::new(make_one_second_wav())), None, None);
    engine.play(
        Box::new(Cursor::new(make_wav(48000, 2, &vec![0i16; 48000]))),
        None,
        None,
    );

    // Drain events - we should get at least one Playing event
    let mut got_playing = false;
    for _ in 0..40 {
        match engine.try_recv_event() {
            Some(AudioEvent::Playing(_)) => {
                got_playing = true;
                break;
            }
            Some(_) => continue,
            None => engine.advance(50),
        }
    }
    assert!(got_playing, "Should get at least one Playing event");

    engine.shutdown();
}

// --- Pause / Resume ---

#[test]
fn pause_and_resume() {
    let Some(engine) = try_engine() else { return };

    engine.play(Box::new(Cursor::new(make_one_second_wav())), None, None);
    match wait_for_event(&engine, 2000) {
        Some(AudioEvent::Playing(_)) => {}
        other => panic!("Expected Playing, got {:?}", other),
    }

    engine.pause();
    match wait_for_event(&engine, 2000) {
        Some(AudioEvent::Paused) => {}
        other => panic!("Expected Paused, got {:?}", other),
    }

    engine.resume();
    match wait_for_event(&engine, 2000) {
        Some(AudioEvent::Resumed) => {}
        other => panic!("Expected Resumed, got {:?}", other),
    }

    engine.shutdown();
}

#[test]
fn pause_when_stopped_is_noop() {
    let Some(engine) = try_engine() else { return };

    engine.pause();
    engine.advance(200);

    assert!(
        engine.try_recv_event().is_none(),
        "Pause when stopped should not emit event"
    );

    engine.shutdown();
}

#[test]
fn resume_when_stopped_is_noop() {
    let Some(engine) = try_engine() else { return };

    engine.resume();
    engine.advance(200);

    assert!(
        engine.try_recv_event().is_none(),
        "Resume when stopped should not emit event"
    );

    engine.shutdown();
}

#[test]
fn resume_when_playing_is_noop() {
    let Some(engine) = try_engine() else { return };

    engine.play(Box::new(Cursor::new(make_one_second_wav())), None, None);
    match wait_for_event(&engine, 2000) {
        Some(AudioEvent::Playing(_)) => {}
        other => panic!("Expected Playing, got {:?}", other),
    }

    engine.resume();
    engine.advance(200);

    // Should not get a Resumed event since we were already playing
    assert!(
        engine.try_recv_event().is_none(),
        "Resume when already playing should not emit event"
    );

    engine.shutdown();
}

#[test]
fn double_pause_only_emits_once() {
    let Some(engine) = try_engine() else { return };

    engine.play(Box::new(Cursor::new(make_one_second_wav())), None, None);
    match wait_for_event(&engine, 2000) {
        Some(AudioEvent::Playing(_)) => {}
        other => panic!("Expected Playing, got {:?}", other),
    }

    engine.pause();
    match wait_for_event(&engine, 2000) {
        Some(AudioEvent::Paused) => {}
        other => panic!("Expected Paused, got {:?}", other),
    }

    // Second pause should be a no-op
    engine.pause();
    engine.advance(200);

    assert!(
        engine.try_recv_event().is_none(),
        "Second pause should not emit event"
    );

    engine.shutdown();
}

#[test]
fn stop_while_paused_emits_stopped() {
    let Some(engine) = try_engine() else { return };

    engine.play(Box::new(Cursor::new(make_one_second_wav())), None, None);
    match wait_for_event(&engine, 2000) {
        Some(AudioEvent::Playing(_)) => {}
        other => panic!("Expected Playing, got {:?}", other),
    }

    engine.pause();
    match wait_for_event(&engine, 2000) {
        Some(AudioEvent::Paused) => {}
        other => panic!("Expected Paused, got {:?}", other),
    }

    engine.stop();
    match wait_for_event(&engine, 2000) {
        Some(AudioEvent::Stopped) => {}
        other => panic!("Expected Stopped after pause+stop, got {:?}", other),
    }

    engine.shutdown();
}

#[test]
fn play_while_paused_starts_new_playback() {
    let Some(engine) = try_engine() else { return };

    engine.play(Box::new(Cursor::new(make_one_second_wav())), None, None);
    match wait_for_event(&engine, 2000) {
        Some(AudioEvent::Playing(_)) => {}
        other => panic!("Expected Playing, got {:?}", other),
    }

    engine.pause();
    match wait_for_event(&engine, 2000) {
        Some(AudioEvent::Paused) => {}
        other => panic!("Expected Paused, got {:?}", other),
    }

    // Play new clip while paused
    let wav2 = make_wav(48000, 2, &vec![0i16; 48000]);
    engine.play(Box::new(Cursor::new(wav2)), None, None);
    match wait_for_event(&engine, 2000) {
        Some(AudioEvent::Playing(info)) => {
            assert_eq!(info.sample_rate, 48000);
            assert_eq!(info.channels, 2);
        }
        other => panic!("Expected new Playing, got {:?}", other),
    }

    engine.shutdown();
}

#[test]
fn engine_recovers_after_decode_error_health_monitor_cleared() {
    let Some(engine) = try_engine() else { return };

    // Send invalid data — should fail with error, health monitor cleared
    engine.play(Box::new(Cursor::new(vec![0u8; 100])), None, None);
    match wait_for_event(&engine, 2000) {
        Some(AudioEvent::Error(_)) => {}
        other => panic!("Expected Error, got {:?}", other),
    }

    // Play valid data — health monitor should be freshly created
    engine.play(Box::new(Cursor::new(make_one_second_wav())), None, None);
    match wait_for_event(&engine, 2000) {
        Some(AudioEvent::Playing(info)) => {
            assert_eq!(info.channels, 1);
        }
        other => panic!("Expected Playing after error, got {:?}", other),
    }

    // Let it play a bit — should not have any health failures
    engine.advance(500);

    // Check no stall/timeout events were emitted
    let mut got_health_event = false;
    while let Some(evt) = engine.try_recv_event() {
        match evt {
            AudioEvent::StreamStalled
            | AudioEvent::NoAudioTimeout
            | AudioEvent::ProbeTimeout => {
                got_health_event = true;
            }
            _ => {}
        }
    }
    assert!(
        !got_health_event,
        "Should not get health events during normal playback"
    );

    engine.shutdown();
}

#[test]
fn normal_playback_emits_no_health_events() {
    let Some(engine) = try_engine() else { return };

    engine.play(Box::new(Cursor::new(make_one_second_wav())), None, None);
    match wait_for_event(&engine, 2000) {
        Some(AudioEvent::Playing(_)) => {}
        other => panic!("Expected Playing, got {:?}", other),
    }

    // Let it play for a while
    engine.advance(800);

    // Drain all events
    let mut events = Vec::new();
    while let Some(evt) = engine.try_recv_event() {
        events.push(evt);
    }

    // None of the events should be health-related
    for evt in &events {
        assert!(
            !matches!(
                evt,
                AudioEvent::StreamStalled
                    | AudioEvent::NoAudioTimeout
                    | AudioEvent::ProbeTimeout
            ),
            "Got unexpected health event during normal playback: {:?}",
            evt
        );
    }

    engine.shutdown();
}

#[test]
fn stop_after_play_clears_health_state() {
    let Some(engine) = try_engine() else { return };

    // Play and stop quickly
    engine.play(Box::new(Cursor::new(make_one_second_wav())), None, None);
    match wait_for_event(&engine, 2000) {
        Some(AudioEvent::Playing(_)) => {}
        _ => {
            engine.shutdown();
            return;
        }
    }

    engine.stop();
    match wait_for_event(&engine, 2000) {
        Some(AudioEvent::Stopped) => {}
        _ => {}
    }

    // Wait longer than the health timeout to verify monitor was cleared
    // (If it wasn't cleared, we'd potentially get false health events)
    engine.advance(600);

    // Should have no health events
    let mut got_health_event = false;
    while let Some(evt) = engine.try_recv_event() {
        match evt {
            AudioEvent::StreamStalled
            | AudioEvent::NoAudioTimeout
            | AudioEvent::ProbeTimeout => {
                got_health_event = true;
            }
            _ => {}
        }
    }
    assert!(!got_health_event, "Should not get health events after stop");

    engine.shutdown();
}

#[test]
fn play_after_stop_creates_fresh_health_monitor() {
    let Some(engine) = try_engine() else { return };

    // First playback
    engine.play(Box::new(Cursor::new(make_one_second_wav())), None, None);
    match wait_for_event(&engine, 2000) {
        Some(AudioEvent::Playing(_)) => {}
        _ => {
            engine.shutdown();
            return;
        }
    }

    engine.stop();
    match wait_for_event(&engine, 2000) {
        Some(AudioEvent::Stopped) => {}
        _ => {}
    }

    // Second playback — should create a fresh health monitor
    engine.play(Box::new(Cursor::new(make_one_second_wav())), None, None);
    match wait_for_event(&engine, 2000) {
        Some(AudioEvent::Playing(_)) => {}
        other => panic!("Expected Playing on second play, got {:?}", other),
    }

    // Should play normally with fresh health monitor
    engine.advance(300);
    let mut got_health_event = false;
    while let Some(evt) = engine.try_recv_event() {
        if matches!(
            evt,
            AudioEvent::StreamStalled | AudioEvent::NoAudioTimeout | AudioEvent::ProbeTimeout
        ) {
            got_health_event = true;
        }
    }
    assert!(
        !got_health_event,
        "Fresh health monitor should not trigger events for valid playback"
    );

    engine.shutdown();
}

#[test]
fn stream_io_error_emits_error_then_stopped() {
    let Some(engine) = try_engine() else { return };

    // Create a 2-second WAV so there's enough data for probe + some playback
    let samples: Vec<i16> = (0..88200)
        .map(|i| ((i as f32 * 0.1).sin() * 10000.0) as i16)
        .collect();
    let wav = make_wav(44100, 1, &samples);

    // Fail after 10000 bytes — enough for probe but fails during decode
    let reader = FailAfterReader::new(wav, 10000);
    engine.play(Box::new(reader), None, None);

    // Should get Playing first
    match wait_for_event(&engine, 2000) {
        Some(AudioEvent::Playing(_)) => {}
        other => panic!("Expected Playing, got {:?}", other),
    }

    // Then should get Error (from the IO failure) followed by Stopped
    let mut got_error = false;
    let mut got_stopped = false;
    let mut error_msg = String::new();

    let deadline = std::time::Instant::now() + Duration::from_secs(5);
    while std::time::Instant::now() < deadline {
        match engine.try_recv_event() {
            Some(AudioEvent::Error(msg)) => {
                got_error = true;
                error_msg = msg;
            }
            Some(AudioEvent::Stopped) => {
                got_stopped = true;
                break;
            }
            Some(_) => {}
            None => engine.advance(50),
        }
    }

    assert!(got_error, "Should emit Error event for IO failure");
    assert!(
        error_msg.contains("Stream error"),
        "Error message should indicate stream error, got: {}",
        error_msg
    );
    assert!(got_stopped, "Should emit Stopped after Error");

    engine.shutdown();
}

#[test]
fn clean_stream_end_emits_only_stopped() {
    let Some(engine) = try_engine() else { return };

    // Play a short clip that ends naturally
    engine.play(Box::new(Cursor::new(make_short_wav())), None, None);

    match wait_for_event(&engine, 2000) {
        Some(AudioEvent::Playing(_)) => {}
        other => panic!("Expected Playing, got {:?}", other),
    }

    // Wait for natural end — should get Stopped but NOT Error
    let mut got_error = false;
    let mut got_stopped = false;

    let deadline = std::time::Instant::now() + Duration::from_secs(5);
    while std::time::Instant::now() < deadline {
        match engine.try_recv_event() {
            Some(AudioEvent::Error(msg)) => {
                got_error = true;
                println!("Unexpected error: {}", msg);
            }
            Some(AudioEvent::Stopped) => {
                got_stopped = true;
                break;
            }
            Some(_) => {}
            None => engine.advance(50),
        }
    }

    assert!(got_stopped, "Should emit Stopped for natural end");
    assert!(!got_error, "Should NOT emit Error for clean stream end");

    engine.shutdown();
}

#[test]
fn engine_recovers_after_stream_io_error() {
    let Some(engine) = try_engine() else { return };

    // Play a stream that will fail mid-playback
    let samples: Vec<i16> = (0..88200)
        .map(|i| ((i as f32 * 0.1).sin() * 10000.0) as i16)
        .collect();
    let wav = make_wav(44100, 1, &samples);
    let reader = FailAfterReader::new(wav, 10000);
    engine.play(Box::new(reader), None, None);

    // Wait for Playing
    match wait_for_event(&engine, 2000) {
        Some(AudioEvent::Playing(_)) => {}
        other => panic!("Expected Playing, got {:?}", other),
    }

    // Wait for Error + Stopped from the IO failure
    let deadline = std::time::Instant::now() + Duration::from_secs(5);
    while std::time::Instant::now() < deadline {
        match engine.try_recv_event() {
            Some(AudioEvent::Stopped) => break,
            Some(_) => {}
            None => engine.advance(50),
        }
    }

    // Engine should still work — play a valid stream
    engine.play(Box::new(Cursor::new(make_one_second_wav())), None, None);
    match wait_for_event(&engine, 2000) {
        Some(AudioEvent::Playing(info)) => {
            assert_eq!(info.channels, 1);
        }
        other => panic!("Expected Playing after recovery, got {:?}", other),
    }

    engine.shutdown();
}

#[test]
fn pause_does_not_trigger_health_events() {
    let Some(engine) = try_engine() else { return };

    engine.play(Box::new(Cursor::new(make_one_second_wav())), None, None);
    match wait_for_event(&engine, 2000) {
        Some(AudioEvent::Playing(_)) => {}
        other => panic!("Expected Playing, got {:?}", other),
    }

    engine.pause();
    match wait_for_event(&engine, 2000) {
        Some(AudioEvent::Paused) => {}
        other => panic!("Expected Paused, got {:?}", other),
    }

    // While paused, health monitor should not fire because state != Playing
    engine.advance(600);

    let mut got_health_event = false;
    while let Some(evt) = engine.try_recv_event() {
        if matches!(
            evt,
            AudioEvent::StreamStalled | AudioEvent::NoAudioTimeout | AudioEvent::ProbeTimeout
        ) {
            got_health_event = true;
        }
    }
    assert!(
        !got_health_event,
        "Paused state should not trigger health events"
    );

    engine.shutdown();
}

#[test]
fn shared_stats_default_before_play() {
    let Some(engine) = try_engine() else { return };
    let stats = engine.shared_stats();
    let s = stats.lock().unwrap();
    assert!(s.codec_info.is_none());
    assert!(s.play_started_at.is_none());
    assert_eq!(s.frames_played, 0);
    assert_eq!(s.decode_errors, 0);
    assert_eq!(s.bytes_received, 0);
    assert_eq!(s.sample_count, 0);
    drop(s);
    engine.shutdown();
}

#[test]
fn shared_stats_populated_on_play() {
    let Some(engine) = try_engine() else { return };
    let stats = engine.shared_stats();

    engine.play(Box::new(Cursor::new(make_one_second_wav())), None, None);
    match wait_for_event(&engine, 2000) {
        Some(AudioEvent::Playing(_)) => {}
        other => panic!("Expected Playing, got {:?}", other),
    }

    // Stats should have codec_info and play_started_at immediately
    let s = stats.lock().unwrap();
    assert!(
        s.codec_info.is_some(),
        "codec_info should be set after play"
    );
    let ci = s.codec_info.as_ref().unwrap();
    assert_eq!(ci.channels, 1);
    assert_eq!(ci.sample_rate, 44100);
    assert!(s.play_started_at.is_some(), "play_started_at should be set");
    drop(s);

    engine.shutdown();
}

#[test]
fn shared_stats_frames_played_increases() {
    let Some(engine) = try_engine() else { return };
    let stats = engine.shared_stats();

    engine.play(Box::new(Cursor::new(make_one_second_wav())), None, None);
    match wait_for_event(&engine, 2000) {
        Some(AudioEvent::Playing(_)) => {}
        other => panic!("Expected Playing, got {:?}", other),
    }

    // Wait for at least one 500ms tick to copy stats
    engine.advance(700);

    let s = stats.lock().unwrap();
    assert!(
        s.frames_played > 0,
        "frames_played should increase during playback, got {}",
        s.frames_played
    );
    drop(s);

    engine.shutdown();
}

#[test]
fn shared_stats_sample_count_increases() {
    let Some(engine) = try_engine() else { return };
    let stats = engine.shared_stats();

    engine.play(Box::new(Cursor::new(make_one_second_wav())), None, None);
    match wait_for_event(&engine, 2000) {
        Some(AudioEvent::Playing(_)) => {}
        other => panic!("Expected Playing, got {:?}", other),
    }

    engine.advance(700);

    let s = stats.lock().unwrap();
    assert!(
        s.sample_count > 0,
        "sample_count should increase during playback, got {}",
        s.sample_count
    );
    drop(s);

    engine.shutdown();
}

#[test]
fn shared_stats_health_state_becomes_healthy() {
    let Some(engine) = try_engine() else { return };
    let stats = engine.shared_stats();

    engine.play(Box::new(Cursor::new(make_one_second_wav())), None, None);
    match wait_for_event(&engine, 2000) {
        Some(AudioEvent::Playing(_)) => {}
        other => panic!("Expected Playing, got {:?}", other),
    }

    // After some playback the health should transition to Healthy
    engine.advance(700);

    let s = stats.lock().unwrap();
    assert!(
        matches!(
            s.health_state,
            HealthState::WaitingForAudio | HealthState::Healthy
        ),
        "health_state should be WaitingForAudio or Healthy during playback, got {:?}",
        s.health_state
    );
    drop(s);

    engine.shutdown();
}

#[test]
fn shared_stats_reset_on_stop() {
    let Some(engine) = try_engine() else { return };
    let stats = engine.shared_stats();

    engine.play(Box::new(Cursor::new(make_one_second_wav())), None, None);
    match wait_for_event(&engine, 2000) {
        Some(AudioEvent::Playing(_)) => {}
        other => panic!("Expected Playing, got {:?}", other),
    }

    engine.advance(300);

    engine.stop();
    match wait_for_event(&engine, 2000) {
        Some(AudioEvent::Stopped) => {}
        _ => {}
    }

    let s = stats.lock().unwrap();
    assert!(
        s.codec_info.is_none(),
        "codec_info should be None after stop"
    );
    assert!(
        s.play_started_at.is_none(),
        "play_started_at should be None after stop"
    );
    assert_eq!(s.frames_played, 0, "frames_played should reset after stop");
    assert_eq!(s.sample_count, 0, "sample_count should reset after stop");
    drop(s);

    engine.shutdown();
}

#[test]
fn shared_stats_reset_on_auto_stop() {
    let Some(engine) = try_engine() else { return };
    let stats = engine.shared_stats();

    // Short clip that ends naturally
    engine.play(Box::new(Cursor::new(make_short_wav())), None, None);
    match wait_for_event(&engine, 2000) {
        Some(AudioEvent::Playing(_)) => {}
        other => panic!("Expected Playing, got {:?}", other),
    }

    // Wait for natural end
    match wait_for_event(&engine, 3000) {
        Some(AudioEvent::Stopped) => {}
        other => panic!("Expected auto-Stopped, got {:?}", other),
    }

    let s = stats.lock().unwrap();
    assert!(
        s.codec_info.is_none(),
        "codec_info should be None after auto-stop"
    );
    assert!(
        s.play_started_at.is_none(),
        "play_started_at should be None after auto-stop"
    );
    assert_eq!(s.frames_played, 0);
    drop(s);

    engine.shutdown();
}

#[test]
fn shared_stats_reset_on_decode_error() {
    let Some(engine) = try_engine() else { return };
    let stats = engine.shared_stats();

    // Invalid data — decode error
    engine.play(Box::new(Cursor::new(vec![0u8; 100])), None, None);
    match wait_for_event(&engine, 2000) {
        Some(AudioEvent::Error(_)) => {}
        other => panic!("Expected Error, got {:?}", other),
    }

    let s = stats.lock().unwrap();
    assert!(
        s.codec_info.is_none(),
        "codec_info should be None after decode error"
    );
    assert!(
        s.play_started_at.is_none(),
        "play_started_at should be None after decode error"
    );
    assert_eq!(s.frames_played, 0);
    drop(s);

    engine.shutdown();
}

#[test]
fn shared_stats_reset_on_new_play() {
    let Some(engine) = try_engine() else { return };
    let stats = engine.shared_stats();

    // First play
    engine.play(Box::new(Cursor::new(make_one_second_wav())), None, None);
    match wait_for_event(&engine, 2000) {
        Some(AudioEvent::Playing(_)) => {}
        other => panic!("Expected Playing, got {:?}", other),
    }
    engine.advance(700);

    // Snapshot old stats
    let old_frames = stats.lock().unwrap().frames_played;
    assert!(old_frames > 0, "Should have frames from first play");

    // Second play replaces — stats should reset
    let wav2 = make_wav(48000, 2, &vec![0i16; 96000]);
    engine.play(Box::new(Cursor::new(wav2)), None, None);
    match wait_for_event(&engine, 2000) {
        Some(AudioEvent::Playing(info)) => {
            assert_eq!(info.sample_rate, 48000);
        }
        other => panic!("Expected second Playing, got {:?}", other),
    }

    // Stats should reflect the new stream
    let s = stats.lock().unwrap();
    let ci = s
        .codec_info
        .as_ref()
        .expect("codec_info should be set for new stream");
    assert_eq!(ci.sample_rate, 48000);
    assert_eq!(ci.channels, 2);
    // frames_played was reset to 0 then may have started incrementing again,
    // but should be much less than old_frames
    drop(s);

    engine.shutdown();
}

#[test]
fn shared_stats_with_bitrate() {
    let Some(engine) = try_engine() else { return };
    let stats = engine.shared_stats();

    engine.play(
        Box::new(Cursor::new(make_one_second_wav())),
        None,
        Some(128),
    );
    match wait_for_event(&engine, 2000) {
        Some(AudioEvent::Playing(info)) => {
            assert_eq!(info.bitrate, Some(128));
        }
        other => panic!("Expected Playing, got {:?}", other),
    }

    let s = stats.lock().unwrap();
    let ci = s.codec_info.as_ref().unwrap();
    assert_eq!(
        ci.bitrate,
        Some(128),
        "bitrate should be set in shared stats"
    );
    drop(s);

    engine.shutdown();
}

#[test]
fn play_with_stats_bytes_received_wired() {
    let Some(engine) = try_engine() else { return };
    let stats = engine.shared_stats();

    // Create a bytes_received counter and pre-set it
    let bytes_counter = Arc::new(AtomicU64::new(42000));

    // Use a 3-second WAV so playback doesn't end before our assertions
    let samples: Vec<i16> = (0..132300)
        .map(|i| ((i as f32 * 0.1).sin() * 10000.0) as i16)
        .collect();
    let wav = make_wav(44100, 1, &samples);

    engine.play_with_stats(
        Box::new(Cursor::new(wav)),
        None,
        None,
        Some(bytes_counter.clone()),
    );
    match wait_for_event(&engine, 2000) {
        Some(AudioEvent::Playing(_)) => {}
        other => panic!("Expected Playing, got {:?}", other),
    }

    // Wait for a tick to copy the counter
    engine.advance(700);

    let s = stats.lock().unwrap();
    assert_eq!(
        s.bytes_received, 42000,
        "bytes_received should reflect the atomic counter value"
    );
    drop(s);

    // Increment the counter and wait for next tick
    bytes_counter.store(99000, Ordering::Relaxed);
    engine.advance(600);

    let s = stats.lock().unwrap();
    assert_eq!(
        s.bytes_received, 99000,
        "bytes_received should update on subsequent ticks"
    );
    drop(s);

    engine.shutdown();
}

#[test]
fn play_with_stats_no_bytes_received() {
    let Some(engine) = try_engine() else { return };
    let stats = engine.shared_stats();

    // play_with_stats with None bytes_received
    engine.play_with_stats(
        Box::new(Cursor::new(make_one_second_wav())),
        None,
        None,
        None,
    );
    match wait_for_event(&engine, 2000) {
        Some(AudioEvent::Playing(_)) => {}
        other => panic!("Expected Playing, got {:?}", other),
    }

    engine.advance(700);

    let s = stats.lock().unwrap();
    assert_eq!(
        s.bytes_received, 0,
        "bytes_received should stay 0 with no counter"
    );
    drop(s);

    engine.shutdown();
}

#[test]
fn event_bus_emits_playback_started_on_play() {
    let Some(engine) = try_engine() else { return };
    let bus = engine.event_bus();
    let rx = bus.subscribe();

    engine.play(Box::new(Cursor::new(make_one_second_wav())), None, None);
    match wait_for_event(&engine, 2000) {
        Some(AudioEvent::Playing(_)) => {}
        other => panic!("Expected Playing, got {:?}", other),
    }

    // EventBus should have emitted PlaybackStarted
    let evt = rx.recv_timeout(Duration::from_secs(1));
    match evt {
        Ok(StreamEvent::PlaybackStarted { codec_info, .. }) => {
            assert_eq!(codec_info.channels, 1);
            assert_eq!(codec_info.sample_rate, 44100);
        }
        other => panic!("Expected PlaybackStarted from event bus, got {:?}", other),
    }

    engine.shutdown();
}

#[test]
fn event_bus_emits_playback_stopped_on_stop() {
    let Some(engine) = try_engine() else { return };
    let bus = engine.event_bus();
    let rx = bus.subscribe();

    engine.play(Box::new(Cursor::new(make_one_second_wav())), None, None);
    match wait_for_event(&engine, 2000) {
        Some(AudioEvent::Playing(_)) => {}
        other => panic!("Expected Playing, got {:?}", other),
    }

    // Drain the PlaybackStarted
    let _ = rx.recv_timeout(Duration::from_secs(1));

    engine.stop();
    match wait_for_event(&engine, 2000) {
        Some(AudioEvent::Stopped) => {}
        _ => {}
    }

    let evt = rx.recv_timeout(Duration::from_secs(1));
    assert!(
        matches!(evt, Ok(StreamEvent::PlaybackStopped)),
        "Expected PlaybackStopped from event bus, got {:?}",
        evt
    );

    engine.shutdown();
}

#[test]
fn event_bus_emits_playback_stopped_on_auto_stop() {
    let Some(engine) = try_engine() else { return };
    let bus = engine.event_bus();
    let rx = bus.subscribe();

    engine.play(Box::new(Cursor::new(make_short_wav())), None, None);
    match wait_for_event(&engine, 2000) {
        Some(AudioEvent::Playing(_)) => {}
        other => panic!("Expected Playing, got {:?}", other),
    }

    // Drain PlaybackStarted
    let _ = rx.recv_timeout(Duration::from_secs(1));

    // Wait for auto-stop
    match wait_for_event(&engine, 3000) {
        Some(AudioEvent::Stopped) => {}
        other => panic!("Expected auto-Stopped, got {:?}", other),
    }

    let evt = rx.recv_timeout(Duration::from_secs(1));
    assert!(
        matches!(evt, Ok(StreamEvent::PlaybackStopped)),
        "Expected PlaybackStopped from event bus on auto-stop, got {:?}",
        evt
    );

    engine.shutdown();
}

#[test]
fn event_bus_emits_error_on_decode_failure() {
    let Some(engine) = try_engine() else { return };
    let bus = engine.event_bus();
    let rx = bus.subscribe();

    engine.play(Box::new(Cursor::new(vec![0u8; 100])), None, None);
    match wait_for_event(&engine, 2000) {
        Some(AudioEvent::Error(_)) => {}
        other => panic!("Expected Error, got {:?}", other),
    }

    let evt = rx.recv_timeout(Duration::from_secs(1));
    match evt {
        Ok(StreamEvent::Error(msg)) => {
            assert!(
                msg.contains("Decode error"),
                "Error should mention decode, got: {}",
                msg
            );
        }
        other => panic!("Expected Error from event bus, got {:?}", other),
    }

    engine.shutdown();
}

#[test]
fn event_bus_emits_error_on_stream_io_failure() {
    let Some(engine) = try_engine() else { return };
    let bus = engine.event_bus();
    let rx = bus.subscribe();

    let samples: Vec<i16> = (0..88200)
        .map(|i| ((i as f32 * 0.1).sin() * 10000.0) as i16)
        .collect();
    let wav = make_wav(44100, 1, &samples);
    let reader = FailAfterReader::new(wav, 10000);
    engine.play(Box::new(reader), None, None);

    match wait_for_event(&engine, 2000) {
        Some(AudioEvent::Playing(_)) => {}
        other => panic!("Expected Playing, got {:?}", other),
    }

    // Drain PlaybackStarted
    let _ = rx.recv_timeout(Duration::from_secs(1));

    // Wait for IO error + stopped
    let deadline = Instant::now() + Duration::from_secs(5);
    while Instant::now() < deadline {
        match engine.try_recv_event() {
            Some(AudioEvent::Stopped) => break,
            Some(_) => {}
            None => engine.advance(50),
        }
    }

    // EventBus should have Error then PlaybackStopped
    let mut got_bus_error = false;
    let mut got_bus_stopped = false;
    while let Ok(evt) = rx.try_recv() {
        match evt {
            StreamEvent::Error(msg) => {
                assert!(
                    msg.contains("Stream error"),
                    "Expected stream error, got: {}",
                    msg
                );
                got_bus_error = true;
            }
            StreamEvent::PlaybackStopped => {
                got_bus_stopped = true;
            }
            _ => {}
        }
    }
    assert!(
        got_bus_error,
        "EventBus should emit Error on stream IO failure"
    );
    assert!(
        got_bus_stopped,
        "EventBus should emit PlaybackStopped after IO failure"
    );

    engine.shutdown();
}

#[test]
fn event_bus_multiple_subscribers_all_receive() {
    let Some(engine) = try_engine() else { return };
    let bus = engine.event_bus();
    let rx1 = bus.subscribe();
    let rx2 = bus.subscribe();

    engine.play(Box::new(Cursor::new(make_one_second_wav())), None, None);
    match wait_for_event(&engine, 2000) {
        Some(AudioEvent::Playing(_)) => {}
        other => panic!("Expected Playing, got {:?}", other),
    }

    // Both subscribers should get PlaybackStarted
    let evt1 = rx1.recv_timeout(Duration::from_secs(1));
    let evt2 = rx2.recv_timeout(Duration::from_secs(1));
    assert!(
        matches!(evt1, Ok(StreamEvent::PlaybackStarted { .. })),
        "Subscriber 1 should get PlaybackStarted, got {:?}",
        evt1
    );
    assert!(
        matches!(evt2, Ok(StreamEvent::PlaybackStarted { .. })),
        "Subscriber 2 should get PlaybackStarted, got {:?}",
        evt2
    );

    engine.shutdown();
}

#[test]
fn event_bus_play_stop_play_sequence() {
    let Some(engine) = try_engine() else { return };
    let bus = engine.event_bus();
    let rx = bus.subscribe();

    // First play
    engine.play(Box::new(Cursor::new(make_one_second_wav())), None, None);
    match wait_for_event(&engine, 2000) {
        Some(AudioEvent::Playing(_)) => {}
        other => panic!("Expected Playing, got {:?}", other),
    }

    engine.stop();
    match wait_for_event(&engine, 2000) {
        Some(AudioEvent::Stopped) => {}
        _ => {}
    }

    // Second play
    engine.play(Box::new(Cursor::new(make_one_second_wav())), None, None);
    match wait_for_event(&engine, 2000) {
        Some(AudioEvent::Playing(_)) => {}
        other => panic!("Expected second Playing, got {:?}", other),
    }

    // Collect all bus events
    engine.advance(100);
    let mut bus_events = Vec::new();
    while let Ok(evt) = rx.try_recv() {
        bus_events.push(evt);
    }

    // Should have: PlaybackStarted, PlaybackStopped, PlaybackStarted
    let started_count = bus_events
        .iter()
        .filter(|e| matches!(e, StreamEvent::PlaybackStarted { .. }))
        .count();
    let stopped_count = bus_events
        .iter()
        .filter(|e| matches!(e, StreamEvent::PlaybackStopped))
        .count();

    assert_eq!(
        started_count, 2,
        "Should have 2 PlaybackStarted events, got {}. Events: {:?}",
        started_count, bus_events
    );
    assert_eq!(
        stopped_count, 1,
        "Should have 1 PlaybackStopped event, got {}. Events: {:?}",
        stopped_count, bus_events
    );

    engine.shutdown();
}

#[test]
fn shared_stats_not_updated_when_stopped() {
    let Some(engine) = try_engine() else { return };
    let stats = engine.shared_stats();

    // Don't play anything, just wait
    engine.advance(700);

    let s = stats.lock().unwrap();
    assert!(s.codec_info.is_none());
    assert_eq!(s.frames_played, 0);
    assert_eq!(s.sample_count, 0);
    assert_eq!(s.bytes_received, 0);
    drop(s);

    engine.shutdown();
}

#[test]
fn event_bus_no_events_when_stopped() {
    let Some(engine) = try_engine() else { return };
    let bus = engine.event_bus();
    let rx = bus.subscribe();

    // Don't play, just wait
    engine.advance(300);

    // No events should have been emitted
    assert!(
        rx.try_recv().is_err(),
        "EventBus should not emit events when stopped"
    );

    engine.shutdown();
}

#[test]
fn event_bus_stop_when_already_stopped_no_event() {
    let Some(engine) = try_engine() else { return };
    let bus = engine.event_bus();
    let rx = bus.subscribe();

    // Stop without play
    engine.stop();
    engine.advance(200);

    // Should not emit PlaybackStopped since we were never playing
    assert!(
        rx.try_recv().is_err(),
        "Should not emit PlaybackStopped when already stopped"
    );

    engine.shutdown();
}

#[test]
fn shared_stats_play_started_at_is_recent() {
    let Some(engine) = try_engine() else { return };
    let stats = engine.shared_stats();

    let before = Instant::now();
    engine.play(Box::new(Cursor::new(make_one_second_wav())), None, None);
    match wait_for_event(&engine, 2000) {
        Some(AudioEvent::Playing(_)) => {}
        other => panic!("Expected Playing, got {:?}", other),
    }
    let after = Instant::now();

    let s = stats.lock().unwrap();
    let started = s.play_started_at.expect("play_started_at should be set");
    // The timestamp should be between our before/after markers
    assert!(
        started >= before && started <= after,
        "play_started_at should be between test markers"
    );
    drop(s);

    engine.shutdown();
}

#[test]
fn shared_stats_bytes_received_reset_on_stop() {
    let Some(engine) = try_engine() else { return };
    let stats = engine.shared_stats();

    let bytes_counter = Arc::new(AtomicU64::new(5000));
    engine.play_with_stats(
        Box::new(Cursor::new(make_one_second_wav())),
        None,
        None,
        Some(bytes_counter),
    );
    match wait_for_event(&engine, 2000) {
        Some(AudioEvent::Playing(_)) => {}
        other => panic!("Expected Playing, got {:?}", other),
    }

    engine.advance(700);
    {
        let s = stats.lock().unwrap();
        assert_eq!(
            s.bytes_received, 5000,
            "bytes_received should be 5000 during playback"
        );
    }

    engine.stop();
    match wait_for_event(&engine, 2000) {
        Some(AudioEvent::Stopped) => {}
        _ => {}
    }

    let s = stats.lock().unwrap();
    assert_eq!(
        s.bytes_received, 0,
        "bytes_received should reset to 0 after stop"
    );
    drop(s);

    engine.shutdown();
}

#[test]
fn event_bus_codec_info_matches_playing_event() {
    let Some(engine) = try_engine() else { return };
    let bus = engine.event_bus();
    let rx = bus.subscribe();

    let samples: Vec<i16> = (0..96000)
        .map(|i| ((i as f32 * 0.05).sin() * 8000.0) as i16)
        .collect();
    let wav = make_wav(48000, 2, &samples);

    engine.play(Box::new(Cursor::new(wav)), None, Some(256));

    // Get Playing event
    let playing_info = match wait_for_event(&engine, 2000) {
        Some(AudioEvent::Playing(info)) => info,
        other => panic!("Expected Playing, got {:?}", other),
    };

    // Get bus event
    let bus_info = match rx.recv_timeout(Duration::from_secs(1)) {
        Ok(StreamEvent::PlaybackStarted { codec_info, .. }) => codec_info,
        other => panic!("Expected PlaybackStarted, got {:?}", other),
    };

    // Both should carry the same codec info
    assert_eq!(playing_info.channels, bus_info.channels);
    assert_eq!(playing_info.sample_rate, bus_info.sample_rate);
    assert_eq!(playing_info.codec_name, bus_info.codec_name);
    assert_eq!(playing_info.bitrate, bus_info.bitrate);

    engine.shutdown();
}
