use std::sync::{Arc, Mutex};

use radiotrope::audio::health::HealthState;
use radiotrope::audio::stats::{DecoderStats, EventBus, StreamEvent, StreamStats};
use radiotrope::audio::types::CodecInfo;

// --- StreamStats ---

#[test]
fn stream_stats_default() {
    let stats = StreamStats::default();
    assert!(stats.codec_info.is_none());
    assert!(stats.stream_type.is_none());
    assert!(stats.stream_url.is_empty());
    assert_eq!(stats.frames_played, 0);
    assert_eq!(stats.decode_errors, 0);
    assert_eq!(stats.bytes_received, 0);
    assert_eq!(stats.sample_count, 0);
    assert_eq!(stats.health_state, HealthState::WaitingForAudio);
    assert!(stats.play_started_at.is_none());
}

#[test]
fn stream_stats_clone() {
    let mut stats = StreamStats::default();
    stats.frames_played = 42;
    stats.bytes_received = 1024;
    let cloned = stats.clone();
    assert_eq!(cloned.frames_played, 42);
    assert_eq!(cloned.bytes_received, 1024);
}

#[test]
fn stream_stats_debug() {
    let stats = StreamStats::default();
    let debug = format!("{:?}", stats);
    assert!(debug.contains("StreamStats"));
}

// --- StreamEvent ---

#[test]
fn stream_event_playback_started() {
    let evt = StreamEvent::PlaybackStarted {
        codec_info: CodecInfo {
            codec_name: "MP3".to_string(),
            channels: 2,
            sample_rate: 44100,
            bits_per_sample: None,
            bitrate: Some(128),
        },
        stream_url: "http://example.com".to_string(),
    };
    let debug = format!("{:?}", evt);
    assert!(debug.contains("PlaybackStarted"));
    assert!(debug.contains("MP3"));
}

#[test]
fn stream_event_clone() {
    let evt = StreamEvent::Error("test".to_string());
    let cloned = evt.clone();
    if let StreamEvent::Error(msg) = cloned {
        assert_eq!(msg, "test");
    } else {
        panic!("Expected Error variant");
    }
}

#[test]
fn stream_event_all_variants() {
    let _ = format!("{:?}", StreamEvent::PlaybackStopped);
    let _ = format!(
        "{:?}",
        StreamEvent::MetadataChanged {
            title: "Song".to_string(),
            artist: "Artist".to_string(),
        }
    );
    let _ = format!("{:?}", StreamEvent::HealthChanged(HealthState::Healthy));
    let _ = format!("{:?}", StreamEvent::Error("err".to_string()));
}

// --- EventBus ---

#[test]
fn event_bus_subscribe_and_emit() {
    let mut bus = EventBus::new();
    let rx = bus.subscribe();

    bus.emit(StreamEvent::PlaybackStopped);

    let evt = rx.recv().unwrap();
    assert!(matches!(evt, StreamEvent::PlaybackStopped));
}

#[test]
fn event_bus_multiple_subscribers() {
    let mut bus = EventBus::new();
    let rx1 = bus.subscribe();
    let rx2 = bus.subscribe();

    bus.emit(StreamEvent::PlaybackStopped);

    assert!(matches!(rx1.recv().unwrap(), StreamEvent::PlaybackStopped));
    assert!(matches!(rx2.recv().unwrap(), StreamEvent::PlaybackStopped));
}

#[test]
fn event_bus_disconnected_subscriber_cleanup() {
    let mut bus = EventBus::new();
    let rx1 = bus.subscribe();
    let _rx2 = bus.subscribe();
    drop(rx1); // disconnect first subscriber

    // Should not panic, and remaining subscriber should get the event
    bus.emit(StreamEvent::PlaybackStopped);

    // Verify the dead subscriber was cleaned up
    assert_eq!(bus.subscriber_count(), 1);
}

#[test]
fn event_bus_no_subscribers() {
    let mut bus = EventBus::new();
    // Should not panic when emitting with no subscribers
    bus.emit(StreamEvent::PlaybackStopped);
}

#[test]
fn event_bus_multiple_events() {
    let mut bus = EventBus::new();
    let rx = bus.subscribe();

    bus.emit(StreamEvent::PlaybackStopped);
    bus.emit(StreamEvent::Error("err1".to_string()));
    bus.emit(StreamEvent::Error("err2".to_string()));

    assert!(matches!(rx.recv().unwrap(), StreamEvent::PlaybackStopped));
    if let StreamEvent::Error(msg) = rx.recv().unwrap() {
        assert_eq!(msg, "err1");
    }
    if let StreamEvent::Error(msg) = rx.recv().unwrap() {
        assert_eq!(msg, "err2");
    }
}

// --- DecoderStats ---

#[test]
fn decoder_stats_new() {
    let stats = DecoderStats::new();
    let (packets, errors) = stats.snapshot();
    assert_eq!(packets, 0);
    assert_eq!(errors, 0);
}

#[test]
fn decoder_stats_record_frame() {
    let mut stats = DecoderStats::new();
    stats.record_frame();
    stats.record_frame();
    stats.record_frame();
    let (packets, errors) = stats.snapshot();
    assert_eq!(packets, 3);
    assert_eq!(errors, 0);
}

#[test]
fn decoder_stats_record_error() {
    let mut stats = DecoderStats::new();
    stats.record_error();
    stats.record_error();
    let (packets, errors) = stats.snapshot();
    assert_eq!(packets, 0);
    assert_eq!(errors, 2);
}

#[test]
fn decoder_stats_mixed() {
    let mut stats = DecoderStats::new();
    stats.record_frame();
    stats.record_error();
    stats.record_frame();
    stats.record_frame();
    stats.record_error();
    let (packets, errors) = stats.snapshot();
    assert_eq!(packets, 3);
    assert_eq!(errors, 2);
}

#[test]
fn decoder_stats_arc_shared() {
    let stats = Arc::new(Mutex::new(DecoderStats::new()));
    let s2 = stats.clone();

    stats.lock().unwrap().record_frame();
    s2.lock().unwrap().record_frame();

    let (packets, _) = stats.lock().unwrap().snapshot();
    assert_eq!(packets, 2);
}

#[test]
fn decoder_stats_many_increments() {
    let mut stats = DecoderStats::new();
    for _ in 0..10000 {
        stats.record_frame();
    }
    let (packets, _) = stats.snapshot();
    assert_eq!(packets, 10000);
}

#[test]
fn subscribers_hear_what_is_emitted_since_they_joined() {
    let text = |event: StreamEvent| match event {
        StreamEvent::Error(text) => text,
        other => panic!("unexpected {:?}", other),
    };
    let mut bus = EventBus::new();
    let first = bus.subscribe();
    bus.emit(StreamEvent::Error("one".to_string()));
    let second = bus.subscribe();
    bus.emit(StreamEvent::Error("two".to_string()));
    drop(first);
    let third = bus.subscribe();
    bus.emit(StreamEvent::Error("three".to_string()));
    assert_eq!(bus.subscriber_count(), 2);
    assert_eq!(text(second.try_recv().unwrap()), "two");
    assert_eq!(text(second.try_recv().unwrap()), "three");
    assert!(second.try_recv().is_err());
    assert_eq!(text(third.try_recv().unwrap()), "three");
    assert!(third.try_recv().is_err());
}

#[test]
fn events_that_nobody_reads_do_not_hold_up_the_bus() {
    let mut bus = EventBus::new();
    let rx = bus.subscribe();
    for i in 0..20_000 {
        bus.emit(StreamEvent::Error(format!("e{}", i)));
    }
    assert_eq!(bus.subscriber_count(), 1);
    assert_eq!(rx.try_iter().count(), 20_000);
}
