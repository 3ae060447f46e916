use radiotrope::stream::icy::{IcyNext, IcyOutcome};
use radiotrope::stream::icy::{metadata_len, parse_icy_headers, IcyRead, IcyStream};
use std::io::{self, Read, Seek, SeekFrom};
use std::sync::atomic::{AtomicBool, Ordering};
use std::sync::Arc;
use std::time::Duration;

use crossbeam_channel::{bounded, Receiver, RecvTimeoutError, TryRecvError};
use radiotrope::stream::bytes::SeekTarget;
use radiotrope::stream::icy::{IcyHeaders, IcyReader, Received, StreamEnd};

/// A reader fed by a channel.
struct ChannelReader {
    core: IcyReader,
    receiver: Receiver<Vec<u8>>,
    stop_flag: Arc<AtomicBool>,
}

impl ChannelReader {
    fn from_test_channel(
        receiver: Receiver<Vec<u8>>,
        initial_data: Vec<u8>,
    ) -> (Self, Arc<AtomicBool>) {
        let stop_flag = Arc::new(AtomicBool::new(false));
        let headers = IcyHeaders {
            metaint: 0,
            station_name: None,
            content_type: None,
            bitrate: None,
        };
        let reader = ChannelReader {
            core: IcyReader::new(headers, initial_data),
            receiver,
            stop_flag: stop_flag.clone(),
        };
        (reader, stop_flag)
    }

    fn end(&self, end: StreamEnd) -> io::Error {
        let text = match end {
            StreamEnd::Ended => "ICY stream ended",
            StreamEnd::Stopped => "ICY stream stopped",
        };
        io::Error::new(io::ErrorKind::UnexpectedEof, text)
    }
}

impl Read for ChannelReader {
    fn read(&mut self, buf: &mut [u8]) -> io::Result<usize> {
        if buf.is_empty() {
            return Ok(0);
        }
        loop {
            let n = self.core.serve(buf);
            if n > 0 {
                return Ok(n);
            }
            let received = match self.receiver.try_recv() {
                Ok(chunk) => Received::Chunk(chunk),
                Err(TryRecvError::Disconnected) => Received::Disconnected,
                Err(TryRecvError::Empty) => {
                    match self.receiver.recv_timeout(Duration::from_millis(50)) {
                        Ok(chunk) => Received::Chunk(chunk),
                        Err(RecvTimeoutError::Timeout) => Received::Timeout,
                        Err(RecvTimeoutError::Disconnected) => Received::Disconnected,
                    }
                }
            };
            let stopped = self.stop_flag.load(Ordering::Relaxed);
            if let Some(end) = self.core.on_received(received, stopped) {
                return Err(self.end(end));
            }
        }
    }
}

impl Seek for ChannelReader {
    fn seek(&mut self, pos: SeekFrom) -> io::Result<u64> {
        Ok(self.core.seek(match pos {
            SeekFrom::Start(p) => SeekTarget::Start(p),
            SeekFrom::End(p) => SeekTarget::End(p),
            SeekFrom::Current(p) => SeekTarget::Current(p),
        }))
    }
}

impl Drop for ChannelReader {
    fn drop(&mut self) {
        self.stop_flag.store(true, Ordering::SeqCst);
    }
}

// --- IcyHeaders ---

#[test]
fn icy_headers_debug() {
    let h = IcyHeaders {
        metaint: 16000,
        station_name: Some("Test FM".to_string()),
        content_type: Some("audio/mpeg".to_string()),
        bitrate: Some(128),
    };
    let debug = format!("{:?}", h);
    assert!(debug.contains("16000"));
    assert!(debug.contains("Test FM"));
}

#[test]
fn icy_headers_clone() {
    let h = IcyHeaders {
        metaint: 8000,
        station_name: None,
        content_type: None,
        bitrate: None,
    };
    let cloned = h.clone();
    assert_eq!(cloned.metaint, 8000);
    assert!(cloned.station_name.is_none());
}

// --- IcyReader from test channel ---

#[test]
fn read_from_channel() {
    let (tx, rx) = bounded(8);
    let (mut reader, _stop) = ChannelReader::from_test_channel(rx, vec![1, 2, 3, 4]);

    let mut buf = [0u8; 4];
    let n = reader.read(&mut buf).unwrap();
    assert_eq!(n, 4);
    assert_eq!(buf, [1, 2, 3, 4]);

    // Send more data
    tx.send(vec![5, 6]).unwrap();
    let mut buf2 = [0u8; 2];
    let n = reader.read(&mut buf2).unwrap();
    assert_eq!(n, 2);
    assert_eq!(buf2, [5, 6]);
}

#[test]
fn read_partial() {
    let (_tx, rx) = bounded(8);
    let (mut reader, _stop) = ChannelReader::from_test_channel(rx, vec![10, 20, 30, 40, 50]);

    // Read less than available
    let mut buf = [0u8; 2];
    let n = reader.read(&mut buf).unwrap();
    assert_eq!(n, 2);
    assert_eq!(buf, [10, 20]);

    // Read rest
    let mut buf2 = [0u8; 10];
    let n = reader.read(&mut buf2).unwrap();
    assert_eq!(n, 3);
    assert_eq!(&buf2[..3], &[30, 40, 50]);
}

#[test]
fn seek_within_current_chunk() {
    let (_tx, rx) = bounded(8);
    let (mut reader, _stop) = ChannelReader::from_test_channel(rx, vec![1, 2, 3, 4, 5]);

    // Read 3 bytes (partial consumption)
    let mut buf = [0u8; 3];
    reader.read(&mut buf).unwrap();
    assert_eq!(buf, [1, 2, 3]);

    // Seek back to start of current chunk
    let pos = reader.seek(SeekFrom::Start(0)).unwrap();
    assert_eq!(pos, 0);

    // Read again from start
    let mut buf2 = [0u8; 5];
    let n = reader.read(&mut buf2).unwrap();
    assert_eq!(n, 5);
    assert_eq!(buf2, [1, 2, 3, 4, 5]);
}

#[test]
fn icy_seek_current_forward() {
    let (_tx, rx) = bounded(8);
    let (mut reader, _stop) = ChannelReader::from_test_channel(rx, vec![10, 20, 30, 40, 50]);

    // Seek forward from start within current chunk
    let pos = reader.seek(SeekFrom::Current(3)).unwrap();
    assert_eq!(pos, 3);

    let mut buf = [0u8; 2];
    let n = reader.read(&mut buf).unwrap();
    assert_eq!(n, 2);
    assert_eq!(buf, [40, 50]);
}

#[test]
fn seek_current_backward() {
    let (_tx, rx) = bounded(8);
    let (mut reader, _stop) = ChannelReader::from_test_channel(rx, vec![1, 2, 3, 4, 5]);

    // Read 4 bytes
    let mut buf = [0u8; 4];
    reader.read(&mut buf).unwrap();

    // Seek back 2
    let pos = reader.seek(SeekFrom::Current(-2)).unwrap();
    assert_eq!(pos, 2);

    let mut buf2 = [0u8; 3];
    let n = reader.read(&mut buf2).unwrap();
    assert_eq!(n, 3);
    assert_eq!(buf2, [3, 4, 5]);
}

#[test]
fn icy_seek_end() {
    let (_tx, rx) = bounded(8);
    let (mut reader, _stop) = ChannelReader::from_test_channel(rx, vec![1, 2, 3, 4, 5]);

    // Seek to 2 bytes before end of current chunk
    let pos = reader.seek(SeekFrom::End(-2)).unwrap();
    assert_eq!(pos, 3);

    let mut buf = [0u8; 2];
    let n = reader.read(&mut buf).unwrap();
    assert_eq!(n, 2);
    assert_eq!(buf, [4, 5]);
}

#[test]
fn seek_clamps_to_chunk_length() {
    let (_tx, rx) = bounded(8);
    let (mut reader, _stop) = ChannelReader::from_test_channel(rx, vec![1, 2, 3]);

    // Seek past end of current chunk
    let pos = reader.seek(SeekFrom::Start(100)).unwrap();
    assert_eq!(pos, 3);
}

#[test]
fn drop_sets_stop_flag() {
    let (_tx, rx) = bounded(8);
    let stop_flag;
    {
        let (reader, stop) = ChannelReader::from_test_channel(rx, vec![1, 2, 3]);
        stop_flag = stop.clone();
        assert!(!stop_flag.load(Ordering::SeqCst));
        drop(reader);
    }
    assert!(stop_flag.load(Ordering::SeqCst));
}

#[test]
fn empty_channel_returns_available_data() {
    let (tx, rx) = bounded(8);
    let (mut reader, _stop) = ChannelReader::from_test_channel(rx, vec![1, 2]);

    // Read initial data
    let mut buf = [0u8; 2];
    let n = reader.read(&mut buf).unwrap();
    assert_eq!(n, 2);

    // Send more data before reading
    tx.send(vec![3, 4, 5]).unwrap();

    let mut buf2 = [0u8; 3];
    let n = reader.read(&mut buf2).unwrap();
    assert_eq!(n, 3);
    assert_eq!(buf2, [3, 4, 5]);
}

#[test]
fn reader_handles_multiple_chunks() {
    let (tx, rx) = bounded(8);
    let (mut reader, _stop) = ChannelReader::from_test_channel(rx, vec![]);

    tx.send(vec![1, 2]).unwrap();
    tx.send(vec![3, 4]).unwrap();
    tx.send(vec![5, 6]).unwrap();

    // Single-chunk design: each read serves at most one chunk
    let mut buf = [0u8; 10];
    let n = reader.read(&mut buf).unwrap();
    assert_eq!(n, 2);
    assert_eq!(&buf[..2], &[1, 2]);

    let n = reader.read(&mut buf).unwrap();
    assert_eq!(n, 2);
    assert_eq!(&buf[..2], &[3, 4]);

    let n = reader.read(&mut buf).unwrap();
    assert_eq!(n, 2);
    assert_eq!(&buf[..2], &[5, 6]);
}

#[test]
fn icy_headers_with_all_fields() {
    let h = IcyHeaders {
        metaint: 16000,
        station_name: Some("Classic FM".to_string()),
        content_type: Some("audio/mpeg".to_string()),
        bitrate: Some(320),
    };
    assert_eq!(h.metaint, 16000);
    assert_eq!(h.station_name.as_deref(), Some("Classic FM"));
    assert_eq!(h.content_type.as_deref(), Some("audio/mpeg"));
    assert_eq!(h.bitrate, Some(320));
}

#[test]
fn icy_headers_no_optional_fields() {
    let h = IcyHeaders {
        metaint: 0,
        station_name: None,
        content_type: None,
        bitrate: None,
    };
    assert_eq!(h.metaint, 0);
    assert!(h.station_name.is_none());
    assert!(h.content_type.is_none());
    assert!(h.bitrate.is_none());
}

// --- Seek edge cases ---

#[test]
fn seek_start_zero_on_empty_chunk() {
    let (_tx, rx) = bounded(8);
    let (mut reader, _stop) = ChannelReader::from_test_channel(rx, vec![]);
    let pos = reader.seek(SeekFrom::Start(0)).unwrap();
    assert_eq!(pos, 0);
}

#[test]
fn seek_end_positive_clamps() {
    let (_tx, rx) = bounded(8);
    let (mut reader, _stop) = ChannelReader::from_test_channel(rx, vec![1, 2, 3]);
    // SeekFrom::End(0) should be at position 3 (clamped to len)
    let pos = reader.seek(SeekFrom::End(0)).unwrap();
    assert_eq!(pos, 3);
}

#[test]
fn seek_end_beyond_clamps() {
    let (_tx, rx) = bounded(8);
    let (mut reader, _stop) = ChannelReader::from_test_channel(rx, vec![1, 2, 3]);
    // SeekFrom::End(10) → len + 10, clamped to len
    let pos = reader.seek(SeekFrom::End(10)).unwrap();
    assert_eq!(pos, 3);
}

#[test]
fn seek_current_negative_past_zero_saturates() {
    let (_tx, rx) = bounded(8);
    let (mut reader, _stop) = ChannelReader::from_test_channel(rx, vec![1, 2, 3]);
    // position=0, seek -10 → saturates to 0
    let pos = reader.seek(SeekFrom::Current(-10)).unwrap();
    assert_eq!(pos, 0);
}

#[test]
fn seek_then_read_correct_data() {
    let (_tx, rx) = bounded(8);
    let (mut reader, _stop) = ChannelReader::from_test_channel(rx, vec![10, 20, 30, 40, 50, 60]);

    // Seek to position 2
    reader.seek(SeekFrom::Start(2)).unwrap();

    let mut buf = [0u8; 3];
    let n = reader.read(&mut buf).unwrap();
    assert_eq!(n, 3);
    assert_eq!(buf, [30, 40, 50]);
}

#[test]
fn multiple_seeks_in_sequence() {
    let (_tx, rx) = bounded(8);
    let (mut reader, _stop) = ChannelReader::from_test_channel(rx, vec![1, 2, 3, 4, 5]);

    reader.seek(SeekFrom::Start(3)).unwrap();
    reader.seek(SeekFrom::Current(-1)).unwrap();
    let pos = reader.seek(SeekFrom::Current(0)).unwrap();
    assert_eq!(pos, 2);

    let mut buf = [0u8; 1];
    reader.read(&mut buf).unwrap();
    assert_eq!(buf[0], 3);
}

// --- Read edge cases ---

#[test]
fn read_zero_length_buffer() {
    let (_tx, rx) = bounded(8);
    let (mut reader, _stop) = ChannelReader::from_test_channel(rx, vec![1, 2, 3]);
    let mut buf = [0u8; 0];
    let n = reader.read(&mut buf).unwrap();
    assert_eq!(n, 0);
}

#[test]
fn read_exactly_available_amount() {
    let (_tx, rx) = bounded(8);
    let (mut reader, _stop) = ChannelReader::from_test_channel(rx, vec![1, 2, 3]);
    let mut buf = [0u8; 3];
    let n = reader.read(&mut buf).unwrap();
    assert_eq!(n, 3);
    assert_eq!(buf, [1, 2, 3]);
}

#[test]
fn read_more_than_available() {
    let (_tx, rx) = bounded(8);
    let (mut reader, _stop) = ChannelReader::from_test_channel(rx, vec![1, 2]);
    let mut buf = [0u8; 100];
    let n = reader.read(&mut buf).unwrap();
    assert_eq!(n, 2);
    assert_eq!(&buf[..2], &[1, 2]);
}

#[test]
fn seek_back_within_partially_consumed_chunk() {
    let (_tx, rx) = bounded(8);
    let (mut reader, _stop) = ChannelReader::from_test_channel(rx, vec![1, 2, 3, 4, 5]);

    // Read 3 of 5 bytes (chunk still held)
    let mut buf = [0u8; 3];
    reader.read(&mut buf).unwrap();
    assert_eq!(buf, [1, 2, 3]);

    // Seek back to start of current chunk, re-read
    reader.seek(SeekFrom::Start(0)).unwrap();
    let mut buf2 = [0u8; 5];
    let n = reader.read(&mut buf2).unwrap();
    assert_eq!(n, 5);
    assert_eq!(buf2, [1, 2, 3, 4, 5]);
}

// --- Channel interaction edge cases ---

#[test]
fn channel_chunks_served_one_at_a_time() {
    let (tx, rx) = bounded(16);
    let (mut reader, _stop) = ChannelReader::from_test_channel(rx, vec![]);

    // Send many small chunks
    for i in 0u8..10 {
        tx.send(vec![i]).unwrap();
    }

    // Each read serves one chunk at a time
    let mut buf = [0u8; 10];
    for i in 0u8..10 {
        let n = reader.read(&mut buf).unwrap();
        assert_eq!(n, 1);
        assert_eq!(buf[0], i);
    }
}

#[test]
fn read_interleaved_with_channel_sends() {
    let (tx, rx) = bounded(8);
    let (mut reader, _stop) = ChannelReader::from_test_channel(rx, vec![1, 2]);

    let mut buf = [0u8; 2];
    reader.read(&mut buf).unwrap();
    assert_eq!(buf, [1, 2]);

    tx.send(vec![3, 4]).unwrap();
    reader.read(&mut buf).unwrap();
    assert_eq!(buf, [3, 4]);

    tx.send(vec![5, 6]).unwrap();
    reader.read(&mut buf).unwrap();
    assert_eq!(buf, [5, 6]);
}

// --- Drop behavior ---

#[test]
fn drop_with_pending_channel_data() {
    let (tx, rx) = bounded(8);
    let stop_flag;
    {
        let (reader, stop) = ChannelReader::from_test_channel(rx, vec![1, 2, 3]);
        stop_flag = stop.clone();
        tx.send(vec![4, 5, 6]).unwrap();
        drop(reader);
    }
    assert!(stop_flag.load(Ordering::SeqCst));
}

// --- IcyHeaders edge cases ---

#[test]
fn icy_headers_large_metaint() {
    let h = IcyHeaders {
        metaint: usize::MAX,
        station_name: None,
        content_type: None,
        bitrate: None,
    };
    assert_eq!(h.metaint, usize::MAX);
}

#[test]
fn icy_headers_unicode_station_name() {
    let h = IcyHeaders {
        metaint: 16000,
        station_name: Some("Радио Россия 🎵".to_string()),
        content_type: None,
        bitrate: None,
    };
    assert_eq!(h.station_name.as_deref(), Some("Радио Россия 🎵"));
}

// --- Taking a stream apart ---

/// A metadata block with the title, padded, behind its length byte.
fn block(title: &str) -> (u8, Vec<u8>) {
    let mut bytes = format!("StreamTitle='{}';", title).into_bytes();
    while bytes.len() % 16 != 0 {
        bytes.push(0);
    }
    ((bytes.len() / 16) as u8, bytes)
}

/// Takes a stream apart, reading so many bytes at a time at most. Returns audio and titles.
fn take_apart(stream: &[u8], metaint: usize, capacity: usize) -> (Vec<u8>, Vec<Option<String>>) {
    let mut icy = IcyStream::new(metaint);
    let mut audio = Vec::new();
    let mut titles = Vec::new();
    let mut at = 0;
    while at < stream.len() {
        match icy.next_read(capacity) {
            IcyRead::Audio(n) => {
                let end = (at + n).min(stream.len());
                icy.on_audio(&stream[at..end]);
                audio.extend_from_slice(&stream[at..end]);
                at = end;
            }
            IcyRead::Metadata => {
                let length = stream[at];
                let end = at + 1 + metadata_len(length);
                if let Some(metadata) = icy.on_metadata(length, &stream[at + 1..end]) {
                    titles.push(metadata.title);
                }
                at = end;
            }
        }
    }
    (audio, titles)
}

#[test]
fn metadata_is_removed_from_the_audio() {
    let mut stream = Vec::new();
    let mut expected = Vec::new();
    for i in 0..4u8 {
        let audio: Vec<u8> = (0..10).map(|k| i * 10 + k).collect();
        stream.extend_from_slice(&audio);
        expected.extend_from_slice(&audio);
        let (length, bytes) = match i {
            0 | 1 => block("A - B"),
            2 => (0, Vec::new()),
            _ => block("C"),
        };
        stream.push(length);
        stream.extend_from_slice(&bytes);
    }
    for capacity in [1, 3, 10, 8192] {
        let (audio, titles) = take_apart(&stream, 10, capacity);
        assert_eq!(audio, expected);
        assert_eq!(titles, vec![Some("B".to_string()), Some("C".to_string())]);
    }
    let (audio, titles) = take_apart(&stream, 0, 7);
    assert_eq!(audio, stream);
    assert!(titles.is_empty());
}

#[test]
fn reconnection_starts_with_audio_and_keeps_the_title() {
    let mut icy = IcyStream::new(4);
    icy.on_audio(&[1, 2, 3, 4]);
    assert_eq!(icy.next_read(100), IcyRead::Metadata);
    let (length, bytes) = block("A - B");
    let metadata = icy.on_metadata(length, &bytes).unwrap();
    assert_eq!(metadata.artist, Some("A".to_string()));
    icy.on_audio(&[5, 6]);
    icy.on_failed();
    icy.on_failed();
    assert_eq!(icy.failures(), 2);
    icy.on_reconnected();
    assert_eq!(icy.failures(), 0);
    assert_eq!(icy.next_read(100), IcyRead::Audio(4));
    icy.on_audio(&[1, 2, 3, 4]);
    assert!(icy.on_metadata(length, &bytes).is_none());
}

#[test]
fn title_taken_from_bytes_that_are_not_utf8() {
    let mut icy = IcyStream::new(1);
    icy.on_audio(&[0]);
    let mut bytes = b"StreamTitle='caf\xe9';".to_vec();
    bytes.resize(32, 0);
    let metadata = icy.on_metadata(2, &bytes).unwrap();
    assert_eq!(metadata.title, Some("caf\u{fffd}".to_string()));
    assert!(icy.on_title(None).is_none());
    assert!(icy.on_title(Some("x".to_string())).is_some());
    assert!(icy.on_title(Some("x".to_string())).is_none());
}

#[test]
fn headers_are_read_from_text() {
    let headers = parse_icy_headers(Some("16000"), Some("FM"), Some("audio/mpeg"), Some("128"));
    assert_eq!(headers.metaint, 16000);
    assert_eq!(headers.station_name, Some("FM".to_string()));
    assert_eq!(headers.content_type, Some("audio/mpeg".to_string()));
    assert_eq!(headers.bitrate, Some(128));

    let headers = parse_icy_headers(Some("+7"), None, None, Some("4294967296"));
    assert_eq!(headers.metaint, 7);
    assert_eq!(headers.bitrate, None);
    for text in ["", "+", "-1", "12a", " 5", "18446744073709551616"] {
        assert_eq!(parse_icy_headers(Some(text), None, None, Some(text)).metaint, 0);
        assert_eq!(parse_icy_headers(Some(text), None, None, Some(text)).bitrate, None);
    }
    let headers = parse_icy_headers(Some("18446744073709551615"), None, None, Some("4294967295"));
    assert_eq!(headers.metaint, usize::MAX);
    assert_eq!(headers.bitrate, Some(u32::MAX));
    assert_eq!(parse_icy_headers(None, None, None, None).metaint, 0);
}

#[test]
fn reader_ends_when_the_sender_is_gone() {
    let (tx, rx) = bounded(8);
    let (mut reader, stop) = ChannelReader::from_test_channel(rx, vec![1]);
    let mut buf = [0u8; 4];
    assert_eq!(reader.read(&mut buf).unwrap(), 1);
    stop.store(true, Ordering::SeqCst);
    assert_eq!(reader.read(&mut buf).unwrap_err().to_string(), "ICY stream stopped");
    drop(tx);
    assert_eq!(reader.read(&mut buf).unwrap_err().to_string(), "ICY stream ended");
}

#[test]
fn connection_is_sought_until_stopped() {
    let pause = |next: IcyNext| match next {
        IcyNext::Pause(duration) => duration.as_secs(),
        other => panic!("unexpected {:?}", other),
    };
    let mut icy = IcyStream::new(4);
    icy.on_audio(&[1, 2]);
    assert_eq!(pause(icy.on_outcome(IcyOutcome::Lost)), 2);
    for secs in [4, 8, 10, 10, 10] {
        assert!(matches!(icy.on_outcome(IcyOutcome::PauseOver), IcyNext::Connect));
        assert_eq!(pause(icy.on_outcome(IcyOutcome::NotConnected)), secs);
    }
    assert!(matches!(icy.on_outcome(IcyOutcome::Connected), IcyNext::Read));
    assert_eq!(icy.next_read(100), IcyRead::Audio(4));
    assert_eq!(pause(icy.on_outcome(IcyOutcome::Lost)), 2);
    assert!(matches!(icy.on_outcome(IcyOutcome::Stopped), IcyNext::Exit));
    assert!(matches!(icy.on_outcome(IcyOutcome::ReceiverGone), IcyNext::Exit));
}
