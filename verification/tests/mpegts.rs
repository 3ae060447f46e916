use radiotrope::stream::hls::demux_ts_segment;
use radiotrope::stream::mpegts::{audio_from_packets, read_packets, Packet, TsContent, PACKET_SIZE};

fn crc32(data: &[u8]) -> u32 {
    let mut crc = 0xFFFF_FFFFu32;
    for &byte in data {
        crc ^= (byte as u32) << 24;
        for _ in 0..8 {
            crc = if crc & 0x8000_0000 != 0 {
                (crc << 1) ^ 0x04C1_1DB7
            } else {
                crc << 1
            };
        }
    }
    crc
}

/// A packet with a table, behind a pointer field and before its checksum.
fn table_packet(pid: u16, table: &[u8]) -> Vec<u8> {
    let mut packet = vec![0x47, 0x40 | (pid >> 8) as u8, pid as u8, 0x10, 0x00];
    packet.extend_from_slice(table);
    packet.extend_from_slice(&crc32(table).to_be_bytes());
    packet.resize(PACKET_SIZE, 0xFF);
    packet
}

/// A program association table that names the packet identifier of one program map table.
fn pat(pmt_pid: u16) -> Vec<u8> {
    let table = [
        0x00, 0xB0, 0x0D, 0x00, 0x01, 0xC1, 0x00, 0x00, 0x00, 0x01,
        0xE0 | (pmt_pid >> 8) as u8, pmt_pid as u8,
    ];
    table_packet(0, &table)
}

/// A program map table with one elementary stream; `info` is the length that it claims for the
/// program information, of which there is none.
fn pmt(pmt_pid: u16, stream_type: u8, pid: u16, info: u8) -> Vec<u8> {
    let table = [
        0x02, 0xB0, 0x12, 0x00, 0x01, 0xC1, 0x00, 0x00, 0xE1, 0x01, 0xF0, info,
        stream_type, 0xE0 | (pid >> 8) as u8, pid as u8, 0xF0, 0x00,
    ];
    table_packet(pmt_pid, &table)
}

fn pes_start(pid: u16, fill: u8) -> Vec<u8> {
    let mut packet = vec![0x47, 0x40 | (pid >> 8) as u8, pid as u8, 0x10];
    packet.extend_from_slice(&[0x00, 0x00, 0x01, 0xC0, 0x00, 0x00, 0x80, 0x00, 0x00]);
    packet.resize(PACKET_SIZE, fill);
    packet
}

fn pes_continuation(pid: u16, fill: u8) -> Vec<u8> {
    let mut packet = vec![0x47, (pid >> 8) as u8, pid as u8, 0x11];
    packet.resize(PACKET_SIZE, fill);
    packet
}

#[test]
fn audio_is_taken_from_the_stream_that_the_table_names() {
    let mut data = Vec::new();
    data.extend(pat(480));
    data.extend(pmt(480, 0x0F, 300, 0));
    data.extend(pes_start(300, 0xA1));
    data.extend(pes_continuation(300, 0xA2));
    let mut expected = vec![0xA1u8; 175];
    expected.extend(vec![0xA2u8; 184]);
    assert_eq!(demux_ts_segment(&data), expected);
}

#[test]
fn video_only_table_falls_back_to_customary_identifiers() {
    let mut data = Vec::new();
    data.extend(pat(480));
    data.extend(pmt(480, 0x1B, 257, 0));
    data.extend(pes_start(257, 0x11));
    assert_eq!(demux_ts_segment(&data), vec![0x11u8; 175]);

    let mut other = Vec::new();
    other.extend(pat(480));
    other.extend(pmt(480, 0x1B, 300, 0));
    other.extend(pes_start(300, 0x11));
    assert!(demux_ts_segment(&other).is_empty());
}

#[test]
fn reading_ends_at_the_first_packet_that_cannot_be_read() {
    let mut data = Vec::new();
    data.extend(pat(480));
    data.extend(pmt(480, 0x0F, 300, 0));
    data.extend(pes_start(300, 0xA1));
    data.extend(pes_continuation(999, 0xEE));
    data.extend(pes_continuation(300, 0xA2));
    assert_eq!(read_packets(&data).len(), 3);
    assert_eq!(demux_ts_segment(&data), vec![0xA1u8; 175]);
}

#[test]
fn table_that_claims_too_much_ends_the_stream() {
    let mut data = Vec::new();
    data.extend(pat(480));
    data.extend(pmt(480, 0x0F, 300, 200));
    data.extend(pes_start(300, 0xA1));
    assert_eq!(read_packets(&data).len(), 1);
    assert!(demux_ts_segment(&data).is_empty());
}

#[test]
fn packets_are_told_apart() {
    let mut data = Vec::new();
    data.extend(pat(480));
    data.extend(pmt(480, 0x0F, 300, 0));
    data.extend(pes_start(300, 1));
    data.extend(pes_continuation(300, 2));
    data.extend(pes_continuation(0x10, 3));
    data.extend(pes_continuation(0x1FFF, 4));
    let packets = read_packets(&data);
    assert_eq!(packets.len(), 6);
    assert!(matches!(&packets[0].content, TsContent::Pat(pids) if *pids == vec![480]));
    assert!(matches!(&packets[1].content, TsContent::Pmt(es) if *es == vec![(0x0F, 300)]));
    assert!(matches!(&packets[2].content, TsContent::PesStart(d) if d.len() == 175));
    assert!(matches!(&packets[3].content, TsContent::PesContinuation(d) if d.len() == 184));
    assert!(matches!(&packets[4].content, TsContent::Raw(d) if *d == vec![3; 184]));
    assert!(matches!(&packets[5].content, TsContent::Other));
    assert_eq!(packets[3].pid, 300);
}

#[test]
fn audio_follows_the_order_of_packets() {
    let packets = vec![
        Packet { pid: 7, content: TsContent::PesContinuation(vec![1, 2]) },
        Packet { pid: 5, content: TsContent::Pmt(vec![(0x1B, 9), (0x03, 7), (0x81, 8)]) },
        Packet { pid: 9, content: TsContent::PesStart(vec![9, 9]) },
        Packet { pid: 8, content: TsContent::Raw(vec![3]) },
        Packet { pid: 7, content: TsContent::PesStart(vec![4]) },
        Packet { pid: 7, content: TsContent::Other },
    ];
    assert_eq!(audio_from_packets(&packets), vec![1, 2, 3, 4]);
}

#[test]
fn every_audio_type_counts() {
    for stream_type in [0x03u8, 0x04, 0x0F, 0x11, 0x80, 0x81] {
        let packets = vec![
            Packet { pid: 1, content: TsContent::Pmt(vec![(stream_type, 40)]) },
            Packet { pid: 40, content: TsContent::Raw(vec![6]) },
            Packet { pid: 257, content: TsContent::Raw(vec![7]) },
        ];
        assert_eq!(audio_from_packets(&packets), vec![6]);
    }
    let packets = vec![
        Packet { pid: 1, content: TsContent::Pmt(vec![(0x82, 40)]) },
        Packet { pid: 40, content: TsContent::Raw(vec![6]) },
        Packet { pid: 258, content: TsContent::Raw(vec![7]) },
    ];
    assert_eq!(audio_from_packets(&packets), vec![7]);
}

#[test]
fn packet_without_payload_is_no_table() {
    let mut data = Vec::new();
    data.extend(pat(480));
    data.extend(pmt(480, 0x0F, 300, 0));
    // An adaptation field alone, whose bytes would claim too much as a table.
    let mut stuffing = vec![0x47, 0x01, 0xE0, 0x20, 183, 0x00];
    stuffing.resize(PACKET_SIZE, 0xFF);
    data.extend(stuffing);
    data.extend(pes_start(300, 0xA1));
    assert_eq!(read_packets(&data).len(), 4);
    assert_eq!(demux_ts_segment(&data), vec![0xA1u8; 175]);
}

#[test]
fn cut_off_table_ends_the_stream() {
    let mut data = Vec::new();
    data.extend(pat(480));
    let table = pmt(480, 0x0F, 300, 200);
    data.extend(&table[..30]);
    assert_eq!(read_packets(&data).len(), 1);
    assert!(demux_ts_segment(&data).is_empty());
}
