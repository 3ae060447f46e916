//! MPEG transport streams: the packets of a segment and the audio in them.

use mpeg2ts::ts::TsPayload::{Pat, PesContinuation, PesStart, Pmt, Raw};
use mpeg2ts::ts::{ReadTsPacket, TsPacketReader};
use std::collections::HashSet;

use vstd::prelude::*;

verus! {

broadcast use vstd::std_specs::hash::group_hash_axioms;

/// What a transport stream packet carries.
#[derive(Debug)]
pub enum TsContent {
    /// A program association table: the packet identifiers of the program map tables.
    Pat(Vec<u16>),
    /// A program map table: type and packet identifier of each elementary stream.
    Pmt(Vec<(u8, u16)>),
    /// The first bytes of a packet of an elementary stream.
    PesStart(Vec<u8>),
    /// Further bytes of a packet of an elementary stream.
    PesContinuation(Vec<u8>),
    /// Bytes of a packet that is not interpreted.
    Raw(Vec<u8>),
    /// Nothing, a section or stuffing.
    Other,
}

/// A transport stream packet.
#[derive(Debug)]
pub struct Packet {
    /// The packet identifier.
    pub pid: u16,
    /// What the packet carries.
    pub content: TsContent,
}

/// What a `TsContent` says.
pub enum TsContentView {
    Pat(Seq<u16>),
    Pmt(Seq<(u8, u16)>),
    PesStart(Seq<u8>),
    PesContinuation(Seq<u8>),
    Raw(Seq<u8>),
    Other,
}

/// What a `Packet` says.
pub struct PacketView {
    pub pid: u16,
    pub content: TsContentView,
}

impl View for TsContent {
    type V = TsContentView;

    open spec fn view(&self) -> TsContentView {
        match *self {
            TsContent::Pat(table) => TsContentView::Pat(table@),
            TsContent::Pmt(streams) => TsContentView::Pmt(streams@),
            TsContent::PesStart(data) => TsContentView::PesStart(data@),
            TsContent::PesContinuation(data) => TsContentView::PesContinuation(data@),
            TsContent::Raw(data) => TsContentView::Raw(data@),
            TsContent::Other => TsContentView::Other,
        }
    }
}

impl View for Packet {
    type V = PacketView;

    open spec fn view(&self) -> PacketView {
        PacketView { pid: self.pid, content: self.content@ }
    }
}

/// What the packets of a list say.
pub open spec fn packet_views(packets: Seq<Packet>) -> Seq<PacketView> {
    Seq::new(packets.len(), |i: int| packets[i]@)
}

/// The length of a transport stream packet in bytes.
pub const PACKET_SIZE: usize = 188;

/// What a packet reader knows of packet identifiers: `true` for one that carries program map
/// tables, `false` for one that carries an elementary stream.
pub type PidKinds = Map<u16, bool>;

/// Nothing is known of any packet identifier.
pub open spec fn no_kinds() -> PidKinds {
    Map::empty()
}

/// `kinds` with each of `pids` entered as one that carries program map tables.
pub open spec fn with_tables(kinds: PidKinds, pids: Seq<u16>) -> PidKinds
    decreases pids.len(),
{
    if pids.len() == 0 {
        kinds
    } else {
        with_tables(kinds, pids.drop_last()).insert(pids.last(), true)
    }
}

/// `kinds` with the identifier of each of `streams` entered as one that carries such a stream.
pub open spec fn with_streams(kinds: PidKinds, streams: Seq<(u8, u16)>) -> PidKinds
    decreases streams.len(),
{
    if streams.len() == 0 {
        kinds
    } else {
        with_streams(kinds, streams.drop_last()).insert(streams.last().1, false)
    }
}

/// What the reader knows after a packet.
pub open spec fn kinds_after(kinds: PidKinds, packet: PacketView) -> PidKinds {
    match packet.content {
        TsContentView::Pat(pids) => with_tables(kinds, pids),
        TsContentView::Pmt(streams) => with_streams(kinds, streams),
        _ => kinds,
    }
}

/// The packet identifier in a packet's header.
pub open spec fn header_pid(b: Seq<u8>) -> int {
    (b[1] % 32) * 256 + b[2]
}

/// Where the payload begins, behind the header and the adaptation field.
pub open spec fn payload_start(b: Seq<u8>) -> int {
    if (b[3] / 32) % 2 == 1 {
        5 + b[4]
    } else {
        4
    }
}

/// The packet is read as a program map table and claims more program information than its
/// section holds. Such a table has no contents.
pub open spec fn table_overruns(b: Seq<u8>, kinds: PidKinds) -> bool {
    let pid = header_pid(b);
    let p = payload_start(b);
    let section = (b[p + 2] % 4) * 256 + b[p + 3];
    let info = (b[p + 11] % 4) * 256 + b[p + 12];
    &&& (b[3] / 16) % 2 == 1
    &&& 0x20 <= pid < 0x1FFF
    &&& pid != 0x1FFB
    &&& kinds.contains_pair(pid as u16, true)
    &&& p + 12 < PACKET_SIZE
    &&& section >= 13
    &&& info > section - 13
}

/// `mpeg2ts::ts::TsPacketReader`, which takes packets off a byte stream.
#[verifier::external_type_specification]
#[verifier::external_body]
#[verifier::reject_recursive_types(R)]
pub struct ExTsPacketReader<R>(TsPacketReader<R>);

/// The bytes that a packet reader has not taken yet.
pub uninterp spec fn unread(reader: TsPacketReader<&[u8]>) -> Seq<u8>;

/// What a packet reader knows of packet identifiers.
pub uninterp spec fn pid_kinds(reader: TsPacketReader<&[u8]>) -> PidKinds;

/// The packet in the first bytes of a stream, given what is known of packet identifiers; none
/// where the bytes cannot be read as one.
pub uninterp spec fn ts_packet(bytes: Seq<u8>, kinds: PidKinds) -> Option<PacketView>;

/// `mpeg2ts::ts::TsPacketReader::new` makes a reader that has taken nothing and knows of no
/// packet identifier.
#[verifier::external_body]
fn open_packets<'a>(data: &'a [u8]) -> (r: TsPacketReader<&'a [u8]>)
    ensures
        unread(r) == data@,
        pid_kinds(r) == no_kinds(),
{
    TsPacketReader::new(data)
}

/// `mpeg2ts::ts::TsPacketReader::read_ts_packet` takes one packet off the stream, or none where the
/// bytes are not a packet of a sort that it knows; why is left out. What it makes of the stream
/// depends on the next 188 bytes and on the tables that it has read, and a packet takes up all of
/// them. A program map table that claims more program information than it holds makes it panic,
/// even in a packet that is cut off; such tables, and cut off packets, are ruled out.
#[verifier::external_body]
fn next_packet(reader: &mut TsPacketReader<&[u8]>) -> (r: Option<Packet>)
    requires
        unread(*old(reader)).len() >= PACKET_SIZE,
        !table_overruns(unread(*old(reader)), pid_kinds(*old(reader))),
    ensures
        match r {
            Some(packet) => {
                &&& ts_packet(
                    unread(*old(reader)).take(PACKET_SIZE as int),
                    pid_kinds(*old(reader)),
                ) == Some(packet@)
                &&& unread(*final(reader)) == unread(*old(reader)).skip(PACKET_SIZE as int)
                &&& pid_kinds(*final(reader)) == kinds_after(pid_kinds(*old(reader)), packet@)
            },
            None => ts_packet(
                unread(*old(reader)).take(PACKET_SIZE as int),
                pid_kinds(*old(reader)),
            ) is None,
        },
{
    let packet = reader.read_ts_packet().ok()??;
    let content = match packet.payload {
        Some(Pat(x)) => TsContent::Pat(
            x.table.iter().map(|p| p.program_map_pid.as_u16()).collect(),
        ),
        Some(Pmt(x)) => TsContent::Pmt(
            x.es_info.iter().map(|e| (e.stream_type as u8, e.elementary_pid.as_u16())).collect(),
        ),
        Some(PesStart(x)) => TsContent::PesStart(x.data.to_vec()),
        Some(PesContinuation(x)) => TsContent::PesContinuation(x.to_vec()),
        Some(Raw(x)) => TsContent::Raw(x.to_vec()),
        _ => TsContent::Other,
    };
    Some(Packet { pid: packet.header.pid.as_u16(), content })
}

/// The packets of a transport stream, up to the first that cannot be read.
pub open spec fn packets_of(data: Seq<u8>, kinds: PidKinds) -> Seq<PacketView>
    decreases data.len(),
{
    if data.len() < PACKET_SIZE || table_overruns(data, kinds) {
        Seq::empty()
    } else {
        match ts_packet(data.take(PACKET_SIZE as int), kinds) {
            None => Seq::empty(),
            Some(packet) => seq![packet] + packets_of(
                data.skip(PACKET_SIZE as int),
                kinds_after(kinds, packet),
            ),
        }
    }
}

/// `tables` are the packet identifiers that carry program map tables.
spec fn tracks(tables: Set<u16>, kinds: PidKinds) -> bool {
    forall|pid: u16| #[trigger] tables.contains(pid) <==> kinds.contains_pair(pid, true)
}

/// Whether the packet is a program map table that claims more than it holds.
fn check_overrun(data: &[u8], at: usize, tables: &HashSet<u16>, Ghost(kinds): Ghost<PidKinds>) -> (r:
    bool)
    requires
        at + PACKET_SIZE <= data@.len(),
        tracks(tables@, kinds),
    ensures
        r == table_overruns(data@.skip(at as int), kinds),
{
    let ghost b = data@.skip(at as int);
    let total: usize = data.len();
    assert(at + PACKET_SIZE <= total);
    let pid: u16 = (data[at + 1] % 32) as u16 * 256 + data[at + 2] as u16;
    let p: usize = if (data[at + 3] / 32) % 2 == 1 {
        5 + data[at + 4] as usize
    } else {
        4
    };
    assert(pid == header_pid(b));
    assert(p == payload_start(b));
    if (data[at + 3] / 16) % 2 != 1 || pid < 0x20 || pid >= 0x1FFF || pid == 0x1FFB
        || !tables.contains(&pid) || p + 12 >= PACKET_SIZE {
        return false;
    }
    let section: usize = (data[at + p + 2] % 4) as usize * 256 + data[at + p + 3] as usize;
    let info: usize = (data[at + p + 11] % 4) as usize * 256 + data[at + p + 12] as usize;
    section >= 13 && info > section - 13
}

/// Takes note of the identifiers in a packet's table.
fn note_tables(tables: &mut HashSet<u16>, packet: &Packet, Ghost(kinds): Ghost<PidKinds>)
    requires
        tracks(old(tables)@, kinds),
    ensures
        tracks(final(tables)@, kinds_after(kinds, packet@)),
{
    match &packet.content {
        TsContent::Pat(pids) => {
            let mut i: usize = 0;
            while i < pids.len()
                invariant
                    i <= pids@.len(),
                    tracks(tables@, with_tables(kinds, pids@.take(i as int))),
                decreases pids@.len() - i,
            {
                proof {
                    assert(pids@.take(i + 1).drop_last() =~= pids@.take(i as int));
                }
                tables.insert(pids[i]);
                i += 1;
            }
            assert(pids@.take(i as int) =~= pids@);
        },
        TsContent::Pmt(streams) => {
            let mut i: usize = 0;
            while i < streams.len()
                invariant
                    i <= streams@.len(),
                    tracks(tables@, with_streams(kinds, streams@.take(i as int))),
                decreases streams@.len() - i,
            {
                proof {
                    assert(streams@.take(i + 1).drop_last() =~= streams@.take(i as int));
                }
                tables.remove(&streams[i].1);
                i += 1;
            }
            assert(streams@.take(i as int) =~= streams@);
        },
        _ => {},
    }
}

/// The packets of a transport stream, up to the first that cannot be read.
pub fn read_packets(data: &[u8]) -> (r: Vec<Packet>)
    ensures
        packet_views(r@) == packets_of(data@, no_kinds()),
{
    let mut r: Vec<Packet> = Vec::new();
    let mut reader: TsPacketReader<&[u8]> = open_packets(data);
    let mut tables: HashSet<u16> = HashSet::new();
    let total: usize = data.len();
    let mut at: usize = 0;
    proof {
        assert(data@.skip(0) =~= data@);
        assert(packet_views(r@) + packets_of(data@, no_kinds()) =~= packets_of(data@, no_kinds()));
    }
    loop
        invariant
            at <= data@.len() == total,
            unread(reader) == data@.skip(at as int),
            tracks(tables@, pid_kinds(reader)),
            packet_views(r@) + packets_of(unread(reader), pid_kinds(reader)) == packets_of(data@, no_kinds()),
        decreases data@.len() - at,
    {
        let ghost kinds = pid_kinds(reader);
        let ghost before = r@;
        let ghost ahead = unread(reader);
        let next: Option<Packet> = if total - at < PACKET_SIZE || check_overrun(
            data,
            at,
            &tables,
            Ghost(kinds),
        ) {
            None
        } else {
            next_packet(&mut reader)
        };
        match next {
            None => {
                proof {
                    assert(packets_of(ahead, kinds) =~= Seq::empty());
                    assert(packet_views(r@) + packets_of(ahead, kinds) =~= packet_views(r@));
                }
                return r;
            },
            Some(packet) => {
                note_tables(&mut tables, &packet, Ghost(kinds));
                proof {
                    assert(ahead.skip(PACKET_SIZE as int) =~= data@.skip(at + PACKET_SIZE));
                }
                let ghost seen = packet@;
                r.push(packet);
                proof {
                    assert(packet_views(r@) =~= packet_views(before) + seq![seen]);
                    assert(packet_views(r@) + packets_of(unread(reader), pid_kinds(reader))
                        =~= packet_views(before) + packets_of(ahead, kinds));
                }
                at += PACKET_SIZE;
            },
        }
    }
}

/// The types of elementary streams that carry audio: MPEG-1 and MPEG-2, AAC in ADTS and in LOAS,
/// AC-3, and private audio.
pub open spec fn is_audio_type(stream_type: u8) -> bool {
    stream_type == 0x03 || stream_type == 0x04 || stream_type == 0x0F || stream_type == 0x11
        || stream_type == 0x81 || stream_type == 0x80
}

/// One of the first `n` streams carries audio under the packet identifier.
pub open spec fn audio_among(streams: Seq<(u8, u16)>, n: int, pid: u16) -> bool {
    exists|k: int|
        0 <= k < n && (#[trigger] streams[k]).1 == pid && is_audio_type(streams[k].0)
}

/// The content is a program map table that names the packet identifier for an audio stream.
pub open spec fn lists_audio(content: TsContentView, pid: u16) -> bool {
    content matches TsContentView::Pmt(streams) && audio_among(streams, streams.len() as int, pid)
}

/// Some program map table names the packet identifier for an audio stream.
pub open spec fn named_for_audio(packets: Seq<PacketView>, pid: u16) -> bool {
    exists|i: int| 0 <= i < packets.len() && lists_audio((#[trigger] packets[i]).content, pid)
}

/// The packet identifiers taken for audio: those that the program map tables name, or the two
/// customary ones where they name none.
pub open spec fn is_audio_pid(packets: Seq<PacketView>, pid: u16) -> bool {
    if exists|p: u16| named_for_audio(packets, p) {
        named_for_audio(packets, pid)
    } else {
        pid == 257 || pid == 258
    }
}

/// The bytes of an elementary stream in a packet.
pub open spec fn carried(content: TsContentView) -> Seq<u8> {
    match content {
        TsContentView::PesStart(data) => data,
        TsContentView::PesContinuation(data) => data,
        TsContentView::Raw(data) => data,
        _ => Seq::empty(),
    }
}

/// The bytes that the first `n` packets carry under the given identifiers, in order.
pub open spec fn carried_by(packets: Seq<PacketView>, pids: Set<u16>, n: int) -> Seq<u8>
    decreases n,
{
    if n <= 0 {
        Seq::empty()
    } else if pids.contains(packets[n - 1].pid) {
        carried_by(packets, pids, n - 1) + carried(packets[n - 1].content)
    } else {
        carried_by(packets, pids, n - 1)
    }
}

/// The audio in a series of packets.
pub open spec fn audio_of(packets: Seq<PacketView>) -> Seq<u8> {
    carried_by(packets, Set::new(|pid: u16| is_audio_pid(packets, pid)), packets.len() as int)
}

/// `now` holds what `before` holds and the identifiers of audio among the first `n` streams.
spec fn noted(now: Set<u16>, before: Set<u16>, streams: Seq<(u8, u16)>, n: int) -> bool {
    forall|pid: u16| #[trigger]
        now.contains(pid) == (before.contains(pid) || audio_among(streams, n, pid))
}

/// Enters the packet identifiers that a packet's table names for audio.
fn note_audio(pids: &mut HashSet<u16>, packet: &Packet)
    ensures
        forall|pid: u16| #[trigger]
            final(pids)@.contains(pid) == (old(pids)@.contains(pid) || lists_audio(
                packet@.content,
                pid,
            )),
        old(pids)@.finite() ==> final(pids)@.finite(),
{
    if let TsContent::Pmt(streams) = &packet.content {
        let mut i: usize = 0;
        while i < streams.len()
            invariant
                i <= streams@.len(),
                old(pids)@.finite() ==> pids@.finite(),
                noted(pids@, old(pids)@, streams@, i as int),
            decreases streams@.len() - i,
        {
            let stream_type: u8 = streams[i].0;
            let ghost before = pids@;
            if matches!(stream_type, 0x03 | 0x04 | 0x0F | 0x11 | 0x81 | 0x80) {
                pids.insert(streams[i].1);
            }
            proof {
                assert forall|pid: u16| #[trigger]
                    pids@.contains(pid) == (old(pids)@.contains(pid) || audio_among(
                        streams@,
                        i + 1,
                        pid,
                    )) by {
                    let here = streams@[i as int];
                    assert(before.contains(pid) == (old(pids)@.contains(pid) || audio_among(
                        streams@,
                        i as int,
                        pid,
                    )));
                    assert(audio_among(streams@, i + 1, pid) <==> audio_among(
                        streams@,
                        i as int,
                        pid,
                    ) || (here.1 == pid && is_audio_type(here.0)));
                }
            }
            i += 1;
        }
    }
}

/// The audio in a series of packets.
pub fn audio_from_packets(packets: &Vec<Packet>) -> (r: Vec<u8>)
    ensures
        r@ == audio_of(packet_views(packets@)),
{
    let ghost all = packet_views(packets@);
    let mut pids: HashSet<u16> = HashSet::new();
    let mut i: usize = 0;
    while i < packets.len()
        invariant
            i <= packets@.len(),
            all == packet_views(packets@),
            pids@.finite(),
            forall|pid: u16|
                pids@.contains(pid) <==> exists|k: int|
                    0 <= k < i && lists_audio((#[trigger] all[k]).content, pid),
        decreases packets@.len() - i,
    {
        let ghost before = pids@;
        note_audio(&mut pids, &packets[i]);
        proof {
            assert(all[i as int] == packets@[i as int]@);
            assert forall|pid: u16|
                pids@.contains(pid) <==> exists|k: int|
                    0 <= k < i + 1 && lists_audio((#[trigger] all[k]).content, pid) by {
                if pids@.contains(pid) && !before.contains(pid) {
                    assert(lists_audio(all[i as int].content, pid));
                }
            }
        }
        i += 1;
    }
    let ghost named = pids@;
    assert(forall|pid: u16| named.contains(pid) <==> named_for_audio(all, pid));
    if pids.len() == 0 {
        proof {
            named.lemma_len0_is_empty();
            assert(forall|pid: u16| !named.contains(pid));
        }
        pids.insert(257);
        pids.insert(258);
    } else {
        proof {
            let some = named.choose();
            assert(named.contains(some));
            assert(named_for_audio(all, some));
        }
    }
    let ghost audio_pids = Set::new(|pid: u16| is_audio_pid(all, pid));
    assert(pids@ =~= audio_pids);
    let mut r: Vec<u8> = Vec::new();
    let mut j: usize = 0;
    while j < packets.len()
        invariant
            j <= packets@.len(),
            all == packet_views(packets@),
            pids@ == audio_pids,
            r@ == carried_by(all, audio_pids, j as int),
        decreases packets@.len() - j,
    {
        let packet: &Packet = &packets[j];
        assert(all[j as int] == packet@);
        let ghost before = r@;
        if pids.contains(&packet.pid) {
            match &packet.content {
                TsContent::PesStart(data) => r.extend_from_slice(data),
                TsContent::PesContinuation(data) => r.extend_from_slice(data),
                TsContent::Raw(data) => r.extend_from_slice(data),
                _ => {},
            }
            assert(r@ =~= before + carried(packet@.content));
        }
        j += 1;
    }
    r
}

/// Demux an MPEG-TS segment and extract audio data
pub fn demux(data: &[u8]) -> (r: Vec<u8>)
    ensures
        r@ == audio_of(packets_of(data@, no_kinds())),
{
    let packets: Vec<Packet> = read_packets(data);
    audio_from_packets(&packets)
}

/// What is shorter than one packet holds no audio.
pub proof fn law_less_than_a_packet_is_silent(data: Seq<u8>, kinds: PidKinds)
    requires
        data.len() < PACKET_SIZE,
    ensures
        audio_of(packets_of(data, kinds)) == Seq::<u8>::empty(),
{
}

/// A packet under another identifier than those of the audio adds nothing to it, and one under
/// such an identifier adds what it carries, at the end.
pub proof fn law_audio_is_in_packet_order(
    packets: Seq<PacketView>,
    packet: PacketView,
    pids: Set<u16>,
)
    ensures
        carried_by(packets.push(packet), pids, packets.len() as int + 1) == if pids.contains(packet.pid) {
            carried_by(packets, pids, packets.len() as int) + carried(packet.content)
        } else {
            carried_by(packets, pids, packets.len() as int)
        },
{
    lemma_carried_prefix(packets, packet, pids, packets.len() as int);
}

proof fn lemma_carried_prefix(
    packets: Seq<PacketView>,
    packet: PacketView,
    pids: Set<u16>,
    n: int,
)
    requires
        0 <= n <= packets.len(),
    ensures
        carried_by(packets.push(packet), pids, n) == carried_by(packets, pids, n),
    decreases n,
{
    if n > 0 {
        lemma_carried_prefix(packets, packet, pids, n - 1);
    }
}

/// A program map table among the packets names the packet identifier for an elementary stream of
/// the type.
pub open spec fn table_names(packets: Seq<PacketView>, stream_type: u8, pid: u16) -> bool {
    exists|i: int, k: int|
        0 <= i < packets.len() && packets[i].content is Pmt && 0 <= k
            < packets[i].content->Pmt_0.len() && #[trigger] packets[i].content->Pmt_0[k] == (
            stream_type,
            pid,
        )
}

/// A program map table among the packets names the packet identifier for audio: MPEG-1 or MPEG-2
/// audio, AAC in ADTS or in LOAS, private audio, or AC-3.
pub open spec fn table_names_audio(packets: Seq<PacketView>, pid: u16) -> bool {
    ||| table_names(packets, 3, pid)
    ||| table_names(packets, 4, pid)
    ||| table_names(packets, 15, pid)
    ||| table_names(packets, 17, pid)
    ||| table_names(packets, 128, pid)
    ||| table_names(packets, 129, pid)
}

/// The identifiers of audio are those that some table names for it; where no table names any, two
/// customary ones are taken.
pub proof fn law_audio_identifiers(packets: Seq<PacketView>, pid: u16)
    ensures
        table_names_audio(packets, pid) ==> is_audio_pid(packets, pid),
        (exists|other: u16| table_names_audio(packets, other)) ==> (is_audio_pid(packets, pid)
            ==> table_names_audio(packets, pid)),
        !(exists|other: u16| table_names_audio(packets, other)) ==> (is_audio_pid(packets, pid)
            <==> pid == 257 || pid == 258),
{
    lemma_named(packets, pid);
    if exists|other: u16| table_names_audio(packets, other) {
        let other = choose|other: u16| table_names_audio(packets, other);
        lemma_named(packets, other);
        assert(named_for_audio(packets, other));
    }
    if exists|other: u16| named_for_audio(packets, other) {
        let other = choose|other: u16| named_for_audio(packets, other);
        lemma_named(packets, other);
        assert(table_names_audio(packets, other));
    }
}

proof fn lemma_named(packets: Seq<PacketView>, pid: u16)
    ensures
        named_for_audio(packets, pid) <==> table_names_audio(packets, pid),
{
    if named_for_audio(packets, pid) {
        let i = choose|i: int|
            0 <= i < packets.len() && lists_audio((#[trigger] packets[i]).content, pid);
        let streams = packets[i].content->Pmt_0;
        let k = choose|k: int|
            0 <= k < streams.len() && (#[trigger] streams[k]).1 == pid && is_audio_type(
                streams[k].0,
            );
        assert(packets[i].content->Pmt_0[k] == (streams[k].0, pid));
        assert(table_names(packets, streams[k].0, pid));
    }
    if table_names_audio(packets, pid) {
        let stream_type = choose|t: u8| is_audio_type(t) && #[trigger] table_names(packets, t, pid);
        assert(table_names(packets, stream_type, pid));
        let (i, k) = choose|i: int, k: int|
            0 <= i < packets.len() && packets[i].content is Pmt && 0 <= k
                < packets[i].content->Pmt_0.len() && #[trigger] packets[i].content->Pmt_0[k] == (
                stream_type,
                pid,
            );
        let streams = packets[i].content->Pmt_0;
        assert(streams[k].1 == pid && is_audio_type(streams[k].0));
        assert(lists_audio(packets[i].content, pid));
    }
}

/// A packet under an identifier of audio appends to the audio all the bytes that it carries, every
/// one of them and nothing else, whether it starts a packet of the elementary stream, goes on with
/// one or is not interpreted; a packet under another identifier appends nothing.
pub proof fn law_packets_are_appended_whole(
    packets: Seq<PacketView>,
    pid: u16,
    bytes: Seq<u8>,
    content: TsContentView,
)
    requires
        content == TsContentView::PesStart(bytes) || content == TsContentView::PesContinuation(
            bytes,
        ) || content == TsContentView::Raw(bytes),
    ensures
        ({
            let longer = packets.push(PacketView { pid, content });
            let is_audio = table_names_audio(packets, pid) || (pid == 257 || pid == 258) && !(
            exists|other: u16| table_names_audio(packets, other));
            audio_of(longer) == if is_audio {
                audio_of(packets) + bytes
            } else {
                audio_of(packets)
            }
        }),
{
    let packet = PacketView { pid, content };
    law_audio_identifiers(packets, pid);
    lemma_same_identifiers(packets, packet);
    let pids = Set::new(|p: u16| is_audio_pid(packets, p));
    law_audio_is_in_packet_order(packets, packet, pids);
}

/// A packet without such bytes appends nothing, unless it is a program map table that names audio.
pub proof fn law_other_packets_are_silent(packets: Seq<PacketView>, packet: PacketView)
    requires
        match packet.content {
            TsContentView::Pat(_) | TsContentView::Other => true,
            TsContentView::Pmt(streams) => forall|k: int|
                0 <= k < streams.len() ==> !seq![3u8, 4, 15, 17, 128, 129].contains(
                    (#[trigger] streams[k]).0,
                ),
            _ => false,
        },
    ensures
        audio_of(packets.push(packet)) == audio_of(packets),
        audio_of(Seq::empty()) == Seq::<u8>::empty(),
{
    if let TsContentView::Pmt(streams) = packet.content {
        assert forall|pid: u16| !lists_audio(packet.content, pid) by {
            if lists_audio(packet.content, pid) {
                let k = choose|k: int|
                    0 <= k < streams.len() && (#[trigger] streams[k]).1 == pid && is_audio_type(
                        streams[k].0,
                    );
                let kinds = seq![3u8, 4, 15, 17, 128, 129];
                assert(kinds[0] == 3 && kinds[1] == 4 && kinds[2] == 15 && kinds[3] == 17
                    && kinds[4] == 128 && kinds[5] == 129);
                assert(kinds.contains(streams[k].0));
            }
        }
    }
    lemma_same_identifiers(packets, packet);
    let pids = Set::new(|p: u16| is_audio_pid(packets, p));
    law_audio_is_in_packet_order(packets, packet, pids);
    assert(audio_of(packets) + Seq::empty() =~= audio_of(packets));
}

/// A packet that names no audio leaves the identifiers of audio as they are.
proof fn lemma_same_identifiers(packets: Seq<PacketView>, packet: PacketView)
    requires
        forall|pid: u16| !lists_audio(packet.content, pid),
    ensures
        forall|pid: u16| #[trigger]
            is_audio_pid(packets.push(packet), pid) == is_audio_pid(packets, pid),
        Set::new(|p: u16| is_audio_pid(packets.push(packet), p)) == Set::new(
            |p: u16| is_audio_pid(packets, p),
        ),
{
    let longer = packets.push(packet);
    assert forall|pid: u16| #[trigger]
        named_for_audio(longer, pid) == named_for_audio(packets, pid) by {
        if named_for_audio(packets, pid) {
            let i = choose|i: int|
                0 <= i < packets.len() && lists_audio((#[trigger] packets[i]).content, pid);
            assert(longer[i] == packets[i]);
        }
        if named_for_audio(longer, pid) {
            let i = choose|i: int|
                0 <= i < longer.len() && lists_audio((#[trigger] longer[i]).content, pid);
            assert(i < packets.len());
            assert(longer[i] == packets[i]);
        }
    }
    assert forall|pid: u16| #[trigger]
        is_audio_pid(longer, pid) == is_audio_pid(packets, pid) by {
        if exists|p: u16| named_for_audio(packets, p) {
            let p = choose|p: u16| named_for_audio(packets, p);
            assert(named_for_audio(longer, p));
        }
        if exists|p: u16| named_for_audio(longer, p) {
            let p = choose|p: u16| named_for_audio(longer, p);
            assert(named_for_audio(packets, p));
        }
    }
    assert(Set::new(|p: u16| is_audio_pid(longer, p)) =~= Set::new(
        |p: u16| is_audio_pid(packets, p),
    ));
}

/// It makes no difference where among the packets a table stands: one that comes late holds for
/// what came before it, too.
pub proof fn law_tables_hold_throughout(
    a: Seq<PacketView>,
    table: PacketView,
    b: Seq<PacketView>,
)
    requires
        table.content is Pmt,
    ensures
        audio_of(a + seq![table] + b) == audio_of(seq![table] + a + b),
{
    let here = a + seq![table] + b;
    let first = seq![table] + a + b;
    let n = a.len() as int;
    assert forall|pid: u16| #[trigger]
        named_for_audio(here, pid) == named_for_audio(first, pid) by {
        if named_for_audio(here, pid) {
            let i = choose|i: int|
                0 <= i < here.len() && lists_audio((#[trigger] here[i]).content, pid);
            let j = if i < n {
                i + 1
            } else if i == n {
                0
            } else {
                i
            };
            assert(first[j] == here[i]);
        }
        if named_for_audio(first, pid) {
            let i = choose|i: int|
                0 <= i < first.len() && lists_audio((#[trigger] first[i]).content, pid);
            let j = if i == 0 {
                n
            } else if i <= n {
                i - 1
            } else {
                i
            };
            assert(here[j] == first[i]);
        }
    }
    assert forall|pid: u16| #[trigger] is_audio_pid(here, pid) == is_audio_pid(first, pid) by {
        if exists|p: u16| named_for_audio(here, p) {
            let p = choose|p: u16| named_for_audio(here, p);
            assert(named_for_audio(first, p));
        }
        if exists|p: u16| named_for_audio(first, p) {
            let p = choose|p: u16| named_for_audio(first, p);
            assert(named_for_audio(here, p));
        }
    }
    let pids = Set::new(|p: u16| is_audio_pid(here, p));
    assert(pids =~= Set::new(|p: u16| is_audio_pid(first, p)));
    lemma_table_moves(a, table, b, pids, here.len() as int);
}

proof fn lemma_table_moves(
    a: Seq<PacketView>,
    table: PacketView,
    b: Seq<PacketView>,
    pids: Set<u16>,
    k: int,
)
    requires
        table.content is Pmt,
        0 <= k <= a.len() + 1 + b.len(),
    ensures
        k > a.len() ==> carried_by(a + seq![table] + b, pids, k) == carried_by(
            seq![table] + a + b,
            pids,
            k,
        ),
        k <= a.len() ==> carried_by(a + seq![table] + b, pids, k) == carried_by(
            seq![table] + a + b,
            pids,
            k + 1,
        ),
    decreases k,
{
    let here = a + seq![table] + b;
    let first = seq![table] + a + b;
    if k == 0 {
        assert(first[0] == table);
        assert(carried_by(first, pids, 0) =~= Seq::empty());
        assert(carried_by(first, pids, 1) =~= Seq::empty());
    } else {
        lemma_table_moves(a, table, b, pids, k - 1);
        if k <= a.len() {
            assert(here[k - 1] == first[k]);
        } else if k == a.len() + 1 {
            assert(here[k - 1] == table);
            assert(carried_by(here, pids, k) =~= carried_by(here, pids, k - 1));
        } else {
            assert(here[k - 1] == first[k - 1]);
        }
    }
}

/// A transport stream is read in pieces of 188 bytes: the first is the first packet, and the rest
/// is read with what that packet taught of packet identifiers. What is left over at the end, being
/// less than a packet, makes no difference.
pub proof fn law_packets_follow_each_other(
    first: Seq<u8>,
    rest: Seq<u8>,
    kinds: PidKinds,
    packet: PacketView,
)
    requires
        first.len() == 188,
        !table_overruns(first + rest, kinds),
    ensures
        ts_packet(first, kinds) == Some(packet) ==> packets_of(first + rest, kinds) == seq![packet]
            + packets_of(rest, kinds_after(kinds, packet)),
        ts_packet(first, kinds) is None ==> packets_of(first + rest, kinds) == Seq::<
            PacketView,
        >::empty(),
        rest.len() < 188 ==> packets_of(rest, kinds) == Seq::<PacketView>::empty(),
{
    let data = first + rest;
    assert(data.take(188) =~= first);
    assert(data.skip(188) =~= rest);
}

/// A program association table makes the identifiers that it names those of program map tables, a
/// program map table makes those that it names elementary streams, and nothing else is changed.
pub proof fn law_what_tables_teach(
    kinds: PidKinds,
    pids: Seq<u16>,
    streams: Seq<(u8, u16)>,
    from: u16,
    pid: u16,
)
    ensures
        ({
            let after = kinds_after(
                kinds,
                PacketView { pid: from, content: TsContentView::Pat(pids) },
            );
            &&& pids.contains(pid) ==> after.contains_pair(pid, true)
            &&& !pids.contains(pid) ==> (after.dom().contains(pid) <==> kinds.dom().contains(pid))
                && after[pid] == kinds[pid]
        }),
        ({
            let after = kinds_after(
                kinds,
                PacketView { pid: from, content: TsContentView::Pmt(streams) },
            );
            let named = exists|k: int| 0 <= k < streams.len() && (#[trigger] streams[k]).1 == pid;
            &&& named ==> after.contains_pair(pid, false)
            &&& !named ==> (after.dom().contains(pid) <==> kinds.dom().contains(pid))
                && after[pid] == kinds[pid]
        }),
{
    lemma_tables_taught(kinds, pids, pid);
    lemma_streams_taught(kinds, streams, pid);
}

proof fn lemma_tables_taught(kinds: PidKinds, pids: Seq<u16>, pid: u16)
    ensures
        pids.contains(pid) ==> with_tables(kinds, pids).contains_pair(pid, true),
        !pids.contains(pid) ==> (with_tables(kinds, pids).dom().contains(pid) <==> kinds.dom().contains(
            pid,
        )) && with_tables(kinds, pids)[pid] == kinds[pid],
    decreases pids.len(),
{
    if pids.len() > 0 {
        let front = pids.drop_last();
        lemma_tables_taught(kinds, front, pid);
        assert(front.push(pids.last()) =~= pids);
        vstd::seq_lib::lemma_seq_contains_after_push(front, pids.last(), pid);
    }
}

proof fn lemma_streams_taught(kinds: PidKinds, streams: Seq<(u8, u16)>, pid: u16)
    ensures
        ({
            let after = with_streams(kinds, streams);
            let named = exists|k: int| 0 <= k < streams.len() && (#[trigger] streams[k]).1 == pid;
            &&& named ==> after.contains_pair(pid, false)
            &&& !named ==> (after.dom().contains(pid) <==> kinds.dom().contains(pid))
                && after[pid] == kinds[pid]
        }),
    decreases streams.len(),
{
    if streams.len() > 0 {
        let front = streams.drop_last();
        lemma_streams_taught(kinds, front, pid);
        if exists|k: int| 0 <= k < streams.len() && (#[trigger] streams[k]).1 == pid {
            let k = choose|k: int| 0 <= k < streams.len() && (#[trigger] streams[k]).1 == pid;
            if k < front.len() {
                assert(front[k].1 == pid);
            }
        } else {
            assert forall|k: int| 0 <= k < front.len() implies (#[trigger] front[k]).1 != pid by {
                assert(front[k] == streams[k]);
            }
            assert(streams[streams.len() - 1].1 != pid);
        }
    }
}

/// A packet is left out only where it is a program map table, under an identifier that a program
/// association table named, whose program information does not fit into its section: nothing else
/// is.
pub proof fn law_only_broken_tables_are_left_out(b: Seq<u8>, kinds: PidKinds)
    requires
        b.len() >= 188,
    ensures
        ({
            let pid = (b[1] as int % 32) * 256 + b[2] as int;
            let at = if b[3] as int / 32 % 2 == 1 {
                5 + b[4] as int
            } else {
                4
            };
            let section = (b[at + 2] as int % 4) * 256 + b[at + 3] as int;
            let information = (b[at + 11] as int % 4) * 256 + b[at + 12] as int;
            table_overruns(b, kinds) <==> b[3] as int / 16 % 2 == 1 && 32 <= pid <= 8190 && pid
                != 8187 && kinds.contains_pair(pid as u16, true) && at + 13 <= 188 && section >= 13
                && information + 13 > section
        }),
{
}

/// A list of packets says what each of them says, in order.
pub proof fn law_packets_say(packets: Seq<Packet>, i: int)
    requires
        0 <= i < packets.len(),
    ensures
        packet_views(packets).len() == packets.len(),
        packet_views(packets)[i].pid == packets[i].pid,
        packet_views(packets)[i].content == packets[i].content@,
{
}

} // verus!
