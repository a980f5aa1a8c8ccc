//! Wire types and the stateless packet codec.
//!
//! One UDP datagram carries exactly one packet. Six packet shapes exist:
//! three requests and three responses. No explicit tag tells them apart;
//! the decoder first checks the connect magic constant, then tries the
//! action code at offset 8 (requests that lead with a connection id), then
//! the action code at offset 0 (responses).

use vstd::prelude::*;

use crate::wire::{
    lemma_be16_of_bytes, lemma_be32_of_bytes, lemma_be32_of_u64_hi, lemma_be64_of_bytes,
    lemma_not_magic,
    be16_at, be32_at, be64_at, push_u16_be, push_u32_be, push_u64_be, read_u16_at, read_u32_at,
    read_u64_at, u16_bytes, u32_bytes, u64_bytes,
};
use vstd::arithmetic::div_mod::{lemma_mod_multiples_basic, lemma_mod_sub_multiples_vanish, lemma_small_mod};

verus! {

/// The magic constant that opens every connect request.
pub const CONNECT_MAGIC: u64 = 0x41727101980;

/// The action code carried by every packet: which of the three exchanges
/// (connect, announce, scrape) the packet belongs to.
#[derive(Debug, Copy, Clone, Eq, PartialEq, Structural)]
pub enum Action {
    Connect,
    Announce,
    Scrape,
}

/// The 32-bit wire code of an action.
pub open spec fn action_code(a: Action) -> u32 {
    match a {
        Action::Connect => 0,
        Action::Announce => 1,
        Action::Scrape => 2,
    }
}

/// The action denoted by a 32-bit wire value, if any.
pub open spec fn action_of_code(v: u32) -> Option<Action> {
    if v == 0 {
        Some(Action::Connect)
    } else if v == 1 {
        Some(Action::Announce)
    } else if v == 2 {
        Some(Action::Scrape)
    } else {
        None
    }
}

impl Action {
    /// The wire code of this action; total, one code per member.
    pub fn code(self) -> (r: u32)
        ensures
            r == action_code(self),
    {
        match self {
            Action::Connect => 0,
            Action::Announce => 1,
            Action::Scrape => 2,
        }
    }

    /// Parses a 32-bit wire value; every value outside {0, 1, 2} is rejected.
    pub fn from_code(v: u32) -> (r: Option<Action>)
        ensures
            r == action_of_code(v),
    {
        if v == 0 {
            Some(Action::Connect)
        } else if v == 1 {
            Some(Action::Announce)
        } else if v == 2 {
            Some(Action::Scrape)
        } else {
            None
        }
    }
}

/// The event an announcing peer reports.
#[derive(Debug, Copy, Clone, Eq, PartialEq, Hash, Structural)]
pub enum AnnounceEvent {
    NoEvent,
    Completed,
    Started,
    Stopped,
}

/// The 32-bit wire code of an announce event.
pub open spec fn event_code(e: AnnounceEvent) -> u32 {
    match e {
        AnnounceEvent::NoEvent => 0,
        AnnounceEvent::Completed => 1,
        AnnounceEvent::Started => 2,
        AnnounceEvent::Stopped => 3,
    }
}

/// The announce event denoted by a 32-bit wire value, if any.
pub open spec fn event_of_code(v: u32) -> Option<AnnounceEvent> {
    if v == 0 {
        Some(AnnounceEvent::NoEvent)
    } else if v == 1 {
        Some(AnnounceEvent::Completed)
    } else if v == 2 {
        Some(AnnounceEvent::Started)
    } else if v == 3 {
        Some(AnnounceEvent::Stopped)
    } else {
        None
    }
}

impl AnnounceEvent {
    /// The wire code of this event; total, one code per member.
    pub fn code(self) -> (r: u32)
        ensures
            r == event_code(self),
    {
        match self {
            AnnounceEvent::NoEvent => 0,
            AnnounceEvent::Completed => 1,
            AnnounceEvent::Started => 2,
            AnnounceEvent::Stopped => 3,
        }
    }

    /// Parses a 32-bit wire value; every value outside {0, 1, 2, 3} is rejected.
    pub fn from_code(v: u32) -> (r: Option<AnnounceEvent>)
        ensures
            r == event_of_code(v),
    {
        if v == 0 {
            Some(AnnounceEvent::NoEvent)
        } else if v == 1 {
            Some(AnnounceEvent::Completed)
        } else if v == 2 {
            Some(AnnounceEvent::Started)
        } else if v == 3 {
            Some(AnnounceEvent::Stopped)
        } else {
            None
        }
    }
}

/// The 20-byte identifier of the content a swarm shares.
#[derive(Debug, Clone, Eq, PartialEq, Hash)]
pub struct InfoHash {
    pub hash: Vec<u8>,
}

impl InfoHash {
    /// A content hash holds exactly 20 bytes.
    pub open spec fn wf(self) -> bool {
        self.hash@.len() == 20
    }
}

/// The 20-byte identifier an announcing peer chose for itself.
#[derive(Debug, Clone, Eq, PartialEq, Hash)]
pub struct PeerId {
    pub inner: Vec<u8>,
}

impl PeerId {
    /// A peer identifier holds exactly 20 bytes.
    pub open spec fn wf(self) -> bool {
        self.inner@.len() == 20
    }
}

/// One advertised peer: an IPv4 address held as its 32-bit wire value,
/// and a port. Six bytes on the wire.
#[derive(Debug, Copy, Clone, Eq, PartialEq, Structural)]
pub struct Peer {
    pub ip_address: u32,
    pub port: u16,
}

/// Per-hash swarm counters in a scrape response. Twelve bytes on the wire.
#[derive(Debug, Copy, Clone, Eq, PartialEq, Structural)]
pub struct ScrapeData {
    pub seeders: u32,
    pub completed: u32,
    pub leechers: u32,
}

/// A connect request: the magic constant, an action and a transaction id.
#[derive(Debug, Copy, Clone, Eq, PartialEq, Structural)]
pub struct ConnectRequest {
    pub protocol_id: u64,
    pub action: Action,
    pub transaction_id: u32,
}

/// A connect response: the echoed transaction id and a freshly minted
/// connection id.
#[derive(Debug, Copy, Clone, Eq, PartialEq, Structural)]
pub struct ConnectResponse {
    pub action: Action,
    pub transaction_id: u32,
    pub connection_id: u64,
}

/// An announce request: the fixed 96-byte body, and an optional trailing
/// port whose presence is inferred from the remaining byte count alone.
#[derive(Debug, Clone, Eq, PartialEq)]
pub struct AnnounceRequest {
    pub connection_id: u64,
    pub action: Action,
    pub transaction_id: u32,
    pub info_hash: InfoHash,
    pub peer_id: PeerId,
    pub downloaded: u64,
    pub left: u64,
    pub uploaded: u64,
    pub event: AnnounceEvent,
    pub ip_address: u32,
    pub key: u32,
    pub peers_wanted: u32,
    pub port: Option<u16>,
}

/// An announce response: a fixed 20-byte head and a trailing peer list
/// that occupies all remaining bytes, six per peer.
#[derive(Debug, Clone, Eq, PartialEq)]
pub struct AnnounceResponse {
    pub action: Action,
    pub transaction_id: u32,
    pub interval: u32,
    pub leechers: u32,
    pub seeders: u32,
    pub peers: Vec<Peer>,
}

/// A scrape request: a fixed 16-byte head and a trailing hash list that
/// occupies all remaining bytes, twenty per hash.
#[derive(Debug, Clone, Eq, PartialEq)]
pub struct ScrapeRequest {
    pub connection_id: u64,
    pub action: Action,
    pub transaction_id: u32,
    pub hashes: Vec<InfoHash>,
}

/// A scrape response: a fixed 8-byte head and a trailing counter list that
/// occupies all remaining bytes, twelve per record, positionally aligned
/// with the request's hashes.
#[derive(Debug, Clone, Eq, PartialEq)]
pub struct ScrapeResponse {
    pub action: Action,
    pub transaction_id: u32,
    pub data: Vec<ScrapeData>,
}

/// One typed packet, any of the six shapes.
#[derive(Debug, Clone, Eq, PartialEq)]
pub enum TrackerPacket {
    ConnectRequest(ConnectRequest),
    ConnectResponse(ConnectResponse),
    AnnounceRequest(AnnounceRequest),
    AnnounceResponse(AnnounceResponse),
    ScrapeRequest(ScrapeRequest),
    ScrapeResponse(ScrapeResponse),
}

/// What decoding one datagram yields.
#[derive(Debug, Clone, Eq, PartialEq)]
pub enum DecodeResult {
    /// The datagram parsed as one of the six shapes.
    Packet(TrackerPacket),
    /// Fewer than 16 bytes: not enough data to disambiguate anything.
    Incomplete,
    /// Long enough, but no known magic/action combination matched, or a
    /// fixed-size record read ran past the end of the buffer.
    Unrecognized,
}

/// The mathematical image of one packet: fixed fields as they stand, every
/// byte blob and list as a sequence.
#[verifier::ext_equal]
pub ghost enum PacketModel {
    ConnectRequest { protocol_id: u64, action: Action, transaction_id: u32 },
    ConnectResponse { action: Action, transaction_id: u32, connection_id: u64 },
    AnnounceRequest {
        connection_id: u64,
        action: Action,
        transaction_id: u32,
        info_hash: Seq<u8>,
        peer_id: Seq<u8>,
        downloaded: u64,
        left: u64,
        uploaded: u64,
        event: AnnounceEvent,
        ip_address: u32,
        key: u32,
        peers_wanted: u32,
        port: Option<u16>,
    },
    AnnounceResponse {
        action: Action,
        transaction_id: u32,
        interval: u32,
        leechers: u32,
        seeders: u32,
        peers: Seq<Peer>,
    },
    ScrapeRequest { connection_id: u64, action: Action, transaction_id: u32, hashes: Seq<Seq<u8>> },
    ScrapeResponse { action: Action, transaction_id: u32, data: Seq<ScrapeData> },
}

/// The mathematical image of a decode outcome.
#[verifier::ext_equal]
pub ghost enum DecodeModel {
    Packet(PacketModel),
    Incomplete,
    Unrecognized,
}

impl View for TrackerPacket {
    type V = PacketModel;

    open spec fn view(&self) -> PacketModel {
        match self {
            TrackerPacket::ConnectRequest(p) => PacketModel::ConnectRequest {
                protocol_id: p.protocol_id,
                action: p.action,
                transaction_id: p.transaction_id,
            },
            TrackerPacket::ConnectResponse(p) => PacketModel::ConnectResponse {
                action: p.action,
                transaction_id: p.transaction_id,
                connection_id: p.connection_id,
            },
            TrackerPacket::AnnounceRequest(p) => PacketModel::AnnounceRequest {
                connection_id: p.connection_id,
                action: p.action,
                transaction_id: p.transaction_id,
                info_hash: p.info_hash.hash@,
                peer_id: p.peer_id.inner@,
                downloaded: p.downloaded,
                left: p.left,
                uploaded: p.uploaded,
                event: p.event,
                ip_address: p.ip_address,
                key: p.key,
                peers_wanted: p.peers_wanted,
                port: p.port,
            },
            TrackerPacket::AnnounceResponse(p) => PacketModel::AnnounceResponse {
                action: p.action,
                transaction_id: p.transaction_id,
                interval: p.interval,
                leechers: p.leechers,
                seeders: p.seeders,
                peers: p.peers@,
            },
            TrackerPacket::ScrapeRequest(p) => PacketModel::ScrapeRequest {
                connection_id: p.connection_id,
                action: p.action,
                transaction_id: p.transaction_id,
                hashes: p.hashes@.map_values(|h: InfoHash| h.hash@),
            },
            TrackerPacket::ScrapeResponse(p) => PacketModel::ScrapeResponse {
                action: p.action,
                transaction_id: p.transaction_id,
                data: p.data@,
            },
        }
    }
}

impl View for DecodeResult {
    type V = DecodeModel;

    open spec fn view(&self) -> DecodeModel {
        match self {
            DecodeResult::Packet(p) => DecodeModel::Packet(p@),
            DecodeResult::Incomplete => DecodeModel::Incomplete,
            DecodeResult::Unrecognized => DecodeModel::Unrecognized,
        }
    }
}

impl PacketModel {
    /// Structural validity: every byte blob in the packet has its fixed
    /// wire length. Encoding is defined for exactly these values.
    pub open spec fn wf(self) -> bool {
        match self {
            PacketModel::AnnounceRequest { info_hash, peer_id, .. } => info_hash.len() == 20
                && peer_id.len() == 20,
            PacketModel::ScrapeRequest { hashes, .. } => forall|i: int|
                0 <= i < hashes.len() ==> #[trigger] hashes[i].len() == 20,
            _ => true,
        }
    }

    /// The packet decodes back to itself from its own encoding. The wire
    /// format has no unambiguous type tag, so a few field values make one
    /// shape's bytes a valid image of another shape; those are excluded:
    /// a connect request must open with the magic constant; a request's
    /// connection id must not equal the magic constant; a response's bytes
    /// 8..12 (a connection id's upper half, an interval, a first seeder
    /// count) must not equal a request action code; and every action field
    /// must match its packet shape.
    pub open spec fn unambiguous(self) -> bool {
        match self {
            PacketModel::ConnectRequest { protocol_id, .. } => protocol_id == CONNECT_MAGIC,
            PacketModel::ConnectResponse { action, connection_id, .. } => action == Action::Connect
                && (connection_id >> 32) != 1 && (connection_id >> 32) != 2,
            PacketModel::AnnounceRequest { action, connection_id, .. } => action
                == Action::Announce && connection_id != CONNECT_MAGIC,
            PacketModel::AnnounceResponse { action, interval, .. } => action == Action::Announce
                && interval != 1 && interval != 2,
            PacketModel::ScrapeRequest { action, connection_id, .. } => action == Action::Scrape
                && connection_id != CONNECT_MAGIC,
            PacketModel::ScrapeResponse { action, data, .. } => action == Action::Scrape
                && data.len() >= 1 && data[0].seeders != 1 && data[0].seeders != 2,
        }
    }
}

/// The six bytes of one peer: address, then port.
pub open spec fn peer_bytes(p: Peer) -> Seq<u8> {
    u32_bytes(p.ip_address) + u16_bytes(p.port)
}

/// The bytes of a peer list, in order.
pub open spec fn peers_bytes(ps: Seq<Peer>) -> Seq<u8>
    decreases ps.len(),
{
    if ps.len() == 0 {
        Seq::empty()
    } else {
        peer_bytes(ps[0]) + peers_bytes(ps.drop_first())
    }
}

/// The bytes of a hash list, in order.
pub open spec fn hashes_bytes(hs: Seq<Seq<u8>>) -> Seq<u8>
    decreases hs.len(),
{
    if hs.len() == 0 {
        Seq::empty()
    } else {
        hs[0] + hashes_bytes(hs.drop_first())
    }
}

/// The twelve bytes of one counter record: seeders, completed, leechers.
pub open spec fn data_bytes(d: ScrapeData) -> Seq<u8> {
    u32_bytes(d.seeders) + u32_bytes(d.completed) + u32_bytes(d.leechers)
}

/// The bytes of a counter list, in order.
pub open spec fn datas_bytes(ds: Seq<ScrapeData>) -> Seq<u8>
    decreases ds.len(),
{
    if ds.len() == 0 {
        Seq::empty()
    } else {
        data_bytes(ds[0]) + datas_bytes(ds.drop_first())
    }
}

/// The bytes of an optional trailing port: two if present, none if absent.
pub open spec fn port_bytes(p: Option<u16>) -> Seq<u8> {
    match p {
        Some(x) => u16_bytes(x),
        None => Seq::empty(),
    }
}

/// The exact byte image of one packet: the layouts of the wire format,
/// big-endian throughout, no length prefix, no padding.
pub open spec fn encode_model(m: PacketModel) -> Seq<u8> {
    match m {
        PacketModel::ConnectRequest { protocol_id, action, transaction_id } => u64_bytes(
            protocol_id,
        ) + u32_bytes(action_code(action)) + u32_bytes(transaction_id),
        PacketModel::ConnectResponse { action, transaction_id, connection_id } => u32_bytes(
            action_code(action),
        ) + u32_bytes(transaction_id) + u64_bytes(connection_id),
        PacketModel::AnnounceRequest {
            connection_id,
            action,
            transaction_id,
            info_hash,
            peer_id,
            downloaded,
            left,
            uploaded,
            event,
            ip_address,
            key,
            peers_wanted,
            port,
        } => u64_bytes(connection_id) + u32_bytes(action_code(action)) + u32_bytes(transaction_id)
            + info_hash + peer_id + u64_bytes(downloaded) + u64_bytes(left) + u64_bytes(uploaded)
            + u32_bytes(event_code(event)) + u32_bytes(ip_address) + u32_bytes(key) + u32_bytes(
            peers_wanted,
        ) + port_bytes(port),
        PacketModel::AnnounceResponse {
            action,
            transaction_id,
            interval,
            leechers,
            seeders,
            peers,
        } => u32_bytes(action_code(action)) + u32_bytes(transaction_id) + u32_bytes(interval)
            + u32_bytes(leechers) + u32_bytes(seeders) + peers_bytes(peers),
        PacketModel::ScrapeRequest { connection_id, action, transaction_id, hashes } => u64_bytes(
            connection_id,
        ) + u32_bytes(action_code(action)) + u32_bytes(transaction_id) + hashes_bytes(hashes),
        PacketModel::ScrapeResponse { action, transaction_id, data } => u32_bytes(
            action_code(action),
        ) + u32_bytes(transaction_id) + datas_bytes(data),
    }
}

/// The peers read by cutting six-byte records from offset `i` to the end.
pub open spec fn parse_peers(b: Seq<u8>, i: int) -> Seq<Peer>
    decreases b.len() - i,
{
    if 0 <= i && i + 6 <= b.len() {
        seq![Peer { ip_address: be32_at(b, i), port: be16_at(b, i + 4) }] + parse_peers(b, i + 6)
    } else {
        Seq::empty()
    }
}

/// The hashes read by cutting twenty-byte records from offset `i` to the end.
pub open spec fn parse_hashes(b: Seq<u8>, i: int) -> Seq<Seq<u8>>
    decreases b.len() - i,
{
    if 0 <= i && i + 20 <= b.len() {
        seq![b.subrange(i, i + 20)] + parse_hashes(b, i + 20)
    } else {
        Seq::empty()
    }
}

/// The counter records read by cutting twelve-byte records from offset `i`
/// to the end.
pub open spec fn parse_datas(b: Seq<u8>, i: int) -> Seq<ScrapeData>
    decreases b.len() - i,
{
    if 0 <= i && i + 12 <= b.len() {
        seq![
            ScrapeData {
                seeders: be32_at(b, i),
                completed: be32_at(b, i + 4),
                leechers: be32_at(b, i + 8),
            },
        ] + parse_datas(b, i + 12)
    } else {
        Seq::empty()
    }
}

/// A connect request read out of `b`: the action at offset 8 must be a
/// known code; everything past byte 16 is ignored.
pub open spec fn parse_connect_request(b: Seq<u8>) -> DecodeModel
    recommends
        b.len() >= 16,
{
    match action_of_code(be32_at(b, 8)) {
        Some(a) => DecodeModel::Packet(
            PacketModel::ConnectRequest {
                protocol_id: be64_at(b, 0),
                action: a,
                transaction_id: be32_at(b, 12),
            },
        ),
        None => DecodeModel::Unrecognized,
    }
}

/// An announce request read out of `b`: the fixed body is 96 bytes; the
/// event must be a known code; the trailing port is present exactly when
/// at least two bytes remain past the fixed body.
pub open spec fn parse_announce_request(b: Seq<u8>) -> DecodeModel
    recommends
        b.len() >= 16,
{
    if b.len() < 96 {
        DecodeModel::Unrecognized
    } else {
        match event_of_code(be32_at(b, 80)) {
            Some(ev) => DecodeModel::Packet(
                PacketModel::AnnounceRequest {
                    connection_id: be64_at(b, 0),
                    action: Action::Announce,
                    transaction_id: be32_at(b, 12),
                    info_hash: b.subrange(16, 36),
                    peer_id: b.subrange(36, 56),
                    downloaded: be64_at(b, 56),
                    left: be64_at(b, 64),
                    uploaded: be64_at(b, 72),
                    event: ev,
                    ip_address: be32_at(b, 84),
                    key: be32_at(b, 88),
                    peers_wanted: be32_at(b, 92),
                    port: if b.len() >= 98 {
                        Some(be16_at(b, 96))
                    } else {
                        None
                    },
                },
            ),
            None => DecodeModel::Unrecognized,
        }
    }
}

/// A scrape request read out of `b`: the hash list fills all bytes past
/// the 16-byte head; a remainder shorter than one hash is malformed.
pub open spec fn parse_scrape_request(b: Seq<u8>) -> DecodeModel
    recommends
        b.len() >= 16,
{
    if (b.len() - 16) % 20 != 0 {
        DecodeModel::Unrecognized
    } else {
        DecodeModel::Packet(
            PacketModel::ScrapeRequest {
                connection_id: be64_at(b, 0),
                action: Action::Scrape,
                transaction_id: be32_at(b, 12),
                hashes: parse_hashes(b, 16),
            },
        )
    }
}

/// A connect response read out of `b`; everything past byte 16 is ignored.
pub open spec fn parse_connect_response(b: Seq<u8>) -> DecodeModel
    recommends
        b.len() >= 16,
{
    DecodeModel::Packet(
        PacketModel::ConnectResponse {
            action: Action::Connect,
            transaction_id: be32_at(b, 4),
            connection_id: be64_at(b, 8),
        },
    )
}

/// An announce response read out of `b`: the peer list fills all bytes
/// past the 20-byte head; a remainder shorter than one peer is malformed.
pub open spec fn parse_announce_response(b: Seq<u8>) -> DecodeModel
    recommends
        b.len() >= 16,
{
    if b.len() < 20 || (b.len() - 20) % 6 != 0 {
        DecodeModel::Unrecognized
    } else {
        DecodeModel::Packet(
            PacketModel::AnnounceResponse {
                action: Action::Announce,
                transaction_id: be32_at(b, 4),
                interval: be32_at(b, 8),
                leechers: be32_at(b, 12),
                seeders: be32_at(b, 16),
                peers: parse_peers(b, 20),
            },
        )
    }
}

/// A scrape response read out of `b`: the counter list fills all bytes
/// past the 8-byte head; a remainder shorter than one record is malformed.
pub open spec fn parse_scrape_response(b: Seq<u8>) -> DecodeModel
    recommends
        b.len() >= 16,
{
    if (b.len() - 8) % 12 != 0 {
        DecodeModel::Unrecognized
    } else {
        DecodeModel::Packet(
            PacketModel::ScrapeResponse {
                action: Action::Scrape,
                transaction_id: be32_at(b, 4),
                data: parse_datas(b, 8),
            },
        )
    }
}

/// What one datagram means. Under 16 bytes nothing can be disambiguated.
/// The magic constant in bytes 0..8 marks a connect request and takes
/// priority over everything else. Otherwise bytes 8..12 are tried as a
/// request action (requests lead with a 64-bit connection id), and then
/// bytes 0..4 as a response action (responses lead with their action).
pub open spec fn decode_model(b: Seq<u8>) -> DecodeModel {
    if b.len() < 16 {
        DecodeModel::Incomplete
    } else if be64_at(b, 0) == CONNECT_MAGIC {
        parse_connect_request(b)
    } else if be32_at(b, 8) == 1 {
        parse_announce_request(b)
    } else if be32_at(b, 8) == 2 {
        parse_scrape_request(b)
    } else if be32_at(b, 0) == 0 {
        parse_connect_response(b)
    } else if be32_at(b, 0) == 1 {
        parse_announce_response(b)
    } else if be32_at(b, 0) == 2 {
        parse_scrape_response(b)
    } else {
        DecodeModel::Unrecognized
    }
}

/// A peer list's bytes grow by one six-byte record per appended peer.
pub proof fn lemma_peers_bytes_push(ps: Seq<Peer>, p: Peer)
    ensures
        peers_bytes(ps.push(p)) == peers_bytes(ps) + peer_bytes(p),
    decreases ps.len(),
{
    if ps.len() == 0 {
        assert(ps.push(p)[0] == p);
        assert(ps.push(p).drop_first() =~= Seq::<Peer>::empty());
        assert(peers_bytes(Seq::<Peer>::empty()) =~= Seq::<u8>::empty());
        assert(peers_bytes(ps) =~= Seq::<u8>::empty());
        assert(peers_bytes(ps.push(p)) =~= peers_bytes(ps) + peer_bytes(p));
    } else {
        assert(ps.push(p).drop_first() =~= ps.drop_first().push(p));
        lemma_peers_bytes_push(ps.drop_first(), p);
        assert(peers_bytes(ps.push(p)) =~= peers_bytes(ps) + peer_bytes(p));
    }
}

/// A hash list's bytes grow by the appended hash's bytes.
pub proof fn lemma_hashes_bytes_push(hs: Seq<Seq<u8>>, h: Seq<u8>)
    ensures
        hashes_bytes(hs.push(h)) == hashes_bytes(hs) + h,
    decreases hs.len(),
{
    if hs.len() == 0 {
        assert(hs.push(h)[0] == h);
        assert(hs.push(h).drop_first() =~= Seq::<Seq<u8>>::empty());
        assert(hashes_bytes(Seq::<Seq<u8>>::empty()) =~= Seq::<u8>::empty());
        assert(hashes_bytes(hs) =~= Seq::<u8>::empty());
        assert(hashes_bytes(hs.push(h)) =~= hashes_bytes(hs) + h);
    } else {
        assert(hs.push(h).drop_first() =~= hs.drop_first().push(h));
        lemma_hashes_bytes_push(hs.drop_first(), h);
        assert(hashes_bytes(hs.push(h)) =~= hashes_bytes(hs) + h);
    }
}

/// A counter list's bytes grow by one twelve-byte record per appended one.
pub proof fn lemma_datas_bytes_push(ds: Seq<ScrapeData>, d: ScrapeData)
    ensures
        datas_bytes(ds.push(d)) == datas_bytes(ds) + data_bytes(d),
    decreases ds.len(),
{
    if ds.len() == 0 {
        assert(ds.push(d)[0] == d);
        assert(ds.push(d).drop_first() =~= Seq::<ScrapeData>::empty());
        assert(datas_bytes(Seq::<ScrapeData>::empty()) =~= Seq::<u8>::empty());
        assert(datas_bytes(ds) =~= Seq::<u8>::empty());
        assert(datas_bytes(ds.push(d)) =~= datas_bytes(ds) + data_bytes(d));
    } else {
        assert(ds.push(d).drop_first() =~= ds.drop_first().push(d));
        lemma_datas_bytes_push(ds.drop_first(), d);
        assert(datas_bytes(ds.push(d)) =~= datas_bytes(ds) + data_bytes(d));
    }
}

/// A peer list of n peers occupies exactly 6 * n bytes.
pub proof fn lemma_peers_bytes_len(ps: Seq<Peer>)
    ensures
        peers_bytes(ps).len() == 6 * ps.len(),
    decreases ps.len(),
{
    if ps.len() > 0 {
        lemma_peers_bytes_len(ps.drop_first());
    }
}

/// A list of n 20-byte hashes occupies exactly 20 * n bytes.
pub proof fn lemma_hashes_bytes_len(hs: Seq<Seq<u8>>)
    requires
        forall|i: int| 0 <= i < hs.len() ==> #[trigger] hs[i].len() == 20,
    ensures
        hashes_bytes(hs).len() == 20 * hs.len(),
    decreases hs.len(),
{
    if hs.len() > 0 {
        assert(hs[0].len() == 20);
        assert(forall|i: int|
            0 <= i < hs.drop_first().len() ==> #[trigger] hs.drop_first()[i].len() == 20);
        lemma_hashes_bytes_len(hs.drop_first());
    }
}

/// A counter list of n records occupies exactly 12 * n bytes.
pub proof fn lemma_datas_bytes_len(ds: Seq<ScrapeData>)
    ensures
        datas_bytes(ds).len() == 12 * ds.len(),
    decreases ds.len(),
{
    if ds.len() > 0 {
        lemma_datas_bytes_len(ds.drop_first());
    }
}

/// Appends every byte of `b`.
fn push_bytes(v: &mut Vec<u8>, b: &Vec<u8>)
    ensures
        final(v)@ == old(v)@ + b@,
{
    let mut j: usize = 0;
    assert(v@ =~= old(v)@ + b@.subrange(0, 0));
    while j < b.len()
        invariant
            j <= b@.len(),
            v@ == old(v)@ + b@.subrange(0, j as int),
        decreases b@.len() - j,
    {
        v.push(b[j]);
        j = j + 1;
        assert(v@ =~= old(v)@ + b@.subrange(0, j as int));
    }
    assert(b@.subrange(0, b@.len() as int) =~= b@);
}

/// The stateless packet codec: one instance encodes and decodes any number
/// of datagrams independently.
pub struct TrackerCodec {}

impl TrackerCodec {
    /// Serializes one packet and appends its bytes to `dst`. Encoding is
    /// total: every typed packet has exactly one byte image.
    #[verifier::rlimit(60)]
    pub fn encode(&self, item: &TrackerPacket, dst: &mut Vec<u8>)
        ensures
            final(dst)@ == old(dst)@ + encode_model(item@),
    {
        match item {
            TrackerPacket::ConnectRequest(p) => {
                push_u64_be(dst, p.protocol_id);
                push_u32_be(dst, p.action.code());
                push_u32_be(dst, p.transaction_id);
                assert(dst@ =~= old(dst)@ + encode_model(item@));
            },
            TrackerPacket::ConnectResponse(p) => {
                push_u32_be(dst, p.action.code());
                push_u32_be(dst, p.transaction_id);
                push_u64_be(dst, p.connection_id);
                assert(dst@ =~= old(dst)@ + encode_model(item@));
            },
            TrackerPacket::AnnounceRequest(p) => {
                push_u64_be(dst, p.connection_id);
                push_u32_be(dst, p.action.code());
                push_u32_be(dst, p.transaction_id);
                push_bytes(dst, &p.info_hash.hash);
                push_bytes(dst, &p.peer_id.inner);
                push_u64_be(dst, p.downloaded);
                push_u64_be(dst, p.left);
                push_u64_be(dst, p.uploaded);
                push_u32_be(dst, p.event.code());
                push_u32_be(dst, p.ip_address);
                push_u32_be(dst, p.key);
                push_u32_be(dst, p.peers_wanted);
                match p.port {
                    Some(port) => push_u16_be(dst, port),
                    None => (),
                }
                assert(dst@ =~= old(dst)@ + encode_model(item@));
            },
            TrackerPacket::AnnounceResponse(p) => {
                push_u32_be(dst, p.action.code());
                push_u32_be(dst, p.transaction_id);
                push_u32_be(dst, p.interval);
                push_u32_be(dst, p.leechers);
                push_u32_be(dst, p.seeders);
                let ghost head: Seq<u8> = dst@;
                let mut k: usize = 0;
                assert(peers_bytes(p.peers@.subrange(0, 0)) =~= Seq::<u8>::empty());
                assert(dst@ =~= head + peers_bytes(p.peers@.subrange(0, 0)));
                while k < p.peers.len()
                    invariant
                        k <= p.peers@.len(),
                        dst@ == head + peers_bytes(p.peers@.subrange(0, k as int)),
                    decreases p.peers@.len() - k,
                {
                    let peer = p.peers[k];
                    push_u32_be(dst, peer.ip_address);
                    push_u16_be(dst, peer.port);
                    proof {
                        lemma_peers_bytes_push(p.peers@.subrange(0, k as int), p.peers@[k as int]);
                        assert(p.peers@.subrange(0, k as int).push(p.peers@[k as int]) =~= p.peers@
                            .subrange(0, k as int + 1));
                        assert(dst@ =~= head + peers_bytes(p.peers@.subrange(0, k as int + 1)));
                    }
                    k = k + 1;
                }
                proof {
                    assert(p.peers@.subrange(0, p.peers@.len() as int) =~= p.peers@);
                    assert(dst@ =~= old(dst)@ + encode_model(item@));
                }
            },
            TrackerPacket::ScrapeRequest(p) => {
                push_u64_be(dst, p.connection_id);
                push_u32_be(dst, p.action.code());
                push_u32_be(dst, p.transaction_id);
                let ghost hs: Seq<Seq<u8>> = p.hashes@.map_values(|h: InfoHash| h.hash@);
                let ghost head: Seq<u8> = dst@;
                let mut k: usize = 0;
                assert(hashes_bytes(hs.subrange(0, 0)) =~= Seq::<u8>::empty());
                assert(dst@ =~= head + hashes_bytes(hs.subrange(0, 0)));
                while k < p.hashes.len()
                    invariant
                        k <= p.hashes@.len(),
                        hs == p.hashes@.map_values(|h: InfoHash| h.hash@),
                        dst@ == head + hashes_bytes(hs.subrange(0, k as int)),
                    decreases p.hashes@.len() - k,
                {
                    push_bytes(dst, &p.hashes[k].hash);
                    proof {
                        assert(hs[k as int] == p.hashes@[k as int].hash@);
                        lemma_hashes_bytes_push(hs.subrange(0, k as int), hs[k as int]);
                        assert(hs.subrange(0, k as int).push(hs[k as int]) =~= hs.subrange(
                            0,
                            k as int + 1,
                        ));
                        assert(dst@ =~= head + hashes_bytes(hs.subrange(0, k as int + 1)));
                    }
                    k = k + 1;
                }
                proof {
                    assert(hs.subrange(0, hs.len() as int) =~= hs);
                    assert(dst@ =~= old(dst)@ + encode_model(item@));
                }
            },
            TrackerPacket::ScrapeResponse(p) => {
                push_u32_be(dst, p.action.code());
                push_u32_be(dst, p.transaction_id);
                let ghost head: Seq<u8> = dst@;
                let mut k: usize = 0;
                assert(datas_bytes(p.data@.subrange(0, 0)) =~= Seq::<u8>::empty());
                assert(dst@ =~= head + datas_bytes(p.data@.subrange(0, 0)));
                while k < p.data.len()
                    invariant
                        k <= p.data@.len(),
                        dst@ == head + datas_bytes(p.data@.subrange(0, k as int)),
                    decreases p.data@.len() - k,
                {
                    let d = p.data[k];
                    push_u32_be(dst, d.seeders);
                    push_u32_be(dst, d.completed);
                    push_u32_be(dst, d.leechers);
                    proof {
                        lemma_datas_bytes_push(p.data@.subrange(0, k as int), p.data@[k as int]);
                        assert(p.data@.subrange(0, k as int).push(p.data@[k as int]) =~= p.data@
                            .subrange(0, k as int + 1));
                        assert(dst@ =~= head + datas_bytes(p.data@.subrange(0, k as int + 1)));
                    }
                    k = k + 1;
                }
                proof {
                    assert(p.data@.subrange(0, p.data@.len() as int) =~= p.data@);
                    assert(dst@ =~= old(dst)@ + encode_model(item@));
                }
            },
        }
    }

    /// Parses one datagram. Total: returns a typed packet, or reports the
    /// buffer incomplete (under 16 bytes) or unrecognized; it never panics,
    /// whatever the bytes hold.
    pub fn decode(&self, src: &Vec<u8>) -> (r: DecodeResult)
        ensures
            r@ == decode_model(src@),
            src@.len() < 16 ==> r is Incomplete,
            src@.len() >= 16 ==> !(r is Incomplete),
    {
        let n = src.len();
        if n < 16 {
            return DecodeResult::Incomplete;
        }
        let leading = read_u64_at(src, 0);
        if leading == CONNECT_MAGIC {
            let r = match Action::from_code(read_u32_at(src, 8)) {
                Some(action) => DecodeResult::Packet(
                    TrackerPacket::ConnectRequest(
                        ConnectRequest {
                            protocol_id: leading,
                            action,
                            transaction_id: read_u32_at(src, 12),
                        },
                    ),
                ),
                None => DecodeResult::Unrecognized,
            };
            assert(r@ == parse_connect_request(src@));
            return r;
        }
        // Bytes 8..12 read as a request's action code: requests lead with
        // a 64-bit connection id, so their action sits at offset 8.
        let request_action = read_u32_at(src, 8);
        if request_action == 1 {
            return parse_announce_request_exec(src);
        }
        if request_action == 2 {
            return parse_scrape_request_exec(src);
        }
        // Bytes 0..4 reread as a response's action code: responses have no
        // connection id, so their action opens the datagram.
        let response_action = read_u32_at(src, 0);
        if response_action == 0 {
            let r = DecodeResult::Packet(
                TrackerPacket::ConnectResponse(
                    ConnectResponse {
                        action: Action::Connect,
                        transaction_id: read_u32_at(src, 4),
                        connection_id: read_u64_at(src, 8),
                    },
                ),
            );
            assert(r@ == parse_connect_response(src@));
            return r;
        }
        if response_action == 1 {
            return parse_announce_response_exec(src);
        }
        if response_action == 2 {
            return parse_scrape_response_exec(src);
        }
        DecodeResult::Unrecognized
    }
}

/// Reads the bytes `start..end` of `b` into a fresh vector.
fn read_bytes(b: &Vec<u8>, start: usize, end: usize) -> (r: Vec<u8>)
    requires
        start <= end,
        end <= b@.len(),
    ensures
        r@ == b@.subrange(start as int, end as int),
{
    let mut r: Vec<u8> = Vec::new();
    let mut j: usize = start;
    assert(r@ =~= b@.subrange(start as int, start as int));
    while j < end
        invariant
            start <= j <= end,
            end <= b@.len(),
            r@ == b@.subrange(start as int, j as int),
        decreases end - j,
    {
        r.push(b[j]);
        j = j + 1;
        assert(r@ =~= b@.subrange(start as int, j as int));
    }
    r
}

/// Parses the body of an announce request once bytes 8..12 matched the
/// announce action code.
fn parse_announce_request_exec(src: &Vec<u8>) -> (r: DecodeResult)
    requires
        src@.len() >= 16,
    ensures
        r@ == parse_announce_request(src@),
{
    let n = src.len();
    if n < 96 {
        return DecodeResult::Unrecognized;
    }
    let event = match AnnounceEvent::from_code(read_u32_at(src, 80)) {
        Some(e) => e,
        None => {
            return DecodeResult::Unrecognized;
        },
    };
    let port: Option<u16> = if n >= 98 {
        Some(read_u16_at(src, 96))
    } else {
        None
    };
    let req = AnnounceRequest {
        connection_id: read_u64_at(src, 0),
        action: Action::Announce,
        transaction_id: read_u32_at(src, 12),
        info_hash: InfoHash { hash: read_bytes(src, 16, 36) },
        peer_id: PeerId { inner: read_bytes(src, 36, 56) },
        downloaded: read_u64_at(src, 56),
        left: read_u64_at(src, 64),
        uploaded: read_u64_at(src, 72),
        event,
        ip_address: read_u32_at(src, 84),
        key: read_u32_at(src, 88),
        peers_wanted: read_u32_at(src, 92),
        port,
    };
    let r = DecodeResult::Packet(TrackerPacket::AnnounceRequest(req));
    assert(r@ == parse_announce_request(src@));
    r
}

/// Parses the trailing hash list of a scrape request once bytes 8..12
/// matched the scrape action code.
fn parse_scrape_request_exec(src: &Vec<u8>) -> (r: DecodeResult)
    requires
        src@.len() >= 16,
    ensures
        r@ == parse_scrape_request(src@),
{
    let n = src.len();
    if (n - 16) % 20 != 0 {
        return DecodeResult::Unrecognized;
    }
    let mut hashes: Vec<InfoHash> = Vec::new();
    let mut cur: usize = 16;
    assert(hashes@.map_values(|h: InfoHash| h.hash@) + parse_hashes(src@, 16) =~= parse_hashes(
        src@,
        16,
    ));
    while n - cur >= 20
        invariant
            16 <= cur <= n,
            n == src@.len(),
            (n - cur) % 20 == 0,
            hashes@.map_values(|h: InfoHash| h.hash@) + parse_hashes(src@, cur as int)
                == parse_hashes(src@, 16),
        decreases n - cur,
    {
        let ghost prev = hashes@;
        let h = read_bytes(src, cur, cur + 20);
        hashes.push(InfoHash { hash: h });
        proof {
            lemma_mod_sub_multiples_vanish(n - cur, 20);
            assert(parse_hashes(src@, cur as int) == seq![
                src@.subrange(cur as int, cur as int + 20),
            ] + parse_hashes(src@, cur as int + 20));
            assert(hashes@.map_values(|h: InfoHash| h.hash@) =~= prev.map_values(
                |h: InfoHash| h.hash@,
            ).push(src@.subrange(cur as int, cur as int + 20)));
            assert(hashes@.map_values(|h: InfoHash| h.hash@) + parse_hashes(
                src@,
                cur as int + 20,
            ) =~= parse_hashes(src@, 16));
        }
        cur = cur + 20;
    }
    proof {
        lemma_small_mod((n - cur) as nat, 20);
        assert(cur == n);
        assert(parse_hashes(src@, n as int) =~= Seq::<Seq<u8>>::empty());
        assert(hashes@.map_values(|h: InfoHash| h.hash@) =~= parse_hashes(src@, 16));
    }
    let r = DecodeResult::Packet(
        TrackerPacket::ScrapeRequest(
            ScrapeRequest {
                connection_id: read_u64_at(src, 0),
                action: Action::Scrape,
                transaction_id: read_u32_at(src, 12),
                hashes,
            },
        ),
    );
    assert(r@ == parse_scrape_request(src@));
    r
}

/// Parses the trailing peer list of an announce response once bytes 0..4
/// matched the announce action code.
fn parse_announce_response_exec(src: &Vec<u8>) -> (r: DecodeResult)
    requires
        src@.len() >= 16,
    ensures
        r@ == parse_announce_response(src@),
{
    let n = src.len();
    if n < 20 || (n - 20) % 6 != 0 {
        return DecodeResult::Unrecognized;
    }
    let mut peers: Vec<Peer> = Vec::new();
    let mut cur: usize = 20;
    assert(peers@ + parse_peers(src@, 20) =~= parse_peers(src@, 20));
    while n - cur >= 6
        invariant
            20 <= cur <= n,
            n == src@.len(),
            (n - cur) % 6 == 0,
            peers@ + parse_peers(src@, cur as int) == parse_peers(src@, 20),
        decreases n - cur,
    {
        let peer = Peer { ip_address: read_u32_at(src, cur), port: read_u16_at(src, cur + 4) };
        peers.push(peer);
        proof {
            lemma_mod_sub_multiples_vanish(n - cur, 6);
            assert(parse_peers(src@, cur as int) == seq![
                Peer { ip_address: be32_at(src@, cur as int), port: be16_at(src@, cur as int + 4) },
            ] + parse_peers(src@, cur as int + 6));
            assert(peers@ + parse_peers(src@, cur as int + 6) =~= parse_peers(src@, 20));
        }
        cur = cur + 6;
    }
    proof {
        lemma_small_mod((n - cur) as nat, 6);
        assert(cur == n);
        assert(parse_peers(src@, n as int) =~= Seq::<Peer>::empty());
        assert(peers@ =~= parse_peers(src@, 20));
    }
    let r = DecodeResult::Packet(
        TrackerPacket::AnnounceResponse(
            AnnounceResponse {
                action: Action::Announce,
                transaction_id: read_u32_at(src, 4),
                interval: read_u32_at(src, 8),
                leechers: read_u32_at(src, 12),
                seeders: read_u32_at(src, 16),
                peers,
            },
        ),
    );
    assert(r@ == parse_announce_response(src@));
    r
}

/// Parses the trailing counter list of a scrape response once bytes 0..4
/// matched the scrape action code.
fn parse_scrape_response_exec(src: &Vec<u8>) -> (r: DecodeResult)
    requires
        src@.len() >= 16,
    ensures
        r@ == parse_scrape_response(src@),
{
    let n = src.len();
    if (n - 8) % 12 != 0 {
        return DecodeResult::Unrecognized;
    }
    let mut data: Vec<ScrapeData> = Vec::new();
    let mut cur: usize = 8;
    assert(data@ + parse_datas(src@, 8) =~= parse_datas(src@, 8));
    while n - cur >= 12
        invariant
            8 <= cur <= n,
            n == src@.len(),
            (n - cur) % 12 == 0,
            data@ + parse_datas(src@, cur as int) == parse_datas(src@, 8),
        decreases n - cur,
    {
        let d = ScrapeData {
            seeders: read_u32_at(src, cur),
            completed: read_u32_at(src, cur + 4),
            leechers: read_u32_at(src, cur + 8),
        };
        data.push(d);
        proof {
            lemma_mod_sub_multiples_vanish(n - cur, 12);
            assert(parse_datas(src@, cur as int) == seq![
                ScrapeData {
                    seeders: be32_at(src@, cur as int),
                    completed: be32_at(src@, cur as int + 4),
                    leechers: be32_at(src@, cur as int + 8),
                },
            ] + parse_datas(src@, cur as int + 12));
            assert(data@ + parse_datas(src@, cur as int + 12) =~= parse_datas(src@, 8));
        }
        cur = cur + 12;
    }
    proof {
        lemma_small_mod((n - cur) as nat, 12);
        assert(cur == n);
        assert(parse_datas(src@, n as int) =~= Seq::<ScrapeData>::empty());
        assert(data@ =~= parse_datas(src@, 8));
    }
    let r = DecodeResult::Packet(
        TrackerPacket::ScrapeResponse(
            ScrapeResponse { action: Action::Scrape, transaction_id: read_u32_at(src, 4), data },
        ),
    );
    assert(r@ == parse_scrape_response(src@));
    r
}

/// Cutting six-byte records out of a peer list's own bytes, laid after any
/// prefix, yields the list back.
pub proof fn lemma_parse_peers_of_bytes(pre: Seq<u8>, ps: Seq<Peer>)
    ensures
        parse_peers(pre + peers_bytes(ps), pre.len() as int) == ps,
    decreases ps.len(),
{
    let b = pre + peers_bytes(ps);
    let i = pre.len() as int;
    if ps.len() == 0 {
        assert(peers_bytes(ps) =~= Seq::<u8>::empty());
        assert(b.len() == pre.len());
        assert(parse_peers(b, i) =~= ps);
    } else {
        let head = ps[0];
        let tail = ps.drop_first();
        let pre2 = pre + peer_bytes(head);
        assert(peers_bytes(ps) == peer_bytes(head) + peers_bytes(tail));
        assert(b =~= pre2 + peers_bytes(tail));
        lemma_parse_peers_of_bytes(pre2, tail);
        assert(parse_peers(b, i + 6) == tail);
        lemma_be32_of_bytes(b, i, head.ip_address);
        lemma_be16_of_bytes(b, i + 4, head.port);
        assert(parse_peers(b, i) == seq![
            Peer { ip_address: be32_at(b, i), port: be16_at(b, i + 4) },
        ] + parse_peers(b, i + 6));
        assert(seq![head] + tail =~= ps);
        assert(parse_peers(b, i) =~= ps);
    }
}

/// Cutting twenty-byte records out of a hash list's own bytes, laid after
/// any prefix, yields the list back.
pub proof fn lemma_parse_hashes_of_bytes(pre: Seq<u8>, hs: Seq<Seq<u8>>)
    requires
        forall|i: int| 0 <= i < hs.len() ==> #[trigger] hs[i].len() == 20,
    ensures
        parse_hashes(pre + hashes_bytes(hs), pre.len() as int) == hs,
    decreases hs.len(),
{
    let b = pre + hashes_bytes(hs);
    let i = pre.len() as int;
    if hs.len() == 0 {
        assert(hashes_bytes(hs) =~= Seq::<u8>::empty());
        assert(b.len() == pre.len());
        assert(parse_hashes(b, i) =~= hs);
    } else {
        let head = hs[0];
        let tail = hs.drop_first();
        assert(head.len() == 20);
        let pre2 = pre + head;
        assert(hashes_bytes(hs) == head + hashes_bytes(tail));
        assert(b =~= pre2 + hashes_bytes(tail));
        assert(forall|j: int| 0 <= j < tail.len() ==> #[trigger] tail[j].len() == 20);
        lemma_parse_hashes_of_bytes(pre2, tail);
        assert(parse_hashes(b, i + 20) == tail);
        assert(b.subrange(i, i + 20) =~= head);
        assert(parse_hashes(b, i) == seq![b.subrange(i, i + 20)] + parse_hashes(b, i + 20));
        assert(seq![head] + tail =~= hs);
        assert(parse_hashes(b, i) =~= hs);
    }
}

/// Cutting twelve-byte records out of a counter list's own bytes, laid
/// after any prefix, yields the list back.
pub proof fn lemma_parse_datas_of_bytes(pre: Seq<u8>, ds: Seq<ScrapeData>)
    ensures
        parse_datas(pre + datas_bytes(ds), pre.len() as int) == ds,
    decreases ds.len(),
{
    let b = pre + datas_bytes(ds);
    let i = pre.len() as int;
    if ds.len() == 0 {
        assert(datas_bytes(ds) =~= Seq::<u8>::empty());
        assert(b.len() == pre.len());
        assert(parse_datas(b, i) =~= ds);
    } else {
        let head = ds[0];
        let tail = ds.drop_first();
        let pre2 = pre + data_bytes(head);
        assert(datas_bytes(ds) == data_bytes(head) + datas_bytes(tail));
        assert(b =~= pre2 + datas_bytes(tail));
        lemma_parse_datas_of_bytes(pre2, tail);
        assert(parse_datas(b, i + 12) == tail);
        lemma_be32_of_bytes(b, i, head.seeders);
        lemma_be32_of_bytes(b, i + 4, head.completed);
        lemma_be32_of_bytes(b, i + 8, head.leechers);
        assert(parse_datas(b, i) == seq![
            ScrapeData {
                seeders: be32_at(b, i),
                completed: be32_at(b, i + 4),
                leechers: be32_at(b, i + 8),
            },
        ] + parse_datas(b, i + 12));
        assert(seq![head] + tail =~= ds);
        assert(parse_datas(b, i) =~= ds);
    }
}

/// Round trip for a connect request.
proof fn lemma_round_trip_connect_request(m: PacketModel)
    requires
        m is ConnectRequest,
        m.wf(),
        m.unambiguous(),
    ensures
        decode_model(encode_model(m)) == DecodeModel::Packet(m),
{
    let enc = encode_model(m);
    match m {
        PacketModel::ConnectRequest { protocol_id, action, transaction_id } => {
            assert(enc.len() == 16);
            lemma_be64_of_bytes(enc, 0, protocol_id);
            lemma_be32_of_bytes(enc, 8, action_code(action));
            lemma_be32_of_bytes(enc, 12, transaction_id);
            assert(action_of_code(action_code(action)) == Some(action));
            assert(decode_model(enc) =~= DecodeModel::Packet(m));
        },
        _ => {},
    }
}

/// Round trip for a connect response.
proof fn lemma_round_trip_connect_response(m: PacketModel)
    requires
        m is ConnectResponse,
        m.wf(),
        m.unambiguous(),
    ensures
        decode_model(encode_model(m)) == DecodeModel::Packet(m),
{
    let enc = encode_model(m);
    match m {
        PacketModel::ConnectResponse { action, transaction_id, connection_id } => {
            assert(enc.len() == 16);
            lemma_be32_of_bytes(enc, 0, action_code(action));
            lemma_be32_of_bytes(enc, 4, transaction_id);
            lemma_be64_of_bytes(enc, 8, connection_id);
            lemma_not_magic(enc, CONNECT_MAGIC);
            lemma_be32_of_u64_hi(enc, 8, connection_id);
            assert(be32_at(enc, 8) != 1 && be32_at(enc, 8) != 2);
            assert(decode_model(enc) =~= DecodeModel::Packet(m));
        },
        _ => {},
    }
}

/// Round trip for an announce request, with or without the trailing port.
#[verifier::rlimit(100)]
proof fn lemma_round_trip_announce_request(m: PacketModel)
    requires
        m is AnnounceRequest,
        m.wf(),
        m.unambiguous(),
    ensures
        decode_model(encode_model(m)) == DecodeModel::Packet(m),
{
    let enc = encode_model(m);
    match m {
        PacketModel::AnnounceRequest {
            connection_id,
            action,
            transaction_id,
            info_hash,
            peer_id,
            downloaded,
            left,
            uploaded,
            event,
            ip_address,
            key,
            peers_wanted,
            port,
        } => {
            assert(port_bytes(port).len() == if port is Some {
                2int
            } else {
                0int
            });
            assert(enc.len() == 96 + port_bytes(port).len());
            lemma_be64_of_bytes(enc, 0, connection_id);
            lemma_be32_of_bytes(enc, 8, action_code(action));
            lemma_be32_of_bytes(enc, 12, transaction_id);
            assert(enc.subrange(16, 36) =~= info_hash);
            assert(enc.subrange(36, 56) =~= peer_id);
            lemma_be64_of_bytes(enc, 56, downloaded);
            lemma_be64_of_bytes(enc, 64, left);
            lemma_be64_of_bytes(enc, 72, uploaded);
            lemma_be32_of_bytes(enc, 80, event_code(event));
            assert(event_of_code(event_code(event)) == Some(event));
            lemma_be32_of_bytes(enc, 84, ip_address);
            lemma_be32_of_bytes(enc, 88, key);
            lemma_be32_of_bytes(enc, 92, peers_wanted);
            match port {
                Some(x) => {
                    lemma_be16_of_bytes(enc, 96, x);
                    assert(enc.len() >= 98);
                },
                None => {
                    assert(enc.len() == 96);
                },
            }
            assert(decode_model(enc) =~= DecodeModel::Packet(m));
        },
        _ => {},
    }
}

/// Round trip for an announce response carrying any number of peers.
proof fn lemma_round_trip_announce_response(m: PacketModel)
    requires
        m is AnnounceResponse,
        m.wf(),
        m.unambiguous(),
    ensures
        decode_model(encode_model(m)) == DecodeModel::Packet(m),
{
    let enc = encode_model(m);
    match m {
        PacketModel::AnnounceResponse { action, transaction_id, interval, leechers, seeders, peers } => {
            let head = u32_bytes(action_code(action)) + u32_bytes(transaction_id) + u32_bytes(
                interval,
            ) + u32_bytes(leechers) + u32_bytes(seeders);
            lemma_peers_bytes_len(peers);
            assert(enc.len() == 20 + 6 * peers.len());
            lemma_be32_of_bytes(enc, 0, action_code(action));
            lemma_be32_of_bytes(enc, 4, transaction_id);
            lemma_be32_of_bytes(enc, 8, interval);
            lemma_be32_of_bytes(enc, 12, leechers);
            lemma_be32_of_bytes(enc, 16, seeders);
            lemma_not_magic(enc, CONNECT_MAGIC);
            lemma_mod_multiples_basic(peers.len() as int, 6);
            assert((enc.len() - 20) % 6 == 0);
            lemma_parse_peers_of_bytes(head, peers);
            assert(enc == head + peers_bytes(peers));
            assert(parse_peers(enc, 20) == peers);
            assert(decode_model(enc) =~= DecodeModel::Packet(m));
        },
        _ => {},
    }
}

/// Round trip for a scrape request carrying any number of hashes.
proof fn lemma_round_trip_scrape_request(m: PacketModel)
    requires
        m is ScrapeRequest,
        m.wf(),
        m.unambiguous(),
    ensures
        decode_model(encode_model(m)) == DecodeModel::Packet(m),
{
    let enc = encode_model(m);
    match m {
        PacketModel::ScrapeRequest { connection_id, action, transaction_id, hashes } => {
            let head = u64_bytes(connection_id) + u32_bytes(action_code(action)) + u32_bytes(
                transaction_id,
            );
            lemma_hashes_bytes_len(hashes);
            assert(enc.len() == 16 + 20 * hashes.len());
            lemma_be64_of_bytes(enc, 0, connection_id);
            lemma_be32_of_bytes(enc, 8, action_code(action));
            lemma_be32_of_bytes(enc, 12, transaction_id);
            lemma_mod_multiples_basic(hashes.len() as int, 20);
            assert((enc.len() - 16) % 20 == 0);
            lemma_parse_hashes_of_bytes(head, hashes);
            assert(enc == head + hashes_bytes(hashes));
            assert(parse_hashes(enc, 16) == hashes);
            assert(decode_model(enc) =~= DecodeModel::Packet(m));
        },
        _ => {},
    }
}

/// Round trip for a scrape response carrying at least one counter record.
proof fn lemma_round_trip_scrape_response(m: PacketModel)
    requires
        m is ScrapeResponse,
        m.wf(),
        m.unambiguous(),
    ensures
        decode_model(encode_model(m)) == DecodeModel::Packet(m),
{
    let enc = encode_model(m);
    match m {
        PacketModel::ScrapeResponse { action, transaction_id, data } => {
            let head = u32_bytes(action_code(action)) + u32_bytes(transaction_id);
            lemma_datas_bytes_len(data);
            assert(enc.len() == 8 + 12 * data.len());
            assert(enc.len() >= 20);
            lemma_be32_of_bytes(enc, 0, action_code(action));
            lemma_be32_of_bytes(enc, 4, transaction_id);
            lemma_not_magic(enc, CONNECT_MAGIC);
            assert(datas_bytes(data) == data_bytes(data[0]) + datas_bytes(data.drop_first()));
            lemma_be32_of_bytes(enc, 8, data[0].seeders);
            assert(be32_at(enc, 8) != 1 && be32_at(enc, 8) != 2);
            lemma_mod_multiples_basic(data.len() as int, 12);
            assert((enc.len() - 8) % 12 == 0);
            lemma_parse_datas_of_bytes(head, data);
            assert(enc == head + datas_bytes(data));
            assert(parse_datas(enc, 8) == data);
            assert(decode_model(enc) =~= DecodeModel::Packet(m));
        },
        _ => {},
    }
}

/// Round trip: every well-formed, unambiguous packet decodes back to
/// itself from its own encoding, for each of the six shapes.
pub proof fn lemma_round_trip(m: PacketModel)
    requires
        m.wf(),
        m.unambiguous(),
    ensures
        decode_model(encode_model(m)) == DecodeModel::Packet(m),
{
    match m {
        PacketModel::ConnectRequest { .. } => lemma_round_trip_connect_request(m),
        PacketModel::ConnectResponse { .. } => lemma_round_trip_connect_response(m),
        PacketModel::AnnounceRequest { .. } => lemma_round_trip_announce_request(m),
        PacketModel::AnnounceResponse { .. } => lemma_round_trip_announce_response(m),
        PacketModel::ScrapeRequest { .. } => lemma_round_trip_scrape_request(m),
        PacketModel::ScrapeResponse { .. } => lemma_round_trip_scrape_response(m),
    }
}

/// Every hash cut out of a buffer holds exactly 20 bytes.
proof fn lemma_parse_hashes_wf(b: Seq<u8>, i: int)
    ensures
        forall|j: int|
            0 <= j < parse_hashes(b, i).len() ==> #[trigger] parse_hashes(b, i)[j].len() == 20,
    decreases b.len() - i,
{
    if 0 <= i && i + 20 <= b.len() {
        lemma_parse_hashes_wf(b, i + 20);
        assert(parse_hashes(b, i) == seq![b.subrange(i, i + 20)] + parse_hashes(b, i + 20));
    }
}

/// Robustness: decoding is total, and whatever the bytes hold, a decoded
/// packet is well-formed: its byte blobs have their exact wire lengths.
pub proof fn lemma_decode_wf(b: Seq<u8>)
    ensures
        decode_model(b) matches DecodeModel::Packet(p) ==> p.wf(),
{
    lemma_parse_hashes_wf(b, 16);
}

/// Variable-length correctness: an announce response carrying any number
/// of peers occupies exactly 20 + 6 n bytes and decodes back with the same
/// peer list, and so with exactly n entries.
pub proof fn lemma_peer_count_round_trip(
    action: Action,
    transaction_id: u32,
    interval: u32,
    leechers: u32,
    seeders: u32,
    peers: Seq<Peer>,
)
    requires
        action == Action::Announce,
        interval != 1,
        interval != 2,
    ensures
        ({
            let m = PacketModel::AnnounceResponse {
                action,
                transaction_id,
                interval,
                leechers,
                seeders,
                peers,
            };
            encode_model(m).len() == 20 + 6 * peers.len() && decode_model(encode_model(m))
                == DecodeModel::Packet(m)
        }),
{
    let m = PacketModel::AnnounceResponse {
        action,
        transaction_id,
        interval,
        leechers,
        seeders,
        peers,
    };
    lemma_peers_bytes_len(peers);
    lemma_round_trip(m);
}

/// Optional field presence: an announce request encodes to 96 bytes when
/// the trailing port is absent and 98 when present, and decodes back with
/// the same port, absent or present with its value.
#[verifier::rlimit(100)]
pub proof fn lemma_optional_port_round_trip(
    connection_id: u64,
    action: Action,
    transaction_id: u32,
    info_hash: Seq<u8>,
    peer_id: Seq<u8>,
    downloaded: u64,
    left: u64,
    uploaded: u64,
    event: AnnounceEvent,
    ip_address: u32,
    key: u32,
    peers_wanted: u32,
    port: Option<u16>,
)
    requires
        action == Action::Announce,
        connection_id != CONNECT_MAGIC,
        info_hash.len() == 20,
        peer_id.len() == 20,
    ensures
        ({
            let m = PacketModel::AnnounceRequest {
                connection_id,
                action,
                transaction_id,
                info_hash,
                peer_id,
                downloaded,
                left,
                uploaded,
                event,
                ip_address,
                key,
                peers_wanted,
                port,
            };
            encode_model(m).len() == (if port is Some {
                98int
            } else {
                96int
            }) && decode_model(encode_model(m)) == DecodeModel::Packet(m)
        }),
{
    let m = PacketModel::AnnounceRequest {
        connection_id,
        action,
        transaction_id,
        info_hash,
        peer_id,
        downloaded,
        left,
        uploaded,
        event,
        ip_address,
        key,
        peers_wanted,
        port,
    };
    assert(port_bytes(port).len() == if port is Some {
        2int
    } else {
        0int
    });
    assert(encode_model(m).len() == 96 + port_bytes(port).len());
    lemma_round_trip(m);
}

/// Magic priority: a buffer of at least 16 bytes that opens with the
/// connect magic constant and carries a known action code in bytes 8..12
/// decodes as a connect request, whatever the action code would mean
/// elsewhere.
pub proof fn lemma_magic_priority(b: Seq<u8>)
    requires
        b.len() >= 16,
        be64_at(b, 0) == CONNECT_MAGIC,
        action_of_code(be32_at(b, 8)) is Some,
    ensures
        decode_model(b) matches DecodeModel::Packet(p) && p matches PacketModel::ConnectRequest {
            protocol_id,
            action,
            transaction_id,
        } && protocol_id == CONNECT_MAGIC && action_of_code(be32_at(b, 8)) == Some(action)
            && transaction_id == be32_at(b, 12),
{
}

} // verus!
