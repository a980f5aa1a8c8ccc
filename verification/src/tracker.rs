//! The stateless request handler and its configuration.

use vstd::prelude::*;

use crate::codec::{
    Action, AnnounceResponse, ConnectResponse, Peer, ScrapeData, ScrapeResponse, TrackerPacket,
};

verus! {

/// Relies on rand::random: a fresh value from the thread-local generator.
/// The result is random, so nothing is assumed of it.
#[verifier::external_body]
fn random_u64() -> u64 {
    rand::random()
}

/// Command line options the surrounding program reads; the library only
/// carries them as plain values.
#[derive(Debug, Clone, Eq, PartialEq)]
pub struct Opts {
    /// The IPv4 address that the program should listen on.
    pub listen_address: String,
    /// The port that the program should bind to.
    pub listen_port: u16,
    /// List of static peers that the tracker should advertise.
    pub static_peers: Vec<String>,
    /// Time between announces that this tracker asks for in seconds.
    pub interval: u32,
}

impl Default for Opts {
    /// The defaults the command line offers: listen everywhere on port
    /// 8080, no static peers, a 600-second announce interval.
    fn default() -> (r: Opts)
        ensures
            r.listen_address@ == "0.0.0.0"@,
            r.listen_port == 8080,
            r.static_peers@.len() == 0,
            r.interval == 600,
    {
        Opts {
            listen_address: "0.0.0.0".to_owned(),
            listen_port: 8080,
            static_peers: Vec::new(),
            interval: 600,
        }
    }
}

/// The request handler: a fixed advertised peer list and an announce
/// interval, immutable for the process lifetime.
pub struct Tracker {
    pub static_peers: Vec<Peer>,
    pub interval: u32,
}

impl Tracker {
    /// The advertised peer count must fit the 32-bit seeder counters that
    /// responses carry.
    pub open spec fn wf(self) -> bool {
        self.static_peers@.len() <= u32::MAX
    }

    /// Builds a handler over the given peer list and announce interval.
    pub fn new(static_peers: Vec<Peer>, interval: u32) -> (r: Tracker)
        requires
            static_peers@.len() <= u32::MAX,
        ensures
            r.wf(),
            r.static_peers@ == static_peers@,
            r.interval == interval,
    {
        Tracker { static_peers, interval }
    }

    /// Maps one decoded packet to the response it earns, if any; pure but
    /// for the freshly minted random connection id of a connect response.
    ///
    /// A connect request earns a connect response echoing its transaction
    /// id. An announce request earns the full configured peer list, the
    /// configured interval, seeders equal to the peer count and zero
    /// leechers, whatever it announced. A scrape request earns one counter
    /// record per requested hash, every record equal and built from the
    /// peer count alone. A response-shaped packet earns no reply.
    pub fn handle_packet(&self, packet: &TrackerPacket) -> (r: Option<TrackerPacket>)
        requires
            self.wf(),
        ensures
            match packet {
                TrackerPacket::ConnectRequest(req) => r matches Some(p) && p matches
                    TrackerPacket::ConnectResponse(res) && res.action == Action::Connect
                    && res.transaction_id == req.transaction_id,
                TrackerPacket::AnnounceRequest(req) => r matches Some(p) && p matches
                    TrackerPacket::AnnounceResponse(res) && res.action == Action::Announce
                    && res.transaction_id == req.transaction_id && res.interval == self.interval
                    && res.leechers == 0 && res.seeders == self.static_peers@.len() && res.peers@
                    == self.static_peers@,
                TrackerPacket::ScrapeRequest(req) => r matches Some(p) && p matches
                    TrackerPacket::ScrapeResponse(res) && res.action == Action::Scrape
                    && res.transaction_id == req.transaction_id && res.data@.len()
                    == req.hashes@.len() && forall|i: int|
                    0 <= i < res.data@.len() ==> #[trigger] res.data@[i] == (ScrapeData {
                        seeders: self.static_peers@.len() as u32,
                        completed: self.static_peers@.len() as u32,
                        leechers: 0,
                    }),
                _ => r is None,
            },
    {
        match packet {
            TrackerPacket::ConnectRequest(req) => Some(
                TrackerPacket::ConnectResponse(
                    ConnectResponse {
                        action: Action::Connect,
                        transaction_id: req.transaction_id,
                        connection_id: random_u64(),
                    },
                ),
            ),
            TrackerPacket::AnnounceRequest(req) => {
                let mut peers: Vec<Peer> = Vec::new();
                let mut k: usize = 0;
                assert(peers@ =~= self.static_peers@.subrange(0, 0));
                while k < self.static_peers.len()
                    invariant
                        k <= self.static_peers@.len(),
                        peers@ == self.static_peers@.subrange(0, k as int),
                    decreases self.static_peers@.len() - k,
                {
                    peers.push(self.static_peers[k]);
                    k = k + 1;
                    assert(peers@ =~= self.static_peers@.subrange(0, k as int));
                }
                assert(peers@ =~= self.static_peers@);
                Some(
                    TrackerPacket::AnnounceResponse(
                        AnnounceResponse {
                            action: Action::Announce,
                            transaction_id: req.transaction_id,
                            interval: self.interval,
                            leechers: 0,
                            seeders: self.static_peers.len() as u32,
                            peers,
                        },
                    ),
                )
            },
            TrackerPacket::ScrapeRequest(req) => {
                let count: u32 = self.static_peers.len() as u32;
                let mut data: Vec<ScrapeData> = Vec::new();
                let mut k: usize = 0;
                while k < req.hashes.len()
                    invariant
                        k <= req.hashes@.len(),
                        data@.len() == k,
                        forall|i: int|
                            0 <= i < k ==> #[trigger] data@[i] == (ScrapeData {
                                seeders: count,
                                completed: count,
                                leechers: 0,
                            }),
                    decreases req.hashes@.len() - k,
                {
                    data.push(ScrapeData { seeders: count, completed: count, leechers: 0 });
                    k = k + 1;
                }
                Some(
                    TrackerPacket::ScrapeResponse(
                        ScrapeResponse {
                            action: Action::Scrape,
                            transaction_id: req.transaction_id,
                            data,
                        },
                    ),
                )
            },
            _ => None,
        }
    }
}

} // verus!
