use udp_tracker::codec::{
    Action, AnnounceEvent, AnnounceRequest, ConnectRequest, ConnectResponse, InfoHash, Peer,
    PeerId, ScrapeRequest, TrackerPacket, CONNECT_MAGIC,
};
use udp_tracker::tracker::Tracker;

fn fixed_peers(k: usize) -> Vec<Peer> {
    (0..k).map(|i| Peer { ip_address: 0x0a000001 + i as u32, port: 7000 + i as u16 }).collect()
}

fn announce_request() -> AnnounceRequest {
    AnnounceRequest {
        connection_id: 11,
        action: Action::Announce,
        transaction_id: 21,
        info_hash: InfoHash { hash: vec![1u8; 20] },
        peer_id: PeerId { inner: vec![2u8; 20] },
        downloaded: 0,
        left: 0,
        uploaded: 0,
        event: AnnounceEvent::NoEvent,
        ip_address: 0,
        key: 0,
        peers_wanted: u32::MAX,
        port: Some(6881),
    }
}

#[test]
fn connect_request_earns_connect_response() {
    let tracker = Tracker::new(fixed_peers(2), 600);
    let request = TrackerPacket::ConnectRequest(ConnectRequest {
        protocol_id: CONNECT_MAGIC,
        action: Action::Connect,
        transaction_id: 123,
    });
    match tracker.handle_packet(&request) {
        Some(TrackerPacket::ConnectResponse(res)) => {
            assert_eq!(res.action, Action::Connect);
            assert_eq!(res.transaction_id, 123);
        }
        other => panic!("expected a connect response, got {:?}", other),
    }
}

#[test]
fn announce_is_deterministic_over_configuration() {
    let k: usize = 5;
    let interval: u32 = 1800;
    let tracker = Tracker::new(fixed_peers(k), interval);
    let request = TrackerPacket::AnnounceRequest(announce_request());
    for _ in 0..3 {
        match tracker.handle_packet(&request) {
            Some(TrackerPacket::AnnounceResponse(res)) => {
                assert_eq!(res.action, Action::Announce);
                assert_eq!(res.transaction_id, 21);
                assert_eq!(res.interval, interval);
                assert_eq!(res.leechers, 0);
                assert_eq!(res.seeders, k as u32);
                assert_eq!(res.peers, fixed_peers(k));
            }
            other => panic!("expected an announce response, got {:?}", other),
        }
    }
}

#[test]
fn scrape_counters_align_with_requested_hashes() {
    let k: usize = 3;
    let m: usize = 4;
    let tracker = Tracker::new(fixed_peers(k), 600);
    let hashes: Vec<InfoHash> = (0..m).map(|i| InfoHash { hash: vec![i as u8; 20] }).collect();
    let request = TrackerPacket::ScrapeRequest(ScrapeRequest {
        connection_id: 9,
        action: Action::Scrape,
        transaction_id: 77,
        hashes,
    });
    match tracker.handle_packet(&request) {
        Some(TrackerPacket::ScrapeResponse(res)) => {
            assert_eq!(res.action, Action::Scrape);
            assert_eq!(res.transaction_id, 77);
            assert_eq!(res.data.len(), m);
            for d in res.data.iter() {
                assert_eq!(d.seeders, k as u32);
                assert_eq!(d.completed, k as u32);
                assert_eq!(d.leechers, 0);
            }
        }
        other => panic!("expected a scrape response, got {:?}", other),
    }
}

#[test]
fn response_shaped_packets_earn_no_reply() {
    let tracker = Tracker::new(fixed_peers(1), 600);
    let response = TrackerPacket::ConnectResponse(ConnectResponse {
        action: Action::Connect,
        transaction_id: 1,
        connection_id: 2,
    });
    assert!(tracker.handle_packet(&response).is_none());
}

#[test]
fn minted_connection_ids_need_no_state() {
    // Two connects from the same configuration both earn responses; the
    // handler keeps no table of issued connection ids.
    let tracker = Tracker::new(fixed_peers(0), 600);
    let request = TrackerPacket::ConnectRequest(ConnectRequest {
        protocol_id: CONNECT_MAGIC,
        action: Action::Connect,
        transaction_id: 5,
    });
    let first = tracker.handle_packet(&request);
    let second = tracker.handle_packet(&request);
    assert!(matches!(first, Some(TrackerPacket::ConnectResponse(_))));
    assert!(matches!(second, Some(TrackerPacket::ConnectResponse(_))));
}

#[test]
fn default_options_match_the_command_line() {
    let opts = udp_tracker::tracker::Opts::default();
    assert_eq!(opts.listen_address, "0.0.0.0");
    assert_eq!(opts.listen_port, 8080);
    assert!(opts.static_peers.is_empty());
    assert_eq!(opts.interval, 600);
}
