use udp_tracker::codec::{
    Action, AnnounceEvent, AnnounceRequest, AnnounceResponse, ConnectRequest, ConnectResponse,
    DecodeResult, InfoHash, Peer, PeerId, ScrapeData, ScrapeRequest, ScrapeResponse,
    TrackerCodec, TrackerPacket, CONNECT_MAGIC,
};

fn encode(packet: &TrackerPacket) -> Vec<u8> {
    let codec = TrackerCodec {};
    let mut bytes: Vec<u8> = Vec::new();
    codec.encode(packet, &mut bytes);
    bytes
}

fn decode(bytes: &Vec<u8>) -> DecodeResult {
    let codec = TrackerCodec {};
    codec.decode(bytes)
}

fn sample_announce_request(port: Option<u16>) -> AnnounceRequest {
    AnnounceRequest {
        connection_id: 0x1122334455667788,
        action: Action::Announce,
        transaction_id: 77,
        info_hash: InfoHash { hash: (0u8..20u8).collect() },
        peer_id: PeerId { inner: (100u8..120u8).collect() },
        downloaded: 1000,
        left: 2000,
        uploaded: 3000,
        event: AnnounceEvent::Started,
        ip_address: 0x7f000001,
        key: 0xdeadbeef,
        peers_wanted: 50,
        port,
    }
}

#[test]
fn test_decode_tracker_codec() {
    let connect_request =
        ConnectRequest { protocol_id: CONNECT_MAGIC, action: Action::Connect, transaction_id: 123 };
    let bytes = encode(&TrackerPacket::ConnectRequest(connect_request));
    assert_eq!(bytes.len(), 16);
    let decode_result = decode(&bytes);
    assert_eq!(decode_result, DecodeResult::Packet(TrackerPacket::ConnectRequest(connect_request)));
}

#[test]
fn test_random_bytes() {
    for _ in 0..100 {
        let mut buf = vec![0u8; 32];
        for b in buf.iter_mut() {
            *b = rand::random::<u8>();
        }
        let result = decode(&buf);
        assert!(matches!(
            result,
            DecodeResult::Packet(_) | DecodeResult::Incomplete | DecodeResult::Unrecognized
        ));
    }
}

#[test]
fn test_encode_tracker_codec() {
    let connect_request =
        ConnectRequest { protocol_id: CONNECT_MAGIC, action: Action::Connect, transaction_id: 123 };
    let bytes = encode(&TrackerPacket::ConnectRequest(connect_request));
    let correct_bytes: Vec<u8> =
        vec![0x00, 0x00, 0x04, 0x17, 0x27, 0x10, 0x19, 0x80, 0, 0, 0, 0, 0, 0, 0, 123];
    assert_eq!(bytes.len(), 16);
    assert_eq!(bytes, correct_bytes);
}

#[test]
fn round_trip_connect_request() {
    let p = TrackerPacket::ConnectRequest(ConnectRequest {
        protocol_id: CONNECT_MAGIC,
        action: Action::Connect,
        transaction_id: 999,
    });
    assert_eq!(decode(&encode(&p)), DecodeResult::Packet(p));
}

#[test]
fn round_trip_connect_response() {
    let p = TrackerPacket::ConnectResponse(ConnectResponse {
        action: Action::Connect,
        transaction_id: 4242,
        connection_id: 0xabcdef0012345678,
    });
    assert_eq!(decode(&encode(&p)), DecodeResult::Packet(p));
}

#[test]
fn round_trip_announce_request() {
    let p = TrackerPacket::AnnounceRequest(sample_announce_request(Some(6881)));
    assert_eq!(decode(&encode(&p)), DecodeResult::Packet(p));
}

#[test]
fn round_trip_announce_response() {
    let p = TrackerPacket::AnnounceResponse(AnnounceResponse {
        action: Action::Announce,
        transaction_id: 5,
        interval: 600,
        leechers: 3,
        seeders: 9,
        peers: vec![
            Peer { ip_address: 0x0a000001, port: 6881 },
            Peer { ip_address: 0xc0a80101, port: 51413 },
        ],
    });
    assert_eq!(decode(&encode(&p)), DecodeResult::Packet(p));
}

#[test]
fn round_trip_scrape_request() {
    let p = TrackerPacket::ScrapeRequest(ScrapeRequest {
        connection_id: 7777,
        action: Action::Scrape,
        transaction_id: 31,
        hashes: vec![InfoHash { hash: vec![9u8; 20] }, InfoHash { hash: (0u8..20u8).collect() }],
    });
    assert_eq!(decode(&encode(&p)), DecodeResult::Packet(p));
}

#[test]
fn round_trip_scrape_response() {
    let p = TrackerPacket::ScrapeResponse(ScrapeResponse {
        action: Action::Scrape,
        transaction_id: 8,
        data: vec![
            ScrapeData { seeders: 4, completed: 10, leechers: 2 },
            ScrapeData { seeders: 0, completed: 0, leechers: 0 },
        ],
    });
    assert_eq!(decode(&encode(&p)), DecodeResult::Packet(p));
}

#[test]
fn magic_priority_beats_action_codes() {
    // Bytes 8..12 hold 1, which elsewhere means announce; the magic
    // constant in bytes 0..8 must still win.
    let p = TrackerPacket::ConnectRequest(ConnectRequest {
        protocol_id: CONNECT_MAGIC,
        action: Action::Announce,
        transaction_id: 55,
    });
    let bytes = encode(&p);
    assert_eq!(bytes[8..12], [0, 0, 0, 1]);
    assert_eq!(decode(&bytes), DecodeResult::Packet(p));
}

#[test]
fn incomplete_under_sixteen_bytes() {
    for len in 0..16usize {
        let buf = vec![0xffu8; len];
        assert_eq!(decode(&buf), DecodeResult::Incomplete);
    }
}

#[test]
fn never_incomplete_at_sixteen_bytes() {
    let buf = vec![0xffu8; 16];
    assert_eq!(decode(&buf), DecodeResult::Unrecognized);
}

#[test]
fn announce_response_peer_counts_preserved() {
    for n in [0usize, 1, 50] {
        let peers: Vec<Peer> = (0..n)
            .map(|i| Peer { ip_address: 0x0a000000 + i as u32, port: 6000 + i as u16 })
            .collect();
        let p = TrackerPacket::AnnounceResponse(AnnounceResponse {
            action: Action::Announce,
            transaction_id: 1,
            interval: 600,
            leechers: 0,
            seeders: n as u32,
            peers,
        });
        let bytes = encode(&p);
        assert_eq!(bytes.len(), 20 + 6 * n);
        match decode(&bytes) {
            DecodeResult::Packet(TrackerPacket::AnnounceResponse(res)) => {
                assert_eq!(res.peers.len(), n);
                assert_eq!(DecodeResult::Packet(p), DecodeResult::Packet(TrackerPacket::AnnounceResponse(res)));
            }
            other => panic!("expected an announce response, got {:?}", other),
        }
    }
}

#[test]
fn announce_request_port_absent() {
    let p = TrackerPacket::AnnounceRequest(sample_announce_request(None));
    let bytes = encode(&p);
    assert_eq!(bytes.len(), 96);
    match decode(&bytes) {
        DecodeResult::Packet(TrackerPacket::AnnounceRequest(res)) => {
            assert_eq!(res.port, None);
            assert_eq!(res, sample_announce_request(None));
        }
        other => panic!("expected an announce request, got {:?}", other),
    }
}

#[test]
fn announce_request_port_present() {
    let p = TrackerPacket::AnnounceRequest(sample_announce_request(Some(40000)));
    let bytes = encode(&p);
    assert_eq!(bytes.len(), 98);
    match decode(&bytes) {
        DecodeResult::Packet(TrackerPacket::AnnounceRequest(res)) => {
            assert_eq!(res.port, Some(40000));
        }
        other => panic!("expected an announce request, got {:?}", other),
    }
}

#[test]
fn unknown_action_is_unrecognized() {
    // Bytes 8..12 hold 9 and bytes 0..4 hold 9: no interpretation matches.
    let mut buf = vec![0u8; 16];
    buf[3] = 9;
    buf[11] = 9;
    assert_eq!(decode(&buf), DecodeResult::Unrecognized);
}

#[test]
fn bad_event_is_unrecognized() {
    let mut bytes = encode(&TrackerPacket::AnnounceRequest(sample_announce_request(None)));
    // Corrupt the event field (bytes 80..84) to an undefined code.
    bytes[80] = 0xff;
    assert_eq!(decode(&bytes), DecodeResult::Unrecognized);
}

#[test]
fn short_announce_request_is_unrecognized() {
    // A request action of announce with only the 16-byte head present.
    let mut buf = vec![0u8; 16];
    buf[11] = 1;
    buf[0] = 0xaa; // connection id far from the magic constant
    assert_eq!(decode(&buf), DecodeResult::Unrecognized);
}

#[test]
fn ragged_trailing_bytes_are_unrecognized() {
    // A scrape request whose trailing bytes are not a whole number of
    // 20-byte hashes.
    let p = TrackerPacket::ScrapeRequest(ScrapeRequest {
        connection_id: 7777,
        action: Action::Scrape,
        transaction_id: 31,
        hashes: vec![InfoHash { hash: vec![9u8; 20] }],
    });
    let mut bytes = encode(&p);
    bytes.push(0);
    assert_eq!(decode(&bytes), DecodeResult::Unrecognized);

    // An announce response whose trailing bytes are not whole 6-byte peers.
    let q = TrackerPacket::AnnounceResponse(AnnounceResponse {
        action: Action::Announce,
        transaction_id: 1,
        interval: 600,
        leechers: 0,
        seeders: 1,
        peers: vec![Peer { ip_address: 1, port: 2 }],
    });
    let mut qbytes = encode(&q);
    qbytes.pop();
    assert_eq!(decode(&qbytes), DecodeResult::Unrecognized);
}

#[test]
fn decode_never_panics_on_random_buffers() {
    for trial in 0..1000 {
        let len = (trial % 128) as usize;
        let mut buf = vec![0u8; len];
        for b in buf.iter_mut() {
            *b = rand::random::<u8>();
        }
        let result = decode(&buf);
        if len < 16 {
            assert_eq!(result, DecodeResult::Incomplete);
        } else {
            assert!(matches!(
                result,
                DecodeResult::Packet(_) | DecodeResult::Unrecognized
            ));
        }
    }
}

#[test]
fn concrete_connect_then_scrape_scenario() {
    let connect = ConnectRequest {
        protocol_id: CONNECT_MAGIC,
        action: Action::Connect,
        transaction_id: 123,
    };
    let connect_bytes = encode(&TrackerPacket::ConnectRequest(connect));
    assert_eq!(connect_bytes.len(), 16);
    assert_eq!(
        decode(&connect_bytes),
        DecodeResult::Packet(TrackerPacket::ConnectRequest(connect))
    );

    let scrape = ScrapeRequest {
        connection_id: 42,
        action: Action::Scrape,
        transaction_id: 7,
        hashes: vec![InfoHash { hash: vec![0u8; 20] }, InfoHash { hash: vec![0xffu8; 20] }],
    };
    let scrape_bytes = encode(&TrackerPacket::ScrapeRequest(scrape.clone()));
    match decode(&scrape_bytes) {
        DecodeResult::Packet(TrackerPacket::ScrapeRequest(res)) => {
            assert_eq!(res.hashes.len(), 2);
            assert_eq!(res.hashes[0].hash, vec![0u8; 20]);
            assert_eq!(res.hashes[1].hash, vec![0xffu8; 20]);
        }
        other => panic!("expected a scrape request, got {:?}", other),
    }
}

#[test]
fn action_and_event_codes_are_exact() {
    assert_eq!(Action::from_code(0), Some(Action::Connect));
    assert_eq!(Action::from_code(1), Some(Action::Announce));
    assert_eq!(Action::from_code(2), Some(Action::Scrape));
    assert_eq!(Action::from_code(3), None);
    assert_eq!(Action::Scrape.code(), 2);
    assert_eq!(AnnounceEvent::from_code(0), Some(AnnounceEvent::NoEvent));
    assert_eq!(AnnounceEvent::from_code(3), Some(AnnounceEvent::Stopped));
    assert_eq!(AnnounceEvent::from_code(4), None);
    assert_eq!(AnnounceEvent::Completed.code(), 1);
}
