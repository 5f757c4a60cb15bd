//! The voice server: logins, voice over both transports and the script surface.
use baston::crypto::CryptState;
use baston::pds::{write_u64, PdsReader};
use baston::server::{Action, Incoming, Outgoing, Peer, UserStateIn, VoiceState};
use baston::voice::parse;
use baston::{VoicePacketType, VoiceTargetKind};

fn peer(port: u16) -> Peer {
    Peer { v6: false, ip: 0x7f00_0001, port, flowinfo: 0, scope_id: 0 }
}

/// Log a client in, and return the client's side of the crypt state.
fn login(server: &mut VoiceState, netid: u32) -> CryptState {
    let version = server.handle_message(None, Incoming::Version, None);
    assert!(version.keep);
    assert_eq!(version.session, None);

    let n = netid as u8;
    let material = ([n; 16], [n + 100; 16], [n + 200; 16]);
    let outcome = server.handle_message(
        None,
        Incoming::Authenticate { username: Some(format!("[{netid}]")) },
        Some(material),
    );
    assert!(outcome.keep);
    assert_eq!(outcome.session, Some(netid), "session id == netId");
    let mut crypt = None;
    let mut synced = None;
    for action in &outcome.actions {
        match action {
            Action::Reply(Outgoing::CryptSetup { material: Some((key, nonce)), server_nonce }) => {
                // Client side: encrypt with the client nonce, decrypt with the server's.
                crypt = Some(CryptState::new(key, nonce, server_nonce));
            }
            Action::Reply(Outgoing::ServerSync {
                session,
                max_bandwidth,
                welcome_text,
                permissions,
            }) => {
                assert_eq!((*max_bandwidth, *permissions), (128_000, 0x0f07_ffff));
                assert_eq!(welcome_text, "BASTON voice");
                synced = Some(*session);
            }
            _ => {}
        }
    }
    assert_eq!(synced, Some(netid));
    crypt.expect("key material is sent")
}

/// A minimal Opus voice datagram (plaintext form): header byte, sequence
/// varint, one frame.
fn opus_datagram(audio: &[u8]) -> Vec<u8> {
    let mut p = Vec::new();
    p.push((VoicePacketType::Opus as u8) << 5 | VoiceTargetKind::Normal.to_bits());
    write_u64(&mut p, 1); // sequence
    write_u64(&mut p, audio.len() as u64);
    p.extend_from_slice(audio);
    p
}

#[test]
fn two_clients_handshake_and_tunneled_voice_is_routed() {
    let mut server = VoiceState::new();
    login(&mut server, 1);
    login(&mut server, 2);

    // Client 1 speaks through the TCP tunnel (UDP "blocked"); client 2 has no
    // UDP flow either, so delivery must come back as a UDPTunnel frame.
    let datagram = opus_datagram(&[0xAB; 20]);
    let outcome =
        server.handle_message(Some(1), Incoming::UdpTunnel { packet: datagram.clone() }, None);
    let tunneled = match &outcome.actions[..] {
        [Action::Control { session: 2, message: Outgoing::UdpTunnel { packet } }] => packet,
        other => panic!("unexpected actions: {other:?}"),
    };

    // The delivered packet carries the speaker session (1) prepended.
    let parsed = parse(tunneled).expect("outbound parses");
    assert_eq!(parsed.codec, VoicePacketType::Opus);
    let mut r = PdsReader::new(&tunneled[1..]);
    assert_eq!(r.read_u64(), Some(1), "speaker session prepended");
}

#[test]
fn udp_voice_roundtrips_through_ocb2() {
    let mut server = VoiceState::new();
    let mut crypt1 = login(&mut server, 1);
    let mut crypt2 = login(&mut server, 2);

    // Bind client 2's UDP flow with an encrypted ping (type=Ping, seq varint).
    let mut ping = Vec::new();
    ping.push((VoicePacketType::Ping as u8) << 5);
    write_u64(&mut ping, 99);
    let actions = server.handle_datagram(peer(2002), &crypt2.encrypt(&ping));
    match &actions[..] {
        [Action::Datagram { peer: to, bytes }] => {
            assert_eq!(*to, peer(2002));
            let echoed = crypt2.decrypt(bytes).expect("echo decrypts");
            assert_eq!(echoed, ping, "encrypted ping echoes verbatim");
        }
        other => panic!("unexpected actions: {other:?}"),
    }

    // Client 1 speaks over UDP; client 2 must receive an encrypted datagram.
    let datagram = opus_datagram(&[0x5A; 32]);
    let actions = server.handle_datagram(peer(1001), &crypt1.encrypt(&datagram));
    match &actions[..] {
        [Action::Datagram { peer: to, bytes }] => {
            assert_eq!(*to, peer(2002));
            let plain = crypt2.decrypt(bytes).expect("voice decrypts");
            let mut r = PdsReader::new(&plain[1..]);
            assert_eq!(r.read_u64(), Some(1), "speaker session is client 1");
            let parsed = parse(&plain).expect("outbound voice parses");
            assert_eq!(parsed.codec, VoicePacketType::Opus);
        }
        other => panic!("unexpected actions: {other:?}"),
    }
}

#[test]
fn spawn_binds_ephemeral_port_and_handle_answers_natives() {
    let mut server = VoiceState::new();

    // Channel natives work without any connected client.
    assert!(!server.channel_exists(42));
    server.create_channel(42);
    assert!(server.channel_exists(42));

    // Mute of an unknown player is a no-op; query returns false.
    server.set_player_muted(7, true);
    assert!(!server.is_player_muted(7));

    // Proximity override round-trip.
    let bits = |p: [f32; 3]| [p[0].to_bits(), p[1].to_bits(), p[2].to_bits()];
    assert_eq!(server.proximity_override(7), bits([0.0; 3]));
    server.set_proximity_override(7, Some(bits([1.0, 2.0, 3.0])));
    assert_eq!(server.proximity_override(7), bits([1.0, 2.0, 3.0]));
    server.set_proximity_override(7, None);
    assert_eq!(server.proximity_override(7), bits([0.0; 3]));
}

#[test]
fn a_bad_username_is_refused() {
    let mut server = VoiceState::new();
    let outcome = server.handle_message(
        None,
        Incoming::Authenticate { username: Some("nobody".into()) },
        Some(([0; 16], [1; 16], [2; 16])),
    );
    assert!(!outcome.keep);
    assert!(matches!(&outcome.actions[..], [Action::Reply(Outgoing::Reject { .. })]));
}

#[test]
fn a_client_changes_its_own_state_only() {
    let mut server = VoiceState::new();
    login(&mut server, 1);
    let change = UserStateIn {
        self_mute: Some(true),
        self_deaf: Some(true),
        plugin_context: None,
        channel_id: Some(64),
        listening_channel_add: vec![],
        listening_channel_remove: vec![],
    };
    let outcome = server.handle_message(Some(1), Incoming::UserState(change), None);
    assert!(outcome.keep);
    assert!(server.channel_exists(64), "joining an unknown channel makes it");
    assert!(!server.sessions.get(1).unwrap().can_hear());
    assert!(
        !server.is_player_muted(1),
        "the server's mute is not the client's to change"
    );
}

#[test]
fn a_dropped_player_is_forgotten() {
    let mut server = VoiceState::new();
    login(&mut server, 1);
    let mut crypt = login(&mut server, 2);
    let actions = server.on_player_dropped(2);
    assert!(actions.iter().any(|a| matches!(
        a,
        Action::Broadcast { message: Outgoing::UserRemove { session: 2 }, .. }
    )));
    // Its key is gone with it.
    let datagram = crypt.encrypt(&opus_datagram(&[1; 4]));
    assert!(server.handle_datagram(peer(2002), &datagram).is_empty());
}

#[test]
fn the_server_says_what_it_is_and_permits_everything() {
    let mut server = VoiceState::new();
    let outcome = server.handle_message(None, Incoming::Version, None);
    assert!(matches!(
        &outcome.actions[..],
        [Action::Reply(Outgoing::Version { version: 0x0001_0400, release })]
            if release == "baston-voice"
    ));
    let outcome =
        server.handle_message(None, Incoming::PermissionQuery { channel_id: Some(4) }, None);
    assert!(matches!(
        &outcome.actions[..],
        [Action::Reply(Outgoing::PermissionQuery {
            channel_id: Some(4),
            permissions: 0x0f07_ffff,
            flush: false,
        })]
    ));
}

#[test]
fn a_stranger_changes_nothing_and_a_dropped_player_is_nowhere() {
    let mut server = VoiceState::new();
    let outcome = server.handle_message(
        None,
        Incoming::UserState(UserStateIn {
            self_mute: None,
            self_deaf: Some(true),
            plugin_context: None,
            channel_id: Some(9),
            listening_channel_add: vec![],
            listening_channel_remove: vec![],
        }),
        None,
    );
    assert!(outcome.keep);
    assert_eq!(outcome.session, None);
    assert!(outcome.actions.is_empty());
    assert!(!server.channel_exists(9));

    login(&mut server, 7);
    server.set_proximity_override(7, Some([1, 2, 3]));
    assert_eq!(server.on_player_dropped(7).len(), 1);
    assert!(server.sessions.is_empty());
    assert_eq!(server.channels.find(7), None);
    assert_eq!(server.proximity_override(7), [0, 0, 0]);
    assert!(server.on_player_dropped(7).is_empty());
}

#[test]
fn the_first_packet_opens_and_so_do_late_ones_and_those_after_a_loss() {
    let mut server = VoiceState::new();
    let mut client = login(&mut server, 3);
    let packets: Vec<Vec<u8>> = (0..6u8).map(|n| client.encrypt(&[n, n])).collect();
    let peer = peer(4000);
    for n in [0usize, 1, 4, 2, 5, 3] {
        let taken = server.decrypt_from(peer, &packets[n]);
        assert_eq!(taken, Some((3, vec![n as u8, n as u8])), "packet {n}");
    }
    assert_eq!(server.decrypt_from(peer, &packets[2]), None, "a replay");
}
