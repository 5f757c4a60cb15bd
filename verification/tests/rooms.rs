//! Sessions, channels, whisper targets, routing and the crypt layer.
use baston::channel::{ChannelStore, ROOT_CHANNEL};
use baston::crypto::{times2, CryptState, Ocb2};
use baston::pds::write_u64;
use baston::router::{resolve, AoiOracle, NoCulling, Recipient};
use baston::session::{parse_netid, SessionRegistry};
use baston::target::{ChannelTarget, Target, TargetRegistry};
use baston::voice::{parse, VoicePacket};
use baston::{VoicePacketType, VoiceTargetKind};

// --- channels ---

#[test]
fn starts_with_only_root() {
    let s = ChannelStore::new();
    assert!(s.contains(ROOT_CHANNEL));
    assert_eq!(s.iter().len(), 1);
}

#[test]
fn create_game_channel_is_idempotent_and_named() {
    let mut s = ChannelStore::new();
    assert_eq!(s.create_game_channel(6743).name, "Game Channel 6743");
    s.create_game_channel(6743);
    assert_eq!(s.iter().len(), 2); // root + one
}

#[test]
fn join_moves_between_channels() {
    let mut s = ChannelStore::new();
    s.join(1, ROOT_CHANNEL);
    assert_eq!(s.get(ROOT_CHANNEL).unwrap().members(), vec![1]);
    let left = s.join(1, 100);
    assert_eq!(left, Some(ROOT_CHANNEL));
    assert_eq!(s.get(100).unwrap().members(), vec![1]);
    assert_eq!(s.get(ROOT_CHANNEL).unwrap().members().len(), 0);
    assert_eq!(s.find(1), Some(100));
}

#[test]
fn temporary_channel_is_gced_when_empty() {
    let mut s = ChannelStore::new();
    s.join(1, 500); // auto temporary
    assert!(s.contains(500));
    s.leave(1);
    assert!(!s.contains(500), "empty temporary channel is removed");
}

#[test]
fn permanent_game_channel_survives_emptying() {
    let mut s = ChannelStore::new();
    s.create_game_channel(7);
    s.join(1, 7);
    s.leave(1);
    assert!(s.contains(7), "permanent channel persists");
}

#[test]
fn listeners_tracked_and_dropped() {
    let mut s = ChannelStore::new();
    s.create_game_channel(9);
    s.set_listening(1, 9, true);
    assert_eq!(s.get(9).unwrap().listeners(), vec![1]);
    s.drop_session(1);
    assert_eq!(s.get(9).unwrap().listeners().len(), 0);
}

// --- sessions ---

/// A temporary channel that only the dropped session kept goes with it.
#[test]
fn dropping_the_last_listener_closes_a_temporary_channel() {
    let mut s = ChannelStore::new();
    s.join(1, 500);
    s.set_listening(1, 500, true);
    s.drop_session(1);
    assert!(!s.contains(500));

    // Its last member left, and its last listener is dropped.
    s.join(2, 600);
    s.set_listening(3, 600, true);
    s.leave(2);
    assert!(s.contains(600), "somebody listens");
    s.drop_session(3);
    assert!(!s.contains(600));

    // Somebody else keeps the channel, and a permanent one stays.
    s.join(4, 700);
    s.set_listening(5, 700, true);
    s.create_game_channel(8);
    s.set_listening(5, 8, true);
    s.drop_session(5);
    assert!(s.contains(700) && s.contains(8));
}

#[test]
fn root_comes_first_and_keeps_its_name() {
    let mut s = ChannelStore::new();
    s.create_game_channel(9);
    s.join(1, 3);
    s.create_game_channel(3);
    let all: Vec<_> = s.iter().iter().map(|c| (c.id, c.name.clone(), c.temporary)).collect();
    assert_eq!(
        all,
        [
            (ROOT_CHANNEL, "Root".to_owned(), false),
            (3, "Game Channel 3".to_owned(), true),
            (9, "Game Channel 9".to_owned(), false),
        ]
    );
}

#[test]
fn parses_fivem_usernames() {
    assert_eq!(parse_netid("[7]"), Some(7));
    assert_eq!(parse_netid("[42] Lucas"), Some(42));
    assert_eq!(parse_netid("nobody"), None);
    assert_eq!(parse_netid("[abc]"), None);
    assert_eq!(parse_netid("[4294967296]"), None);
    assert_eq!(parse_netid("[7"), None);
}

#[test]
fn insert_get_remove() {
    let mut r = SessionRegistry::default();
    r.insert(7, "[7]".into());
    assert_eq!(r.len(), 1);
    assert!(r.get(7).unwrap().can_speak());
    r.remove(7);
    assert!(r.is_empty());
}

#[test]
fn mute_and_deaf_flags_gate_speech_and_hearing() {
    let mut r = SessionRegistry::default();
    let s = r.insert(1, "[1]".into());
    s.mute = true;
    assert!(!r.get(1).unwrap().can_speak());
    let s = r.get_mut(1).unwrap();
    s.mute = false;
    s.self_deaf = true;
    assert!(r.get(1).unwrap().can_speak());
    assert!(!r.get(1).unwrap().can_hear());
}

#[test]
fn context_match_requires_equal_nonempty_contexts() {
    let mut r = SessionRegistry::default();
    r.insert(1, "[1]".into()).context = Some(b"los-santos".to_vec());
    r.insert(2, "[2]".into()).context = Some(b"los-santos".to_vec());
    r.insert(3, "[3]".into()).context = Some(b"other".to_vec());
    r.insert(4, "[4]".into()); // no context
    assert!(r.contexts_match(1, 2));
    assert!(!r.contexts_match(1, 3));
    assert!(!r.contexts_match(1, 4));
}

// --- whisper targets ---

#[test]
fn stores_and_retrieves_a_target() {
    let mut r = TargetRegistry::default();
    r.set(
        3,
        Target {
            sessions: vec![10, 11],
            channels: vec![ChannelTarget { channel_id: 5, links: true, children: false }],
        },
    );
    let t = r.get(3).unwrap();
    assert_eq!(t.sessions, vec![10, 11]);
    assert_eq!(t.channels.len(), 1);
    assert!(t.channels[0].links);
}

#[test]
fn rejects_out_of_range_ids() {
    let mut r = TargetRegistry::default();
    r.set(0, Target::default());
    r.set(31, Target::default());
    r.set(200, Target::default());
    assert!(r.get(0).is_none());
    assert!(r.get(31).is_none());
}

#[test]
fn clear_and_clear_all() {
    let mut r = TargetRegistry::default();
    r.set(1, Target { sessions: vec![1], ..Default::default() });
    r.set(2, Target { sessions: vec![2], ..Default::default() });
    r.clear(1);
    assert!(r.get(1).is_none());
    assert!(r.get(2).is_some());
    r.clear_all();
    assert!(r.get(2).is_none());
}

// --- routing ---

fn packet(target: VoiceTargetKind, pos: Option<[f32; 3]>) -> VoicePacket {
    let mut p = Vec::new();
    p.push((VoicePacketType::Opus as u8) << 5 | target.to_bits());
    write_u64(&mut p, 1);
    write_u64(&mut p, 3);
    p.extend_from_slice(&[1, 2, 3]);
    if let Some(c) = pos {
        for v in c {
            p.extend_from_slice(&v.to_be_bytes());
        }
    }
    parse(&p).unwrap()
}

fn setup() -> (SessionRegistry, ChannelStore) {
    let mut s = SessionRegistry::default();
    for id in 1..=3 {
        s.insert(id, format!("[{id}]"));
    }
    let mut c = ChannelStore::new();
    c.join(1, ROOT_CHANNEL);
    c.join(2, ROOT_CHANNEL);
    c.join(3, ROOT_CHANNEL);
    (s, c)
}

#[test]
fn normal_talk_reaches_channel_peers_not_self() {
    let (s, c) = setup();
    let pkt = packet(VoiceTargetKind::Normal, None);
    let r = resolve(1, &pkt, &s, &c, &NoCulling);
    let ids: Vec<u32> = r.iter().map(|x| x.session).collect();
    assert_eq!(ids, vec![2, 3]);
    assert!(r.iter().all(|x| !x.with_position));
}

#[test]
fn position_forwarded_only_on_context_match() {
    let (mut s, c) = setup();
    s.get_mut(1).unwrap().context = Some(b"ls".to_vec());
    s.get_mut(2).unwrap().context = Some(b"ls".to_vec()); // matches 1
    // session 3 has no context → position stripped
    let pkt = packet(VoiceTargetKind::Normal, Some([1.0, 2.0, 3.0]));
    let r = resolve(1, &pkt, &s, &c, &NoCulling);
    let p2 = r.iter().find(|x| x.session == 2).unwrap();
    let p3 = r.iter().find(|x| x.session == 3).unwrap();
    assert!(p2.with_position, "matching context keeps position");
    assert!(!p3.with_position, "no context strips position");
}

#[test]
fn loopback_echoes_to_speaker_only() {
    let (s, c) = setup();
    let pkt = packet(VoiceTargetKind::Loopback, None);
    let r = resolve(1, &pkt, &s, &c, &NoCulling);
    assert_eq!(r, vec![Recipient { session: 1, with_position: false }]);
}

#[test]
fn deaf_listener_is_skipped() {
    let (mut s, c) = setup();
    s.get_mut(2).unwrap().self_deaf = true;
    let pkt = packet(VoiceTargetKind::Normal, None);
    let r = resolve(1, &pkt, &s, &c, &NoCulling);
    assert_eq!(r.iter().map(|x| x.session).collect::<Vec<_>>(), vec![3]);
}

#[test]
fn muted_speaker_is_silent() {
    let (mut s, c) = setup();
    s.get_mut(1).unwrap().mute = true;
    let pkt = packet(VoiceTargetKind::Normal, None);
    assert!(resolve(1, &pkt, &s, &c, &NoCulling).is_empty());
}

#[test]
fn whisper_targets_explicit_sessions_and_channels() {
    let (mut s, mut c) = setup();
    c.create_game_channel(50);
    c.join(3, 50); // 3 moves to channel 50
    // target 5: explicit session 2 + channel 50 (contains 3)
    s.get_mut(1).unwrap().targets.set(
        5,
        Target {
            sessions: vec![2],
            channels: vec![ChannelTarget { channel_id: 50, links: false, children: false }],
        },
    );
    let pkt = packet(VoiceTargetKind::Whisper(5), None);
    let r = resolve(1, &pkt, &s, &c, &NoCulling);
    let ids: Vec<u32> = r.iter().map(|x| x.session).collect();
    assert_eq!(ids, vec![2, 3]);
}

struct OnlyTwo;

impl AoiOracle for OnlyTwo {
    fn audible(&self, _s: u32, listener: u32) -> Option<bool> {
        Some(listener == 2)
    }
}

#[test]
fn aoi_oracle_culls_normal_talk() {
    let (s, c) = setup();
    let pkt = packet(VoiceTargetKind::Normal, None);
    let r = resolve(1, &pkt, &s, &c, &OnlyTwo);
    assert_eq!(r.iter().map(|x| x.session).collect::<Vec<_>>(), vec![2]);
}

// --- crypt layer ---

fn hex(s: &str) -> [u8; 16] {
    let bytes: Vec<u8> = (0..s.len())
        .step_by(2)
        .map(|i| u8::from_str_radix(&s[i..i + 2], 16).unwrap())
        .collect();
    let mut out = [0u8; 16];
    out.copy_from_slice(&bytes);
    out
}

fn hexs(b: &[u8]) -> String {
    b.iter().map(|x| format!("{x:02x}")).collect()
}

#[test]
fn times2_matches_rfc4493_subkey_derivation() {
    // RFC 4493 CMAC uses the identical GF(2^128) doubling (poly 0x87).
    // L = AES_K(0) for key 2b7e1516..., K1 = times2(L). Independent vector.
    let key = hex("2b7e151628aed2a6abf7158809cf4f3c");
    let ocb = Ocb2::new(&key);
    let l = ocb.aes_encrypt(&[0u8; 16]);
    assert_eq!(hexs(&l), "7df76b0c1ab899b33e42f047b91b546f", "AES_K(0) mismatch");
    let k1 = times2(&l);
    assert_eq!(hexs(&k1), "fbeed618357133667c85e08f7236a8de", "times2 (K1) mismatch");
}

#[test]
fn ocb_roundtrips_various_lengths() {
    let key = hex("000102030405060708090a0b0c0d0e0f");
    let nonce = hex("101112131415161718191a1b1c1d1e1f");
    let ocb = Ocb2::new(&key);
    for len in [1usize, 5, 15, 16, 17, 31, 32, 40, 60, 200] {
        let plain: Vec<u8> = (0..len).map(|i| (i * 7 + 3) as u8).collect();
        let mut enc = Vec::new();
        let t1 = ocb.ocb_encrypt(&plain, &mut enc, &nonce);
        assert_eq!(enc.len(), len, "ciphertext length preserved");
        let mut dec = Vec::new();
        let t2 = ocb.ocb_decrypt(&enc, &mut dec, &nonce);
        assert_eq!(dec, plain, "roundtrip failed at len {len}");
        assert_eq!(t1, t2, "tag mismatch at len {len}");
    }
}

#[test]
fn cryptstate_peer_roundtrip() {
    // Two peers sharing a key: A's encrypt_iv == B's decrypt_iv.
    let key = hex("0f0e0d0c0b0a09080706050403020100");
    let a_enc = hex("00000000000000000000000000000000");
    let b_dec = a_enc;
    let a_to_b_key = key;
    let mut a =
        CryptState::new(&a_to_b_key, &a_enc, &hex("aa000000000000000000000000000000"));
    let mut b =
        CryptState::new(&a_to_b_key, &hex("bb000000000000000000000000000000"), &b_dec);

    for n in 0..5u8 {
        let msg = vec![n; 20 + n as usize];
        let packet = a.encrypt(&msg);
        let got = b.decrypt(&packet).expect("valid packet decrypts");
        assert_eq!(got, msg, "packet {n} roundtrip");
    }
    assert_eq!(b.good, 5);
}

#[test]
fn tampered_tag_is_rejected() {
    let key = hex("0f0e0d0c0b0a09080706050403020100");
    let mut a = CryptState::new(&key, &[0u8; 16], &[0u8; 16]);
    let mut b = CryptState::new(&key, &[0u8; 16], &[0u8; 16]);
    let mut packet = a.encrypt(&[1, 2, 3, 4, 5]);
    packet[2] ^= 0xFF; // flip a tag byte
    assert!(b.decrypt(&packet).is_none());
}

#[test]
fn replayed_packet_is_rejected() {
    let key = hex("0f0e0d0c0b0a09080706050403020100");
    let mut a = CryptState::new(&key, &[0u8; 16], &[0u8; 16]);
    let mut b = CryptState::new(&key, &[0u8; 16], &[0u8; 16]);
    // Send a couple so the replay lands out-of-order (history path).
    let p1 = a.encrypt(&[9; 10]);
    let p2 = a.encrypt(&[8; 10]);
    assert!(b.decrypt(&p1).is_some());
    assert!(b.decrypt(&p2).is_some());
    assert!(b.decrypt(&p1).is_none(), "replay of p1 must be refused");
}

#[test]
fn late_and_lost_packets_are_counted() {
    let key = hex("0f0e0d0c0b0a09080706050403020100");
    let iv = hex("00010000000000000000000000000000");
    let mut a = CryptState::new(&key, &iv, &iv);
    let mut b = CryptState::new(&key, &iv, &iv);
    let p1 = a.encrypt(b"one");
    let p2 = a.encrypt(b"two");
    let p3 = a.encrypt(b"three");
    assert_eq!(b.decrypt(&p1).as_deref(), Some(&b"one"[..]));
    assert_eq!(b.decrypt(&p3).as_deref(), Some(&b"three"[..]), "a gap is tolerated");
    assert_eq!(b.counters(), (2, 0, 1));
    assert_eq!(b.decrypt(&p2).as_deref(), Some(&b"two"[..]), "and the late packet is taken");
    assert_eq!(b.counters(), (3, 1, 1));
    // Too short to hold a header.
    assert!(b.decrypt(&[1, 2, 3]).is_none());
}

/// A slot of the replay guard that has seen nothing refuses nothing: the second packet
/// opens though the first never came.
#[test]
fn a_lost_first_packet_is_tolerated() {
    let mut a = CryptState::new(&[7; 16], &[0; 16], &[0; 16]);
    let mut b = CryptState::new(&[7; 16], &[0; 16], &[0; 16]);
    let _lost = a.encrypt(&[9; 10]);
    let second = a.encrypt(&[8; 10]);
    assert_eq!(second.len(), 14, "four bytes go before the text");
    assert_eq!(second[0], a.encrypt_iv[0]);
    assert_eq!(b.decrypt(&second), Some(vec![8; 10]));
    assert_eq!(b.lost, 1);
    assert_eq!(b.good, 1);
    assert!(b.decrypt(&second).is_none(), "but once is enough");
    assert_eq!(b.good, 1);
}
