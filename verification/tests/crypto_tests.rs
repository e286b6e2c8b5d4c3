use songbird::driver::crypto::{CryptoMode, CryptoState, KEY_SIZE, RTP_HEADER_SIZE, TAG_SIZE};

fn test_key() -> Vec<u8> {
    (0..KEY_SIZE as u8).collect()
}

fn sample_packet(payload_len: usize) -> Vec<u8> {
    let mut pkt: Vec<u8> = Vec::new();
    for i in 0..RTP_HEADER_SIZE + payload_len {
        pkt.push((i % 251) as u8);
    }
    pkt
}

#[test]
fn request_strings_match_negotiation_names() {
    assert_eq!(CryptoMode::Normal.to_request_str(), "xsalsa20_poly1305");
    assert_eq!(CryptoMode::Suffix.to_request_str(), "xsalsa20_poly1305_suffix");
    assert_eq!(CryptoMode::Lite.to_request_str(), "xsalsa20_poly1305_lite");
}

#[test]
fn nonce_and_overhead_sizes() {
    assert_eq!(CryptoMode::Normal.nonce_size(), 12);
    assert_eq!(CryptoMode::Suffix.nonce_size(), 24);
    assert_eq!(CryptoMode::Lite.nonce_size(), 4);
    assert_eq!(CryptoMode::payload_prefix_len(), 16);
    assert_eq!(CryptoMode::Normal.payload_suffix_len(), 0);
    assert_eq!(CryptoMode::Suffix.payload_suffix_len(), 24);
    assert_eq!(CryptoMode::Lite.payload_suffix_len(), 4);
    assert_eq!(CryptoMode::Normal.payload_overhead(), 16);
    assert_eq!(CryptoMode::Suffix.payload_overhead(), 40);
    assert_eq!(CryptoMode::Lite.payload_overhead(), 20);
}

#[test]
fn state_kind_matches_mode() {
    assert_eq!(CryptoState::Normal.kind(), CryptoMode::Normal);
    assert_eq!(CryptoState::Suffix.kind(), CryptoMode::Suffix);
    assert_eq!(CryptoState::Lite(7).kind(), CryptoMode::Lite);
    assert_eq!(CryptoState::from_mode(CryptoMode::Normal).kind(), CryptoMode::Normal);
    assert_eq!(CryptoState::from_mode(CryptoMode::Suffix).kind(), CryptoMode::Suffix);
    assert_eq!(CryptoState::from_mode(CryptoMode::Lite).kind(), CryptoMode::Lite);
}

// Encrypt then decrypt with the nonce region read back from the packet:
// the payload round-trips for all three modes.
#[test]
fn encrypt_decrypt_round_trip_normal() {
    round_trip(CryptoMode::Normal);
}

#[test]
fn encrypt_decrypt_round_trip_suffix() {
    round_trip(CryptoMode::Suffix);
}

#[test]
fn encrypt_decrypt_round_trip_lite() {
    round_trip(CryptoMode::Lite);
}

fn round_trip(mode: CryptoMode) {
    let key = test_key();
    let payload_len = TAG_SIZE + 100 + mode.payload_suffix_len();
    let mut pkt = sample_packet(payload_len);
    let original = pkt.clone();
    assert!(mode.encrypt_in_place(&mut pkt, &key, payload_len).is_ok());
    // Header and nonce suffix are untouched; the body actually changed.
    assert_eq!(&pkt[..RTP_HEADER_SIZE], &original[..RTP_HEADER_SIZE]);
    let body_lo = RTP_HEADER_SIZE + TAG_SIZE;
    let body_hi = RTP_HEADER_SIZE + payload_len - mode.payload_suffix_len();
    assert_ne!(&pkt[body_lo..body_hi], &original[body_lo..body_hi]);
    assert_eq!(
        &pkt[body_hi..RTP_HEADER_SIZE + payload_len],
        &original[body_hi..RTP_HEADER_SIZE + payload_len]
    );
    assert!(mode.decrypt_in_place(&mut pkt, &key, payload_len).is_ok());
    assert_eq!(&pkt[body_lo..body_hi], &original[body_lo..body_hi]);
}

#[test]
fn tampered_packet_fails_authentication() {
    let key = test_key();
    let payload_len = TAG_SIZE + 50;
    let mut pkt = sample_packet(payload_len);
    assert!(CryptoMode::Normal.encrypt_in_place(&mut pkt, &key, payload_len).is_ok());
    pkt[RTP_HEADER_SIZE + TAG_SIZE] ^= 0x01;
    let before = pkt.clone();
    assert!(CryptoMode::Normal.decrypt_in_place(&mut pkt, &key, payload_len).is_err());
    // A failed decrypt leaves the packet as it was.
    assert_eq!(pkt, before);
}

#[test]
fn wrong_key_fails_authentication() {
    let key = test_key();
    let mut other = test_key();
    other[0] ^= 0xff;
    let payload_len = TAG_SIZE + 50;
    let mut pkt = sample_packet(payload_len);
    assert!(CryptoMode::Normal.encrypt_in_place(&mut pkt, &key, payload_len).is_ok());
    assert!(CryptoMode::Normal.decrypt_in_place(&mut pkt, &other, payload_len).is_err());
}

// The Lite nonce is written big-endian and the stored counter steps by
// one in place, so the next packet sees the incremented value.
#[test]
fn lite_nonce_written_and_counter_steps() {
    let mut state = CryptoState::Lite(0xdeadbeef);
    let payload_end = TAG_SIZE + 10;
    let mut pkt = sample_packet(payload_end + 4);
    let end = state.write_packet_nonce(&mut pkt, payload_end);
    assert_eq!(end, payload_end + 4);
    let at = RTP_HEADER_SIZE + payload_end;
    assert_eq!(&pkt[at..at + 4], &[0xde, 0xad, 0xbe, 0xef]);
    assert_eq!(state, CryptoState::Lite(0xdeadbef0));
}

#[test]
fn lite_counter_wraps() {
    let mut state = CryptoState::Lite(u32::MAX);
    let payload_end = TAG_SIZE;
    let mut pkt = sample_packet(payload_end + 4);
    let _ = state.write_packet_nonce(&mut pkt, payload_end);
    assert_eq!(state, CryptoState::Lite(0));
}

#[test]
fn normal_mode_writes_no_nonce() {
    let mut state = CryptoState::Normal;
    let payload_end = TAG_SIZE + 8;
    let mut pkt = sample_packet(payload_end);
    let before = pkt.clone();
    let end = state.write_packet_nonce(&mut pkt, payload_end);
    assert_eq!(end, payload_end);
    assert_eq!(pkt, before);
    assert_eq!(state, CryptoState::Normal);
}

#[test]
fn suffix_mode_fills_twenty_four_bytes() {
    let mut state = CryptoState::Suffix;
    let payload_end = TAG_SIZE + 8;
    let mut pkt = vec![0u8; RTP_HEADER_SIZE + payload_end + 24];
    let end = state.write_packet_nonce(&mut pkt, payload_end);
    assert_eq!(end, payload_end + 24);
    assert_eq!(state, CryptoState::Suffix);
}

// Randomness sanity: two consecutive random suffixes essentially never
// coincide.
#[test]
fn suffix_nonces_differ_between_packets() {
    let mut state = CryptoState::Suffix;
    let payload_end = TAG_SIZE;
    let mut a = vec![0u8; RTP_HEADER_SIZE + payload_end + 24];
    let mut b = vec![0u8; RTP_HEADER_SIZE + payload_end + 24];
    let _ = state.write_packet_nonce(&mut a, payload_end);
    let _ = state.write_packet_nonce(&mut b, payload_end);
    let at = RTP_HEADER_SIZE + payload_end;
    assert_ne!(&a[at..at + 24], &b[at..at + 24]);
}

// A payload too short to hold the nonce suffix is rejected untouched,
// as negotiation promises.
#[test]
fn suffix_encrypt_rejects_short_payload() {
    let key = test_key();
    let payload_len = 10;
    let mut pkt = sample_packet(payload_len);
    let before = pkt.clone();
    assert!(CryptoMode::Suffix.encrypt_in_place(&mut pkt, &key, payload_len).is_err());
    assert_eq!(pkt, before);
    let mut pkt2 = sample_packet(2);
    let before2 = pkt2.clone();
    assert!(CryptoMode::Lite.encrypt_in_place(&mut pkt2, &key, 2).is_err());
    assert_eq!(pkt2, before2);
}
