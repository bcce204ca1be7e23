use bridge_core::join_code::{
    decode_payload, encode_relay_payload, JoinCode, JoinCodeError, RelayJoinCode, SessionCredential,
};
use bridge_core::lan_join_code::{encode_lan_payload, LanEndpoint, LanJoinCode, PeerIdentity};
use sha2::{Digest, Sha256};
use bridge_core::pow::{decode_hex_16, leading_zero_bits, solve_pow, PowError};

fn code() -> RelayJoinCode {
    RelayJoinCode {
        relay_id: Some("  eu-1 ".to_owned()),
        relay_host: " relay.example.test ".to_owned(),
        relay_port: 25_910,
        session_credential: SessionCredential::from_bytes([7; 16]),
    }
}

fn relay_of(code: JoinCode) -> RelayJoinCode {
    match code {
        JoinCode::ExternalRelay(c) => c,
        JoinCode::LanDirect(_) => panic!("expected a relay code"),
    }
}

fn lan_of(code: JoinCode) -> LanJoinCode {
    match code {
        JoinCode::LanDirect(c) => c,
        JoinCode::ExternalRelay(_) => panic!("expected a LAN code"),
    }
}

fn lan_code() -> LanJoinCode {
    LanJoinCode {
        introducer: PeerIdentity { steam_id64: 76_561_198_000_000_001, instance_id: [3; 16] },
        control_endpoints: vec![
            LanEndpoint::V4 { address: u32::from_be_bytes([192, 168, 1, 20]), port: 27_015 },
            LanEndpoint::V6 { address: 0xfe80_0000_0000_0000_0000_0000_0000_0001, port: 27_016, flowinfo: 0, scope_id: 7 },
        ],
        session_credential: SessionCredential::from_bytes([9; 16]),
    }
}

fn with_checksum(mut content: Vec<u8>) -> Vec<u8> {
    let digest = Sha256::digest(&content);
    content.extend_from_slice(&digest[..4]);
    content
}

#[test]
fn relay_join_code_round_trips_with_trimmed_fields() {
    let text = code().encode().unwrap();
    assert!(text.starts_with('T') && text.ends_with('T'));
    let decoded = relay_of(JoinCode::decode(&format!("  {text}\n")).unwrap());
    assert_eq!(decoded.relay_id.as_deref(), Some("eu-1"));
    assert_eq!(decoded.relay_host, "relay.example.test");
    assert_eq!(decoded.relay_port, 25_910);
    assert_eq!(decoded.session_credential.as_bytes(), [7; 16]);
    assert_eq!(decoded.endpoint().host, "relay.example.test");
}

#[test]
fn relay_payload_layout_is_fixed() {
    let payload = encode_relay_payload(&code()).unwrap();
    assert_eq!(&payload[..8], &[b'T', b'B', 5, 1, 4, 18, 0x65, 0x36]);
    assert_eq!(&payload[8..24], &[7; 16]);
    assert_eq!(&payload[24..28], b"eu-1");
    assert_eq!(payload.len(), 24 + 4 + 18 + 4);
}

#[test]
fn relay_join_code_errors_are_specific() {
    let mut bad = code();
    bad.relay_port = 0;
    assert_eq!(bad.encode(), Err(JoinCodeError::InvalidRelayPort));
    bad = code();
    bad.relay_host = "   ".to_owned();
    assert_eq!(bad.encode(), Err(JoinCodeError::MissingRelayHost));
    assert_eq!(JoinCode::decode("BabcB").err(), Some(JoinCodeError::LegacyV4));
    assert_eq!(JoinCode::decode("xyz").err(), Some(JoinCodeError::MissingPrefix));
    assert_eq!(JoinCode::decode("Tabc").err(), Some(JoinCodeError::MissingSuffix));
    assert!(matches!(JoinCode::decode("T0OIlT"), Err(JoinCodeError::InvalidEncoding(_))));

    let mut payload = encode_relay_payload(&code()).unwrap();
    let last = payload.len() - 1;
    payload[last] ^= 1;
    assert_eq!(decode_payload(&payload).err(), Some(JoinCodeError::ChecksumMismatch));
    payload[2] = 9;
    assert_eq!(decode_payload(&payload).err(), Some(JoinCodeError::UnsupportedVersion(9)));
    payload[2] = 6;
    assert_eq!(decode_payload(&payload).err(), Some(JoinCodeError::Truncated));
    payload[0] = b'X';
    assert_eq!(decode_payload(&payload).err(), Some(JoinCodeError::BadMagic));
    assert_eq!(decode_payload(&[b'T', b'B']).err(), Some(JoinCodeError::Truncated));
}

#[test]
fn credential_wire_secret_is_base58() {
    let credential = SessionCredential::from_bytes([0; 16]);
    assert_eq!(credential.wire_secret(), "1111111111111111");
    assert_eq!(credential.redacted_text(), "SessionCredential([REDACTED])");
}

#[test]
fn leading_zero_bits_counts_whole_and_partial_bytes() {
    let mut digest = [0u8; 32];
    digest[1] = 0b0001_0000;
    assert!(leading_zero_bits(&digest, 8));
    assert!(leading_zero_bits(&digest, 11));
    assert!(!leading_zero_bits(&digest, 12));
    assert!(leading_zero_bits(&digest, 0));
}

#[test]
fn hex_challenges_decode_or_fail() {
    assert_eq!(
        decode_hex_16("000102030405060708090a0b0c0d0e0f"),
        Ok([0, 1, 2, 3, 4, 5, 6, 7, 8, 9, 10, 11, 12, 13, 14, 15])
    );
    assert_eq!(decode_hex_16("00"), Err(PowError::InvalidLength));
    assert_eq!(decode_hex_16("zz0102030405060708090a0b0c0d0e0f"), Err(PowError::InvalidHex));
}

#[test]
fn proof_of_work_finds_a_valid_proof() {
    let challenge = "00112233445566778899aabbccddeeff";
    let nonce = "ffeeddccbbaa99887766554433221100";
    assert_eq!(solve_pow(challenge, &[1; 16], 42, nonce, 0), Ok(String::new()));
    let proof = solve_pow(challenge, &[1; 16], 42, nonce, 8).unwrap();
    assert_eq!(proof.len(), 16);
    let mut message = Vec::new();
    message.extend_from_slice(&decode_hex_16(challenge).unwrap());
    message.extend_from_slice(&[1; 16]);
    message.extend_from_slice(&42u64.to_be_bytes());
    message.extend_from_slice(&decode_hex_16(nonce).unwrap());
    message.extend_from_slice(proof.as_bytes());
    let digest = Sha256::digest(&message);
    assert_eq!(digest[0], 0);
    assert!(proof.chars().all(|c| c.is_ascii_hexdigit() && !c.is_ascii_uppercase()));
    assert_eq!(solve_pow("bad", &[1; 16], 42, nonce, 8), Err(PowError::InvalidLength));
}

#[test]
fn lan_join_code_round_trips() {
    let text = JoinCode::LanDirect(lan_code()).encode().unwrap();
    assert!(text.starts_with('T') && text.ends_with('T'));
    let decoded = lan_of(JoinCode::decode(&format!(" {text} ")).unwrap());
    assert!(decoded == lan_code());
    assert_eq!(decoded.control_endpoints.len(), 2);
    assert_eq!(decoded.introducer.steam_id64, 76_561_198_000_000_001);
}

#[test]
fn lan_payload_layout_is_fixed() {
    let payload = encode_lan_payload(&lan_code()).unwrap();
    assert_eq!(payload.len(), 48 + 2 * 24 + 4);
    assert_eq!(&payload[..8], &[b'T', b'B', 6, 1, 0, 2, 0, 0]);
    assert_eq!(&payload[8..24], &[9; 16]);
    assert_eq!(&payload[24..32], &76_561_198_000_000_001u64.to_be_bytes());
    assert_eq!(&payload[32..48], &[3; 16]);
    assert_eq!(&payload[48..60], &[4, 0, 0x69, 0x87, 0, 0, 0, 0, 192, 168, 1, 20]);
    assert_eq!(&payload[60..72], &[0; 12]);
    assert_eq!(&payload[72..80], &[6, 0, 0x69, 0x88, 0, 0, 0, 7]);
    assert_eq!(payload[80], 0xfe);
    assert_eq!(payload[95], 1);
    assert!(matches!(decode_payload(&payload), Ok(JoinCode::LanDirect(c)) if c == lan_code()));
}

#[test]
fn lan_payload_with_one_byte_too_many_is_trailing() {
    let mut b = [0u8; 77];
    b[0] = b'T';
    b[1] = b'B';
    b[2] = 6;
    b[3] = 1;
    b[5] = 1;
    assert!(matches!(decode_payload(&b), Err(JoinCodeError::TrailingBytes)));
}

#[test]
fn lan_encode_errors_are_specific() {
    let mut bad = lan_code();
    bad.introducer.steam_id64 = 0;
    assert_eq!(encode_lan_payload(&bad).err(), Some(JoinCodeError::ZeroIntroducerSteamId));
    bad = lan_code();
    bad.introducer.instance_id = [0; 16];
    assert_eq!(encode_lan_payload(&bad).err(), Some(JoinCodeError::ZeroIntroducerInstanceId));
    bad = lan_code();
    bad.control_endpoints.clear();
    assert_eq!(encode_lan_payload(&bad).err(), Some(JoinCodeError::MissingLanCandidates));
    bad = lan_code();
    let first = bad.control_endpoints[0];
    bad.control_endpoints.push(first);
    assert_eq!(encode_lan_payload(&bad).err(), Some(JoinCodeError::DuplicateLanCandidate(first)));
    bad = lan_code();
    bad.control_endpoints.push(LanEndpoint::V6 { address: 1, port: 1, flowinfo: 5, scope_id: 0 });
    assert_eq!(encode_lan_payload(&bad).err(), Some(JoinCodeError::UnsupportedIpv6FlowInfo));
    bad = lan_code();
    bad.control_endpoints = (0..9).map(|i| LanEndpoint::V4 { address: i, port: 1 }).collect();
    assert_eq!(encode_lan_payload(&bad).err(), Some(JoinCodeError::TooManyLanCandidates(9)));
    bad.control_endpoints.truncate(8);
    assert_eq!(encode_lan_payload(&bad).unwrap().len(), 48 + 8 * 24 + 4);
}

#[test]
fn lan_decode_errors_are_specific() {
    let good = encode_lan_payload(&lan_code()).unwrap();
    let content = good[..good.len() - 4].to_vec();
    let mut big = vec![0u8; 300];
    big[..3].copy_from_slice(&[b'T', b'B', 6]);
    assert_eq!(decode_payload(&big).err(), Some(JoinCodeError::PayloadTooLarge(300)));
    let mut c = content.clone();
    c[3] = 2;
    assert_eq!(decode_payload(&with_checksum(c)).err(), Some(JoinCodeError::UnsupportedRoute(2)));
    let mut c = content.clone();
    c[4] = 1;
    assert_eq!(decode_payload(&with_checksum(c)).err(), Some(JoinCodeError::UnsupportedFlags(1)));
    let mut c = content.clone();
    c[7] = 1;
    assert_eq!(decode_payload(&with_checksum(c)).err(), Some(JoinCodeError::NonZeroReserved));
    let mut c = content.clone();
    c[5] = 0;
    assert_eq!(decode_payload(&with_checksum(c)).err(), Some(JoinCodeError::MissingLanCandidates));
    let mut c = content.clone();
    c[5] = 9;
    assert_eq!(decode_payload(&with_checksum(c)).err(), Some(JoinCodeError::TooManyLanCandidates(9)));
    let mut c = content.clone();
    c[5] = 3;
    assert_eq!(decode_payload(&with_checksum(c)).err(), Some(JoinCodeError::Truncated));
    let mut broken = good.clone();
    broken[10] ^= 1;
    assert_eq!(decode_payload(&broken).err(), Some(JoinCodeError::ChecksumMismatch));
    let mut c = content.clone();
    c[24..32].copy_from_slice(&[0; 8]);
    assert_eq!(decode_payload(&with_checksum(c)).err(), Some(JoinCodeError::ZeroIntroducerSteamId));
    let mut c = content.clone();
    c[48] = 5;
    assert_eq!(decode_payload(&with_checksum(c)).err(), Some(JoinCodeError::UnsupportedAddressFamily(5)));
    let mut c = content.clone();
    c[49] = 1;
    assert_eq!(decode_payload(&with_checksum(c)).err(), Some(JoinCodeError::NonZeroCandidateReserved));
    let mut c = content.clone();
    c[71] = 1;
    assert_eq!(decode_payload(&with_checksum(c)).err(), Some(JoinCodeError::NonZeroCandidateReserved));
    let mut c = content.clone();
    let first: Vec<u8> = c[48..72].to_vec();
    c[72..96].copy_from_slice(&first);
    assert_eq!(
        decode_payload(&with_checksum(c)).err(),
        Some(JoinCodeError::DuplicateLanCandidate(lan_code().control_endpoints[0]))
    );
}
