//! Player-shareable join codes for relay sessions: a checksummed binary
//! payload in base58, framed as `T…T`.

use vstd::prelude::*;
use vstd::utf8::{decode_utf8, encode_utf8, encode_utf8_decode_utf8, encode_utf8_valid_utf8, valid_utf8};
use crate::base58::{base58_decode, base58_encode, base58_error_text, spec_base58_decode, spec_base58_encode};
use crate::digest::{sha256, spec_sha256};
use crate::pow::{extend_bytes, spec_be_u64};
use crate::session_config::RelayEndpoint;
use crate::text::{lemma_trim_unchanged, spec_trim, trim};
use crate::utf8::utf8_text;
use crate::lan_join_code::{
    LAN_DIRECT_ROUTE, LanEndpoint, LanJoinCode, decode_lan_payload, encode_lan_payload, law_lan_payload_round_trip,
    spec_encode_endpoints, spec_lan_decode, spec_lan_payload,
};
use rand::RngExt;

verus! {

/// The first two payload bytes, `TB`.
pub const JOIN_CODE_MAGIC_0: u8 = 84;
pub const JOIN_CODE_MAGIC_1: u8 = 66;
/// Checksum bytes at the end of a payload.
pub const CHECKSUM_LEN: usize = 4;
/// Payload version of relay codes.
pub const RELAY_JOIN_CODE_VERSION: u8 = 5;
/// Payload version of LAN Direct codes.
pub const LAN_JOIN_CODE_VERSION: u8 = 6;
/// Bytes of a relay payload before its variable fields.
pub const FIXED_PAYLOAD_LEN: usize = 24;
/// Flag bit: the payload carries a relay id.
pub const RELAY_ID_PRESENT: u8 = 1;
pub const MAX_RELAY_ID_LEN: usize = 64;
pub const MAX_RELAY_HOST_LEN: usize = 255;

/// The secret that admits a player to a session.
#[derive(Clone, Copy, PartialEq, Eq, Hash)]
pub struct SessionCredential {
    bytes: [u8; 16],
}

impl View for SessionCredential {
    type V = Seq<u8>;

    closed spec fn view(&self) -> Seq<u8> {
        self.bytes@
    }
}

/// Calls `rand::rng().random::<[u8; 16]>()`: sixteen bytes from the
/// thread's random generator; nothing is promised of their values.
#[verifier::external_body]
pub(crate) fn random_16_bytes() -> (bytes: [u8; 16]) {
    rand::rng().random()
}

impl SessionCredential {
    /// A fresh random credential.
    pub fn generate() -> (c: SessionCredential) {
        SessionCredential { bytes: random_16_bytes() }
    }

    pub fn from_bytes(bytes: [u8; 16]) -> (c: SessionCredential)
        ensures
            c@ == bytes@,
    {
        SessionCredential { bytes }
    }

    pub fn as_bytes(&self) -> (bytes: [u8; 16])
        ensures
            bytes@ == self@,
    {
        self.bytes
    }

    /// The credential as base58 text, as it travels to the relay.
    pub fn wire_secret(&self) -> (s: String)
        ensures
            s@ == spec_base58_encode(self@),
    {
        let bytes = self.bytes;
        base58_encode(bytes.as_slice())
    }

    /// The debug form, which never shows the secret.
    pub fn redacted_text(&self) -> (s: &'static str)
        ensures
            s@ == "SessionCredential([REDACTED])"@,
    {
        "SessionCredential([REDACTED])"
    }
}

/// A relay session to join: the relay (by optional id, host and port) and
/// the session credential.
#[derive(Clone, PartialEq, Eq)]
pub struct RelayJoinCode {
    pub relay_id: Option<String>,
    pub relay_host: String,
    pub relay_port: u16,
    pub session_credential: SessionCredential,
}

/// The optional text as characters.
pub open spec fn opt_chars(s: Option<String>) -> Option<Seq<char>> {
    match s {
        Some(t) => Some(t@),
        None => None,
    }
}

impl View for RelayJoinCode {
    type V = (Option<Seq<char>>, Seq<char>, u16, Seq<u8>);

    open spec fn view(&self) -> (Option<Seq<char>>, Seq<char>, u16, Seq<u8>) {
        (opt_chars(self.relay_id), self.relay_host@, self.relay_port, self.session_credential@)
    }
}

impl RelayJoinCode {
    /// The relay to connect to.
    pub fn endpoint(&self) -> (e: RelayEndpoint)
        ensures
            e.host@ == self.relay_host@,
            e.port == self.relay_port,
    {
        RelayEndpoint::new(self.relay_host.as_str(), self.relay_port)
    }
}

#[derive(Clone, Debug, PartialEq, Eq)]
pub enum JoinCodeError {
    LegacyV4,
    MissingPrefix,
    MissingSuffix,
    InvalidEncoding(String),
    Truncated,
    TrailingBytes,
    BadMagic,
    UnsupportedVersion(u8),
    UnsupportedFlags(u8),
    RelayIdTooLong,
    MissingRelayHost,
    RelayHostTooLong,
    InvalidRelayPort,
    InvalidRelayIdUtf8,
    InvalidRelayHostUtf8,
    ChecksumMismatch,
    PayloadTooLarge(usize),
    UnsupportedRoute(u8),
    NonZeroReserved,
    MissingLanCandidates,
    TooManyLanCandidates(usize),
    DuplicateLanCandidate(LanEndpoint),
    ZeroIntroducerSteamId,
    ZeroIntroducerInstanceId,
    UnsupportedAddressFamily(u8),
    UnsupportedIpv6FlowInfo,
    NonZeroCandidateReserved,
}

/// The first four bytes of the SHA-256 digest of `payload`.
pub open spec fn spec_checksum(payload: Seq<u8>) -> Seq<u8> {
    Seq::new(CHECKSUM_LEN as nat, |i: int| spec_sha256(payload)[i])
}

fn checksum(payload: &[u8]) -> (c: Vec<u8>)
    ensures
        c@ == spec_checksum(payload@),
        c@.len() == CHECKSUM_LEN,
{
    let digest = sha256(payload);
    let mut c: Vec<u8> = Vec::new();
    let mut i: usize = 0;
    while i < CHECKSUM_LEN
        invariant
            i <= CHECKSUM_LEN,
            digest@ == spec_sha256(payload@),
            c@ == digest@.take(i as int),
        decreases CHECKSUM_LEN - i,
    {
        c.push(digest[i]);
        proof {
            assert(digest@.take(i + 1) == digest@.take(i as int).push(digest@[i as int]));
        }
        i = i + 1;
    }
    proof {
        assert(c@ =~= spec_checksum(payload@));
    }
    c
}

/// Appends the checksum of `payload` to it.
pub(crate) fn append_checksum(payload: &mut Vec<u8>)
    ensures
        final(payload)@ == old(payload)@ + spec_checksum(old(payload)@),
        spec_checksum(old(payload)@).len() == CHECKSUM_LEN,
{
    let c = checksum(payload.as_slice());
    extend_bytes(payload, c.as_slice());
}

/// Whether the bytes after `content_len` are the checksum of those before.
pub(crate) fn checksum_matches(bytes: &[u8], content_len: usize) -> (ok: bool)
    requires
        content_len <= bytes@.len(),
    ensures
        ok == (spec_checksum(bytes@.take(content_len as int)) == bytes@.subrange(content_len as int, bytes@.len() as int)),
{
    let c = checksum(&bytes[0..content_len]);
    let tail = &bytes[content_len..bytes.len()];
    proof {
        assert(bytes@.subrange(0, content_len as int) == bytes@.take(content_len as int));
    }
    if c.len() != tail.len() {
        proof {
            assert(c@.len() != tail@.len());
        }
        return false;
    }
    let mut i: usize = 0;
    while i < c.len()
        invariant
            c@.len() == tail@.len(),
            c@ == spec_checksum(bytes@.take(content_len as int)),
            tail@ == bytes@.subrange(content_len as int, bytes@.len() as int),
            i <= c@.len(),
            forall|k: int| 0 <= k < i ==> c@[k] == tail@[k],
        decreases c@.len() - i,
    {
        if c[i] != tail[i] {
            proof {
                assert(c@[i as int] != tail@[i as int]);
                assert(c@ != tail@);
            }
            return false;
        }
        i = i + 1;
    }
    proof {
        assert(c@ =~= tail@);
    }
    true
}

/// The first failed rule on a relay code's fields, by UTF-8 lengths.
pub open spec fn spec_validate_fields(relay_id: Seq<char>, relay_host: Seq<char>, relay_port: u16) -> Option<JoinCodeError> {
    if encode_utf8(relay_id).len() > MAX_RELAY_ID_LEN {
        Some(JoinCodeError::RelayIdTooLong)
    } else if relay_host.len() == 0 {
        Some(JoinCodeError::MissingRelayHost)
    } else if encode_utf8(relay_host).len() > MAX_RELAY_HOST_LEN {
        Some(JoinCodeError::RelayHostTooLong)
    } else if relay_port == 0 {
        Some(JoinCodeError::InvalidRelayPort)
    } else {
        None
    }
}

fn validate_fields(relay_id: &str, relay_host: &str, relay_port: u16) -> (r: Result<(), JoinCodeError>)
    ensures
        match spec_validate_fields(relay_id@, relay_host@, relay_port) {
            Some(e) => r == Err::<(), JoinCodeError>(e),
            None => r is Ok,
        },
{
    if relay_id.as_bytes().len() > MAX_RELAY_ID_LEN {
        return Err(JoinCodeError::RelayIdTooLong);
    }
    if relay_host.is_empty() {
        return Err(JoinCodeError::MissingRelayHost);
    }
    if relay_host.as_bytes().len() > MAX_RELAY_HOST_LEN {
        return Err(JoinCodeError::RelayHostTooLong);
    }
    if relay_port == 0 {
        return Err(JoinCodeError::InvalidRelayPort);
    }
    Ok(())
}

/// The relay id a code carries: the trimmed id, or nothing.
pub open spec fn spec_trimmed_id(relay_id: Option<Seq<char>>) -> Seq<char> {
    match relay_id {
        Some(id) => spec_trim(id),
        None => Seq::empty(),
    }
}

/// The payload before its checksum.
pub open spec fn spec_relay_content(id: Seq<char>, host: Seq<char>, port: u16, credential: Seq<u8>) -> Seq<u8> {
    let id_bytes = encode_utf8(id);
    let host_bytes = encode_utf8(host);
    seq![
        JOIN_CODE_MAGIC_0,
        JOIN_CODE_MAGIC_1,
        RELAY_JOIN_CODE_VERSION,
        if id.len() == 0 { 0u8 } else { RELAY_ID_PRESENT },
        id_bytes.len() as u8,
        host_bytes.len() as u8,
        (port / 256) as u8,
        (port % 256) as u8,
    ] + credential + id_bytes + host_bytes
}

/// The payload of a relay code, or the rule its trimmed fields break.
pub open spec fn spec_relay_payload(code: (Option<Seq<char>>, Seq<char>, u16, Seq<u8>)) -> Result<Seq<u8>, JoinCodeError> {
    let id = spec_trimmed_id(code.0);
    let host = spec_trim(code.1);
    match spec_validate_fields(id, host, code.2) {
        Some(e) => Err(e),
        None => {
            let content = spec_relay_content(id, host, code.2, code.3);
            Ok(content + spec_checksum(content))
        },
    }
}

/// Encodes a relay code's payload: the trimmed fields, checked, then framed
/// and checksummed.
pub fn encode_relay_payload(code: &RelayJoinCode) -> (r: Result<Vec<u8>, JoinCodeError>)
    ensures
        match (r, spec_relay_payload(code@)) {
            (Ok(p), Ok(q)) => p@ == q,
            (Err(e), Err(f)) => e == f,
            _ => false,
        },
        r matches Ok(p) ==> spec_is_relay_payload_of(p@, spec_normalized(code@)),
{
    let relay_id = match &code.relay_id {
        Some(id) => trim(id.as_str()),
        None => String::new(),
    };
    let relay_host = trim(code.relay_host.as_str());
    proof {
        assert(relay_id@ == spec_trimmed_id(opt_chars(code.relay_id)));
    }
    match validate_fields(relay_id.as_str(), relay_host.as_str(), code.relay_port) {
        Err(e) => return Err(e),
        Ok(()) => {},
    }
    let id_bytes = relay_id.as_str().as_bytes();
    let host_bytes = relay_host.as_str().as_bytes();
    let id_len = id_bytes.len() as u8;
    let host_len = host_bytes.len() as u8;
    let flags: u8 = if relay_id.as_str().is_empty() { 0 } else { RELAY_ID_PRESENT };
    let mut payload: Vec<u8> = Vec::new();
    payload.push(JOIN_CODE_MAGIC_0);
    payload.push(JOIN_CODE_MAGIC_1);
    payload.push(RELAY_JOIN_CODE_VERSION);
    payload.push(flags);
    payload.push(id_len);
    payload.push(host_len);
    payload.push((code.relay_port / 256) as u8);
    payload.push((code.relay_port % 256) as u8);
    let credential = code.session_credential.as_bytes();
    extend_bytes(&mut payload, credential.as_slice());
    extend_bytes(&mut payload, id_bytes);
    extend_bytes(&mut payload, host_bytes);
    proof {
        assert(payload@ =~= spec_relay_content(relay_id@, relay_host@, code.relay_port, code.session_credential@));
    }
    let ghost content = payload@;
    append_checksum(&mut payload);
    proof {
        assert(code.session_credential@.len() == 16) by {
            assert(credential@.len() == 16);
        }
        lemma_relay_payload_roundtrip(code@);
    }
    Ok(payload)
}

/// The relay code a payload holds, or the first rule it breaks.
pub open spec fn spec_relay_decode(b: Seq<u8>) -> Result<(Option<Seq<char>>, Seq<char>, u16, Seq<u8>), JoinCodeError> {
    if b.len() < FIXED_PAYLOAD_LEN + CHECKSUM_LEN {
        Err(JoinCodeError::Truncated)
    } else if b[3] > RELAY_ID_PRESENT {
        Err(JoinCodeError::UnsupportedFlags(b[3]))
    } else if b[4] > MAX_RELAY_ID_LEN {
        Err(JoinCodeError::RelayIdTooLong)
    } else if (b[3] == 0) != (b[4] == 0) {
        Err(JoinCodeError::UnsupportedFlags(b[3]))
    } else {
        let id_len = b[4] as int;
        let expected = (FIXED_PAYLOAD_LEN + CHECKSUM_LEN) as int + id_len + b[5] as int;
        let content = expected - CHECKSUM_LEN as int;
        let id_bytes = b.subrange(FIXED_PAYLOAD_LEN as int, FIXED_PAYLOAD_LEN as int + id_len);
        let host_bytes = b.subrange(FIXED_PAYLOAD_LEN as int + id_len, content);
        let port = ((b[6] as int) * 256 + b[7] as int) as u16;
        if b.len() < expected {
            Err(JoinCodeError::Truncated)
        } else if b.len() != expected {
            Err(JoinCodeError::TrailingBytes)
        } else if spec_checksum(b.take(content)) != b.subrange(content, b.len() as int) {
            Err(JoinCodeError::ChecksumMismatch)
        } else if !valid_utf8(id_bytes) {
            Err(JoinCodeError::InvalidRelayIdUtf8)
        } else if !valid_utf8(host_bytes) {
            Err(JoinCodeError::InvalidRelayHostUtf8)
        } else {
            let id = decode_utf8(id_bytes);
            let host = decode_utf8(host_bytes);
            match spec_validate_fields(id, host, port) {
                Some(e) => Err(e),
                None => Ok((
                    if id.len() == 0 { None } else { Some(id) },
                    host,
                    port,
                    b.subrange(8, FIXED_PAYLOAD_LEN as int),
                )),
            }
        }
    }
}

/// `r` is what `spec` describes.
pub open spec fn spec_code_result(
    r: Result<RelayJoinCode, JoinCodeError>,
    spec: Result<(Option<Seq<char>>, Seq<char>, u16, Seq<u8>), JoinCodeError>,
) -> bool {
    match (r, spec) {
        (Ok(c), Ok(v)) => c@ == v,
        (Err(e), Err(f)) => e == f,
        _ => false,
    }
}

/// Decodes a relay payload (after its magic and version).
pub fn decode_relay_payload(bytes: &[u8]) -> (r: Result<RelayJoinCode, JoinCodeError>)
    ensures
        spec_code_result(r, spec_relay_decode(bytes@)),
{
    if bytes.len() < FIXED_PAYLOAD_LEN + CHECKSUM_LEN {
        return Err(JoinCodeError::Truncated);
    }
    let flags = bytes[3];
    if flags > RELAY_ID_PRESENT {
        return Err(JoinCodeError::UnsupportedFlags(flags));
    }
    let relay_id_len = bytes[4] as usize;
    let relay_host_len = bytes[5] as usize;
    if relay_id_len > MAX_RELAY_ID_LEN {
        return Err(JoinCodeError::RelayIdTooLong);
    }
    if (flags == 0) != (relay_id_len == 0) {
        return Err(JoinCodeError::UnsupportedFlags(flags));
    }
    let expected_len = FIXED_PAYLOAD_LEN + relay_id_len + relay_host_len + CHECKSUM_LEN;
    if bytes.len() < expected_len {
        return Err(JoinCodeError::Truncated);
    }
    if bytes.len() != expected_len {
        return Err(JoinCodeError::TrailingBytes);
    }
    let content_len = expected_len - CHECKSUM_LEN;
    if !checksum_matches(bytes, content_len) {
        return Err(JoinCodeError::ChecksumMismatch);
    }
    let relay_port: u16 = (bytes[6] as u16) * 256 + bytes[7] as u16;
    let mut credential = [0u8; 16];
    let mut i: usize = 0;
    while i < 16
        invariant
            bytes@.len() >= FIXED_PAYLOAD_LEN,
            i <= 16,
            credential@.len() == 16,
            forall|k: int| 0 <= k < i ==> credential@[k] == bytes@[8 + k],
        decreases 16 - i,
    {
        credential[i] = bytes[8 + i];
        i = i + 1;
    }
    let relay_id_end = FIXED_PAYLOAD_LEN + relay_id_len;
    let relay_id = match utf8_text(&bytes[FIXED_PAYLOAD_LEN..relay_id_end]) {
        Some(s) => s,
        None => return Err(JoinCodeError::InvalidRelayIdUtf8),
    };
    let relay_host = match utf8_text(&bytes[relay_id_end..content_len]) {
        Some(s) => s,
        None => return Err(JoinCodeError::InvalidRelayHostUtf8),
    };
    match validate_fields(relay_id.as_str(), relay_host.as_str(), relay_port) {
        Err(e) => return Err(e),
        Ok(()) => {},
    }
    proof {
        assert(credential@ =~= bytes@.subrange(8, FIXED_PAYLOAD_LEN as int));
    }
    let id = if relay_id.as_str().is_empty() { None } else { Some(relay_id) };
    Ok(RelayJoinCode {
        relay_id: id,
        relay_host,
        relay_port,
        session_credential: SessionCredential::from_bytes(credential),
    })
}

/// `b` is a relay payload that decodes to `code`.
pub open spec fn spec_is_relay_payload_of(b: Seq<u8>, code: (Option<Seq<char>>, Seq<char>, u16, Seq<u8>)) -> bool {
    &&& b.len() >= 3
    &&& b[0] == JOIN_CODE_MAGIC_0 && b[1] == JOIN_CODE_MAGIC_1 && b[2] == RELAY_JOIN_CODE_VERSION
    &&& spec_relay_decode(b) == Ok::<(Option<Seq<char>>, Seq<char>, u16, Seq<u8>), JoinCodeError>(code)
}

/// A join code of either route.
#[derive(Clone, PartialEq, Eq)]
pub enum JoinCode {
    ExternalRelay(RelayJoinCode),
    LanDirect(LanJoinCode),
}

/// `r` is what a payload `b` decodes to: by its magic and version, a relay
/// code or a LAN code, or the first rule it breaks.
pub open spec fn spec_payload_decoded(r: Result<JoinCode, JoinCodeError>, b: Seq<u8>) -> bool {
    if b.len() < 3 {
        r == Err::<JoinCode, JoinCodeError>(JoinCodeError::Truncated)
    } else if b[0] != JOIN_CODE_MAGIC_0 || b[1] != JOIN_CODE_MAGIC_1 {
        r == Err::<JoinCode, JoinCodeError>(JoinCodeError::BadMagic)
    } else if b[2] == RELAY_JOIN_CODE_VERSION {
        match (r, spec_relay_decode(b)) {
            (Ok(JoinCode::ExternalRelay(c)), Ok(v)) => c@ == v,
            (Err(e), Err(f)) => e == f,
            _ => false,
        }
    } else if b[2] == LAN_JOIN_CODE_VERSION {
        match (r, spec_lan_decode(b)) {
            (Ok(JoinCode::LanDirect(c)), Ok(v)) => c@ == v,
            (Err(e), Err(f)) => e == f,
            _ => false,
        }
    } else {
        r == Err::<JoinCode, JoinCodeError>(JoinCodeError::UnsupportedVersion(b[2]))
    }
}

/// Decodes a join-code payload by its magic and version.
pub fn decode_payload(bytes: &[u8]) -> (r: Result<JoinCode, JoinCodeError>)
    ensures
        spec_payload_decoded(r, bytes@),
{
    if bytes.len() < 3 {
        return Err(JoinCodeError::Truncated);
    }
    if bytes[0] != JOIN_CODE_MAGIC_0 || bytes[1] != JOIN_CODE_MAGIC_1 {
        return Err(JoinCodeError::BadMagic);
    }
    let version = bytes[2];
    if version == RELAY_JOIN_CODE_VERSION {
        match decode_relay_payload(bytes) {
            Ok(c) => Ok(JoinCode::ExternalRelay(c)),
            Err(e) => Err(e),
        }
    } else if version == LAN_JOIN_CODE_VERSION {
        match decode_lan_payload(bytes) {
            Ok(c) => Ok(JoinCode::LanDirect(c)),
            Err(e) => Err(e),
        }
    } else {
        Err(JoinCodeError::UnsupportedVersion(version))
    }
}


/// The code a relay payload is read back as: the trimmed id (absent when
/// empty), the trimmed host, the port and the credential.
pub open spec fn spec_normalized(code: (Option<Seq<char>>, Seq<char>, u16, Seq<u8>)) -> (Option<Seq<char>>, Seq<char>, u16, Seq<u8>) {
    let id = spec_trimmed_id(code.0);
    (if id.len() == 0 { None } else { Some(id) }, spec_trim(code.1), code.2, code.3)
}

proof fn lemma_encode_utf8_empty(chars: Seq<char>)
    ensures
        (encode_utf8(chars).len() == 0) == (chars.len() == 0),
{
    if chars.len() > 0 {
        assert(encode_utf8(chars) == vstd::utf8::encode_scalar(chars[0] as u32) + encode_utf8(chars.drop_first()));
    }
}

/// A payload built from valid fields decodes to the same (normalized) code.
proof fn lemma_relay_payload_roundtrip(code: (Option<Seq<char>>, Seq<char>, u16, Seq<u8>))
    requires
        code.3.len() == 16,
        spec_relay_payload(code) is Ok,
        spec_checksum(spec_relay_content(spec_trimmed_id(code.0), spec_trim(code.1), code.2, code.3)).len() == CHECKSUM_LEN,
    ensures
        spec_is_relay_payload_of(spec_relay_payload(code)->Ok_0, spec_normalized(code)),
{
    broadcast use encode_utf8_valid_utf8, encode_utf8_decode_utf8;
    let id = spec_trimmed_id(code.0);
    let host = spec_trim(code.1);
    let port = code.2;
    let content = spec_relay_content(id, host, port, code.3);
    let ck = spec_checksum(content);
    let b = content + ck;
    let id_bytes = encode_utf8(id);
    let host_bytes = encode_utf8(host);
    let idl = id_bytes.len() as int;
    let hl = host_bytes.len() as int;
    lemma_encode_utf8_empty(id);
    lemma_encode_utf8_empty(host);
    assert(b == spec_relay_payload(code)->Ok_0);
    assert(idl <= 64 && 1 <= hl <= 255);
    assert(content.len() == 24 + idl + hl);
    assert(b.len() == 28 + idl + hl);
    assert(b[0] == JOIN_CODE_MAGIC_0 && b[1] == JOIN_CODE_MAGIC_1 && b[2] == RELAY_JOIN_CODE_VERSION);
    assert(b[4] as int == idl && b[5] as int == hl);
    assert(b.take(24 + idl + hl) =~= content);
    assert(b.subrange(24 + idl + hl, b.len() as int) =~= ck);
    assert(b.subrange(24, 24 + idl) =~= id_bytes);
    assert(b.subrange(24 + idl, 24 + idl + hl) =~= host_bytes);
    assert(b.subrange(8, 24) =~= code.3);
    assert(((b[6] as int) * 256 + b[7] as int) as u16 == port);
}

/// `T`, the payload in base58, `T`.
pub open spec fn spec_framed(payload: Seq<u8>) -> Seq<char> {
    seq!['T'] + spec_base58_encode(payload) + seq!['T']
}

/// The base58 text between the frame characters of a trimmed code, or the
/// framing rule it breaks.
pub open spec fn spec_unframe(t: Seq<char>) -> Result<Seq<char>, JoinCodeError> {
    if t.len() > 0 && t[0] == 'B' && t[t.len() - 1] == 'B' {
        Err(JoinCodeError::LegacyV4)
    } else if t.len() == 0 || t[0] != 'T' {
        Err(JoinCodeError::MissingPrefix)
    } else if t.len() < 2 || t[t.len() - 1] != 'T' {
        Err(JoinCodeError::MissingSuffix)
    } else {
        Ok(t.subrange(1, t.len() - 1))
    }
}

/// `text` is a join code that reads back as `code`.
pub open spec fn spec_decodes_to(text: Seq<char>, code: (Option<Seq<char>>, Seq<char>, u16, Seq<u8>)) -> bool {
    match spec_unframe(spec_trim(text)) {
        Ok(inner) => match spec_base58_decode(inner) {
            Some(bytes) => spec_is_relay_payload_of(bytes, code),
            None => false,
        },
        Err(_) => false,
    }
}

impl RelayJoinCode {
    /// The shareable code: `T`, the base58 payload, `T`.
    pub fn encode(&self) -> (r: Result<String, JoinCodeError>)
        ensures
            match (r, spec_relay_payload(self@)) {
                (Ok(s), Ok(p)) => s@ == spec_framed(p),
                (Err(e), Err(f)) => e == f,
                _ => false,
            },
            r matches Ok(s) ==> spec_decodes_to(s@, spec_normalized(self@)),
    {
        let payload = match encode_relay_payload(self) {
            Ok(p) => p,
            Err(e) => return Err(e),
        };
        let body = base58_encode(payload.as_slice());
        let mut out = String::new();
        proof {
            reveal_strlit("T");
        }
        out.append("T");
        out.append(body.as_str());
        out.append("T");
        proof {
            assert(out@ =~= spec_framed(payload@));
            let t = out@;
            assert(!crate::text::is_unicode_whitespace(t[0]));
            assert(!crate::text::is_unicode_whitespace(t[t.len() - 1]));
            lemma_trim_unchanged(t);
            assert(t.subrange(1, t.len() - 1) =~= body@);
        }
        Ok(out)
    }
}

/// `r` is what the shared text `value` reads as.
pub open spec fn spec_text_decoded(r: Result<JoinCode, JoinCodeError>, value: Seq<char>) -> bool {
    match spec_unframe(spec_trim(value)) {
        Err(e) => r == Err::<JoinCode, JoinCodeError>(e),
        Ok(inner) => match spec_base58_decode(inner) {
            None => r matches Err(JoinCodeError::InvalidEncoding(_)),
            Some(bytes) => spec_payload_decoded(r, bytes),
        },
    }
}

/// `T`, the base58 of the payload, `T`: a relay code as
/// `RelayJoinCode::encode` gives it, a LAN code from its payload.
pub open spec fn spec_code_text(code: JoinCode) -> Result<Seq<char>, JoinCodeError> {
    match code {
        JoinCode::ExternalRelay(c) => match spec_relay_payload(c@) {
            Ok(p) => Ok(spec_framed(p)),
            Err(e) => Err(e),
        },
        JoinCode::LanDirect(c) => match spec_lan_payload(c@) {
            Ok(p) => Ok(spec_framed(p)),
            Err(e) => Err(e),
        },
    }
}

/// The payload a shared text carries, when its frame and base58 text are
/// sound.
pub open spec fn spec_text_payload(text: Seq<char>) -> Option<Seq<u8>> {
    match spec_unframe(spec_trim(text)) {
        Ok(inner) => spec_base58_decode(inner),
        Err(_) => None,
    }
}

fn frame(payload: &Vec<u8>) -> (out: String)
    ensures
        out@ == spec_framed(payload@),
        spec_text_payload(out@) == Some(payload@),
{
    let body = base58_encode(payload.as_slice());
    let mut out = String::new();
    proof {
        reveal_strlit("T");
    }
    out.append("T");
    out.append(body.as_str());
    out.append("T");
    proof {
        assert(out@ =~= spec_framed(payload@));
        let t = out@;
        assert(!crate::text::is_unicode_whitespace(t[0]));
        assert(!crate::text::is_unicode_whitespace(t[t.len() - 1]));
        lemma_trim_unchanged(t);
        assert(t.subrange(1, t.len() - 1) =~= body@);
    }
    out
}

impl JoinCode {
    /// The shareable text of a code of either route.
    pub fn encode(&self) -> (r: Result<String, JoinCodeError>)
        ensures
            match (r, spec_code_text(*self)) {
                (Ok(s), Ok(t)) => s@ == t,
                (Err(e), Err(f)) => e == f,
                _ => false,
            },
            r is Ok ==> match *self {
                JoinCode::LanDirect(c) => spec_text_payload(r->Ok_0@) == Some(spec_lan_payload(c@)->Ok_0),
                JoinCode::ExternalRelay(c) => spec_decodes_to(r->Ok_0@, spec_normalized(c@)),
            },
    {
        match self {
            JoinCode::ExternalRelay(c) => c.encode(),
            JoinCode::LanDirect(c) => match encode_lan_payload(c) {
                Ok(p) => Ok(frame(&p)),
                Err(e) => Err(e),
            },
        }
    }

    /// Reads a shared code: surrounding white space is ignored, the frame and
    /// base58 text are checked, then the payload is decoded.
    pub fn decode(value: &str) -> (r: Result<JoinCode, JoinCodeError>)
        ensures
            spec_text_decoded(r, value@),
    {
        let trimmed = trim(value);
        let t = trimmed.as_str();
        let n = t.unicode_len();
        if n > 0 && t.get_char(0) == 'B' && t.get_char(n - 1) == 'B' {
            return Err(JoinCodeError::LegacyV4);
        }
        if n == 0 || t.get_char(0) != 'T' {
            return Err(JoinCodeError::MissingPrefix);
        }
        if n < 2 || t.get_char(n - 1) != 'T' {
            return Err(JoinCodeError::MissingSuffix);
        }
        let encoded = t.substring_char(1, n - 1);
        let bytes = match base58_decode(encoded) {
            Ok(b) => b,
            Err(e) => return Err(JoinCodeError::InvalidEncoding(base58_error_text(&e))),
        };
        decode_payload(bytes.as_slice())
    }
}

/// The shared text of a LAN code reads back as the same code: whatever
/// `JoinCode::decode` answers on a text that carries the code's payload is
/// that code.
pub proof fn law_lan_text_round_trip(c: LanJoinCode, text: Seq<char>, r: Result<JoinCode, JoinCodeError>)
    requires
        spec_lan_payload(c@) is Ok,
        spec_text_payload(text) == Some(spec_lan_payload(c@)->Ok_0),
        spec_text_decoded(r, text),
    ensures
        r matches Ok(JoinCode::LanDirect(d)) && d@ == c@,
{
    law_lan_payload_round_trip(c@);
    let p = spec_lan_payload(c@)->Ok_0;
    let n = c@.2.len();
    let header = seq![JOIN_CODE_MAGIC_0, JOIN_CODE_MAGIC_1, LAN_JOIN_CODE_VERSION, LAN_DIRECT_ROUTE, 0u8, n as u8, 0u8, 0u8];
    let content = header + c@.3 + spec_be_u64(c@.0) + c@.1 + spec_encode_endpoints(c@.2, n as int)->Ok_0;
    assert(p == content + spec_checksum(content));
    assert(p[0] == JOIN_CODE_MAGIC_0 && p[1] == JOIN_CODE_MAGIC_1 && p[2] == LAN_JOIN_CODE_VERSION);
}

} // verus!
