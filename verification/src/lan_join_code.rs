//! The payload of LAN Direct join codes: the introducer's identity, its
//! control endpoints and the session credential, checksummed.

use vstd::prelude::*;
use crate::join_code::{
    CHECKSUM_LEN, JOIN_CODE_MAGIC_0, JOIN_CODE_MAGIC_1, JoinCodeError, LAN_JOIN_CODE_VERSION,
    SessionCredential, append_checksum, checksum_matches, spec_checksum,
};
use crate::pow::{be_bytes, extend_bytes, spec_be_u64};

verus! {

/// The route byte of a LAN Direct payload.
pub const LAN_DIRECT_ROUTE: u8 = 1;
/// Bytes of a LAN payload before its candidates.
pub const LAN_FIXED_PAYLOAD_LEN: usize = 48;
/// Bytes of one encoded candidate.
pub const CANDIDATE_LEN: usize = 24;
/// The largest LAN payload.
pub const MAX_LAN_PAYLOAD_LEN: usize = 256;
/// The most introducer candidates a code carries: as many as fit the payload.
pub const MAX_LAN_CANDIDATES: usize = 8;
pub const IPV4_FAMILY: u8 = 4;
pub const IPV6_FAMILY: u8 = 6;

/// The introducer of a LAN room: its Steam id and process instance.
#[derive(Clone, Copy, Debug, PartialEq, Eq)]
pub struct PeerIdentity {
    pub steam_id64: u64,
    pub instance_id: [u8; 16],
}

/// A control endpoint: an IPv4 or IPv6 socket address, the address as a
/// big-endian number.
#[derive(Clone, Copy, Debug, PartialEq, Eq, Structural)]
pub enum LanEndpoint {
    V4 { address: u32, port: u16 },
    V6 { address: u128, port: u16, flowinfo: u32, scope_id: u32 },
}

/// A LAN Direct join code.
#[derive(Clone, PartialEq, Eq)]
pub struct LanJoinCode {
    pub introducer: PeerIdentity,
    pub control_endpoints: Vec<LanEndpoint>,
    pub session_credential: SessionCredential,
}

/// A LAN code as values: Steam id, instance id, endpoints, credential.
pub type LanCodeView = (u64, Seq<u8>, Seq<LanEndpoint>, Seq<u8>);

impl View for LanJoinCode {
    type V = LanCodeView;

    open spec fn view(&self) -> LanCodeView {
        (self.introducer.steam_id64, self.introducer.instance_id@, self.control_endpoints@, self.session_credential@)
    }
}

/// The big-endian number that `b` spells.
pub open spec fn spec_be(b: Seq<u8>) -> nat
    decreases b.len(),
{
    if b.len() == 0 { 0 } else { (spec_be(b.drop_last()) * 256 + b.last()) as nat }
}

/// `256^n`.
pub open spec fn pow256(n: nat) -> nat
    decreases n,
{
    if n == 0 { 1 } else { 256 * pow256((n - 1) as nat) }
}

proof fn lemma_be_bound(b: Seq<u8>)
    ensures
        spec_be(b) < pow256(b.len()),
    decreases b.len(),
{
    if b.len() > 0 {
        lemma_be_bound(b.drop_last());
        let x = spec_be(b.drop_last());
        let p = pow256((b.len() - 1) as nat);
        assert(x * 256 + b.last() < 256 * p) by (nonlinear_arith)
            requires x < p, b.last() < 256;
    }
}

/// The big-endian number of up to sixteen bytes.
fn be_value(b: &[u8]) -> (v: u128)
    requires
        b@.len() <= 16,
    ensures
        v == spec_be(b@),
{
    let mut v: u128 = 0;
    let mut i: usize = 0;
    proof {
        reveal_with_fuel(pow256, 17);
    }
    while i < b.len()
        invariant
            i <= b@.len() <= 16,
            v == spec_be(b@.take(i as int)),
            pow256(16) == 0x1_0000_0000_0000_0000_0000_0000_0000_0000,
        decreases b@.len() - i,
    {
        proof {
            assert(b@.take(i + 1).drop_last() == b@.take(i as int));
            lemma_be_bound(b@.take(i + 1));
            lemma_pow_mono((i + 1) as nat, 16);
        }
        v = v * 256 + b[i] as u128;
        i = i + 1;
    }
    proof {
        assert(b@.take(b@.len() as int) == b@);
    }
    v
}

proof fn lemma_pow_mono(a: nat, b: nat)
    requires
        a <= b,
    ensures
        pow256(a) <= pow256(b),
    decreases b,
{
    if a < b {
        lemma_pow_mono(a, (b - 1) as nat);
    }
}

/// `v` as `n` big-endian bytes.
pub open spec fn spec_be_bytes(v: u128, n: nat) -> Seq<u8> {
    Seq::new(n, |i: int| ((v >> ((8 * (n - 1 - i)) as u128)) & 0xff) as u8)
}

fn push_be(out: &mut Vec<u8>, v: u128, n: usize)
    requires
        n <= 16,
    ensures
        final(out)@ == old(out)@ + spec_be_bytes(v, n as nat),
{
    let ghost start = out@;
    let mut i: usize = 0;
    while i < n
        invariant
            i <= n <= 16,
            out@.len() == start.len() + i,
            forall|k: int| 0 <= k < start.len() ==> out@[k] == start[k],
            forall|k: int| start.len() <= k < out@.len() ==> #[trigger] out@[k] == spec_be_bytes(v, n as nat)[k - start.len()],
        decreases n - i,
    {
        let shift: u128 = (8 * (n - 1 - i)) as u128;
        let byte: u128 = (v >> shift) & 0xff;
        proof {
            assert((v >> shift) & 0xff < 256) by (bit_vector);
        }
        out.push(byte as u8);
        proof {
            assert(out@[out@.len() - 1] == spec_be_bytes(v, n as nat)[i as int]);
        }
        i = i + 1;
    }
    proof {
        assert(out@ =~= start + spec_be_bytes(v, n as nat));
    }
}


proof fn lemma_shift_compose(v: u128, k: u128)
    requires
        k <= 120,
    ensures
        (v >> 8u128) >> k == v >> (k + 8),
{
    assert((v >> 8u128) >> k == v >> (k + 8)) by (bit_vector)
        requires k <= 120;
}

proof fn lemma_split_low_byte(v: u128)
    ensures
        v >> 0u128 == v,
        (v >> 8u128) == v / 256,
        ((v & 0xff) as u8) as int == v % 256,
{
    assert(v >> 0u128 == v) by (bit_vector);
    assert((v >> 8u128) == v / 256) by (bit_vector);
    assert(v & 0xff == v % 256) by (bit_vector);
}

proof fn lemma_pow256_step(v: u128, n: nat)
    requires
        n > 0,
        v < pow256(n),
    ensures
        v / 256 < pow256((n - 1) as nat),
{
    let p = pow256((n - 1) as nat);
    assert(pow256(n) == 256 * p);
    assert(v / 256 < p) by (nonlinear_arith)
        requires v < 256 * p;
}

/// The bytes of a number below `256^n`, read back big-endian, give it back.
proof fn lemma_be_of_bytes(v: u128, n: nat)
    requires
        n <= 16,
        v < pow256(n),
    ensures
        spec_be(spec_be_bytes(v, n)) == v,
    decreases n,
{
    let s = spec_be_bytes(v, n);
    if n == 0 {
        assert(pow256(0) == 1);
        assert(s.len() == 0);
    } else {
        lemma_split_low_byte(v);
        lemma_pow256_step(v, n);
        let w: u128 = v >> 8u128;
        lemma_be_of_bytes(w, (n - 1) as nat);
        let t = spec_be_bytes(w, (n - 1) as nat);
        assert forall|i: int| 0 <= i < n - 1 implies #[trigger] s.drop_last()[i] == t[i] by {
            let k: u128 = (8 * (n - 2 - i)) as u128;
            lemma_shift_compose(v, k);
            assert((8 * (n - 1 - i)) as u128 == k + 8);
        }
        assert(s.drop_last() =~= t);
        assert(s.last() == ((v >> ((8 * (n - 1 - (n - 1))) as u128)) & 0xff) as u8);
        assert((8 * (n - 1 - (n - 1))) as u128 == 0u128);
        assert(spec_be(s) == spec_be(s.drop_last()) * 256 + s.last());
    }
}

/// The endpoint a 24-byte candidate encodes, or the rule it breaks.
pub open spec fn spec_decode_endpoint(c: Seq<u8>) -> Result<LanEndpoint, JoinCodeError> {
    let port = ((c[2] as int) * 256 + c[3] as int) as u16;
    let scope = spec_be(c.subrange(4, 8)) as u32;
    if c[1] != 0 {
        Err(JoinCodeError::NonZeroCandidateReserved)
    } else if c[0] == IPV4_FAMILY {
        if scope != 0 || exists|k: int| 12 <= k < 24 && #[trigger] c[k] != 0 {
            Err(JoinCodeError::NonZeroCandidateReserved)
        } else {
            Ok(LanEndpoint::V4 { address: spec_be(c.subrange(8, 12)) as u32, port })
        }
    } else if c[0] == IPV6_FAMILY {
        Ok(LanEndpoint::V6 { address: spec_be(c.subrange(8, 24)) as u128, port, flowinfo: 0, scope_id: scope })
    } else {
        Err(JoinCodeError::UnsupportedAddressFamily(c[0]))
    }
}

/// The candidate at position `i` of a payload.
pub open spec fn candidate_bytes(b: Seq<u8>, i: int) -> Seq<u8> {
    b.subrange(LAN_FIXED_PAYLOAD_LEN + CANDIDATE_LEN * i, LAN_FIXED_PAYLOAD_LEN + CANDIDATE_LEN * (i + 1))
}

/// The first `n` candidates of a payload, or the first rule one breaks.
pub open spec fn spec_decode_endpoints(b: Seq<u8>, n: nat) -> Result<Seq<LanEndpoint>, JoinCodeError>
    decreases n,
{
    if n == 0 {
        Ok(Seq::empty())
    } else {
        match spec_decode_endpoints(b, (n - 1) as nat) {
            Err(e) => Err(e),
            Ok(eps) => match spec_decode_endpoint(candidate_bytes(b, n - 1)) {
                Err(e) => Err(e),
                Ok(ep) => Ok(eps.push(ep)),
            },
        }
    }
}

/// The first problem among the first `n` endpoints: one already listed, or
/// an IPv6 endpoint with flow information.
pub open spec fn spec_endpoint_problem(eps: Seq<LanEndpoint>, n: int) -> Option<JoinCodeError>
    decreases n,
{
    if n <= 0 {
        None
    } else {
        match spec_endpoint_problem(eps, n - 1) {
            Some(e) => Some(e),
            None => if eps.take(n - 1).contains(eps[n - 1]) {
                Some(JoinCodeError::DuplicateLanCandidate(eps[n - 1]))
            } else if eps[n - 1] matches LanEndpoint::V6 { flowinfo, .. } && flowinfo != 0 {
                Some(JoinCodeError::UnsupportedIpv6FlowInfo)
            } else {
                None
            },
        }
    }
}

/// The first rule a list of endpoints breaks.
pub open spec fn spec_endpoints_error(eps: Seq<LanEndpoint>) -> Option<JoinCodeError> {
    if eps.len() == 0 {
        Some(JoinCodeError::MissingLanCandidates)
    } else if eps.len() > MAX_LAN_CANDIDATES {
        Some(JoinCodeError::TooManyLanCandidates(eps.len() as usize))
    } else {
        spec_endpoint_problem(eps, eps.len() as int)
    }
}

/// The first rule an introducer breaks.
pub open spec fn spec_identity_error(steam_id64: u64, instance_id: Seq<u8>) -> Option<JoinCodeError> {
    if steam_id64 == 0 {
        Some(JoinCodeError::ZeroIntroducerSteamId)
    } else if forall|k: int| 0 <= k < instance_id.len() ==> #[trigger] instance_id[k] == 0 {
        Some(JoinCodeError::ZeroIntroducerInstanceId)
    } else {
        None
    }
}

/// The LAN code a payload (of version 6) holds, or the first rule it breaks.
pub open spec fn spec_lan_decode(b: Seq<u8>) -> Result<LanCodeView, JoinCodeError> {
    let count = b[5] as int;
    let expected = LAN_FIXED_PAYLOAD_LEN + CANDIDATE_LEN * count + CHECKSUM_LEN;
    let content = expected - CHECKSUM_LEN;
    let steam = spec_be(b.subrange(24, 32)) as u64;
    let instance = b.subrange(32, 48);
    if b.len() > MAX_LAN_PAYLOAD_LEN {
        Err(JoinCodeError::PayloadTooLarge(b.len() as usize))
    } else if b.len() < LAN_FIXED_PAYLOAD_LEN + CANDIDATE_LEN + CHECKSUM_LEN {
        Err(JoinCodeError::Truncated)
    } else if b[3] != LAN_DIRECT_ROUTE {
        Err(JoinCodeError::UnsupportedRoute(b[3]))
    } else if b[4] != 0 {
        Err(JoinCodeError::UnsupportedFlags(b[4]))
    } else if b[6] != 0 || b[7] != 0 {
        Err(JoinCodeError::NonZeroReserved)
    } else if count == 0 {
        Err(JoinCodeError::MissingLanCandidates)
    } else if count > MAX_LAN_CANDIDATES {
        Err(JoinCodeError::TooManyLanCandidates(count as usize))
    } else if b.len() < expected {
        Err(JoinCodeError::Truncated)
    } else if b.len() != expected {
        Err(JoinCodeError::TrailingBytes)
    } else if spec_checksum(b.take(content)) != b.subrange(content, b.len() as int) {
        Err(JoinCodeError::ChecksumMismatch)
    } else if spec_identity_error(steam, instance) is Some {
        Err(spec_identity_error(steam, instance)->Some_0)
    } else {
        match spec_decode_endpoints(b, count as nat) {
            Err(e) => Err(e),
            Ok(eps) => match spec_endpoints_error(eps) {
                Some(e) => Err(e),
                None => Ok((steam, instance, eps, b.subrange(8, 24))),
            },
        }
    }
}

fn decode_endpoint(c: &[u8]) -> (r: Result<LanEndpoint, JoinCodeError>)
    requires
        c@.len() == CANDIDATE_LEN,
    ensures
        r == spec_decode_endpoint(c@),
{
    if c[1] != 0 {
        return Err(JoinCodeError::NonZeroCandidateReserved);
    }
    let port: u16 = (c[2] as u16) * 256 + c[3] as u16;
    let scope_value = be_value(&c[4..8]);
    proof {
        lemma_be_bound(c@.subrange(4, 8));
        reveal_with_fuel(pow256, 5);
    }
    let scope: u32 = scope_value as u32;
    if c[0] == IPV4_FAMILY {
        let mut k: usize = 12;
        while k < 24
            invariant
                12 <= k <= 24,
                c@.len() == 24,
                c@[1] == 0,
                c@[0] == IPV4_FAMILY,
                forall|j: int| 12 <= j < k ==> c@[j] == 0,
            decreases 24 - k,
        {
            if c[k] != 0 {
                proof {
                    assert(c@[k as int] != 0);
                }
                return Err(JoinCodeError::NonZeroCandidateReserved);
            }
            k = k + 1;
        }
        if scope != 0 {
            return Err(JoinCodeError::NonZeroCandidateReserved);
        }
        let address = be_value(&c[8..12]);
        proof {
            lemma_be_bound(c@.subrange(8, 12));
            reveal_with_fuel(pow256, 5);
        }
        Ok(LanEndpoint::V4 { address: address as u32, port })
    } else if c[0] == IPV6_FAMILY {
        let address = be_value(&c[8..24]);
        Ok(LanEndpoint::V6 { address, port, flowinfo: 0, scope_id: scope })
    } else {
        Err(JoinCodeError::UnsupportedAddressFamily(c[0]))
    }
}

fn contains_endpoint(eps: &Vec<LanEndpoint>, n: usize, ep: LanEndpoint) -> (r: bool)
    requires
        n <= eps@.len(),
    ensures
        r == eps@.take(n as int).contains(ep),
{
    let mut i: usize = 0;
    while i < n
        invariant
            i <= n <= eps@.len(),
            forall|k: int| 0 <= k < i ==> eps@[k] != ep,
        decreases n - i,
    {
        if eps[i] == ep {
            proof {
                assert(eps@.take(n as int)[i as int] == ep);
            }
            return true;
        }
        i = i + 1;
    }
    proof {
        if eps@.take(n as int).contains(ep) {
            let k = choose|k: int| 0 <= k < n && eps@.take(n as int)[k] == ep;
            assert(eps@[k] == ep);
        }
    }
    false
}

/// Checks a list of control endpoints: some, not too many, none listed
/// twice, and no IPv6 flow information.
pub fn validate_endpoints(eps: &Vec<LanEndpoint>) -> (r: Result<(), JoinCodeError>)
    ensures
        match spec_endpoints_error(eps@) {
            None => r is Ok,
            Some(e) => r == Err::<(), JoinCodeError>(e),
        },
{
    if eps.len() == 0 {
        return Err(JoinCodeError::MissingLanCandidates);
    }
    if eps.len() > MAX_LAN_CANDIDATES {
        return Err(JoinCodeError::TooManyLanCandidates(eps.len()));
    }
    let mut i: usize = 0;
    while i < eps.len()
        invariant
            i <= eps@.len(),
            0 < eps@.len() <= MAX_LAN_CANDIDATES,
            spec_endpoint_problem(eps@, i as int) is None,
        decreases eps@.len() - i,
    {
        let ep = eps[i];
        if contains_endpoint(eps, i, ep) {
            proof {
                assert(spec_endpoint_problem(eps@, i + 1) == Some(JoinCodeError::DuplicateLanCandidate(ep)));
                lemma_problem_stays(eps@, i + 1, eps@.len() as int);
            }
            return Err(JoinCodeError::DuplicateLanCandidate(ep));
        }
        match ep {
            LanEndpoint::V6 { flowinfo, .. } => {
                if flowinfo != 0 {
                    proof {
                        assert(spec_endpoint_problem(eps@, i + 1) == Some(JoinCodeError::UnsupportedIpv6FlowInfo));
                        lemma_problem_stays(eps@, i + 1, eps@.len() as int);
                    }
                    return Err(JoinCodeError::UnsupportedIpv6FlowInfo);
                }
            },
            LanEndpoint::V4 { .. } => {},
        }
        i = i + 1;
    }
    Ok(())
}

proof fn lemma_no_problem(eps: Seq<LanEndpoint>, n: int)
    requires
        0 <= n <= eps.len(),
        spec_endpoint_problem(eps, n) is None,
    ensures
        forall|k: int| 0 <= k < n ==> spec_encode_endpoint(#[trigger] eps[k]) is Ok,
    decreases n,
{
    if n > 0 {
        lemma_no_problem(eps, n - 1);
    }
}

proof fn lemma_encode_ok(eps: Seq<LanEndpoint>, n: int)
    requires
        0 <= n <= eps.len(),
        forall|k: int| 0 <= k < n ==> spec_encode_endpoint(#[trigger] eps[k]) is Ok,
    ensures
        spec_encode_endpoints(eps, n) is Ok,
    decreases n,
{
    if n > 0 {
        lemma_encode_ok(eps, n - 1);
    }
}

proof fn lemma_problem_stays(eps: Seq<LanEndpoint>, k: int, n: int)
    requires
        0 <= k <= n,
        spec_endpoint_problem(eps, k) is Some,
    ensures
        spec_endpoint_problem(eps, n) == spec_endpoint_problem(eps, k),
    decreases n - k,
{
    if n > k {
        lemma_problem_stays(eps, k, n - 1);
    }
}

/// Checks the introducer: a Steam id and an instance id that are not zero.
pub fn validate_identity(identity: &PeerIdentity) -> (r: Result<(), JoinCodeError>)
    ensures
        match spec_identity_error(identity.steam_id64, identity.instance_id@) {
            None => r is Ok,
            Some(e) => r == Err::<(), JoinCodeError>(e),
        },
{
    if identity.steam_id64 == 0 {
        return Err(JoinCodeError::ZeroIntroducerSteamId);
    }
    let mut k: usize = 0;
    while k < 16
        invariant
            k <= 16,
            identity.steam_id64 != 0,
            identity.instance_id@.len() == 16,
            forall|j: int| 0 <= j < k ==> identity.instance_id@[j] == 0,
        decreases 16 - k,
    {
        if identity.instance_id[k] != 0 {
            proof {
                assert(identity.instance_id@[k as int] != 0);
            }
            return Ok(());
        }
        k = k + 1;
    }
    Err(JoinCodeError::ZeroIntroducerInstanceId)
}

/// Decodes a LAN Direct payload (after its magic and version).
pub fn decode_lan_payload(bytes: &[u8]) -> (r: Result<LanJoinCode, JoinCodeError>)
    requires
        bytes@.len() >= 3,
    ensures
        match (r, spec_lan_decode(bytes@)) {
            (Ok(c), Ok(v)) => c@ == v,
            (Err(e), Err(f)) => e == f,
            _ => false,
        },
{
    if bytes.len() > MAX_LAN_PAYLOAD_LEN {
        return Err(JoinCodeError::PayloadTooLarge(bytes.len()));
    }
    if bytes.len() < LAN_FIXED_PAYLOAD_LEN + CANDIDATE_LEN + CHECKSUM_LEN {
        return Err(JoinCodeError::Truncated);
    }
    if bytes[3] != LAN_DIRECT_ROUTE {
        return Err(JoinCodeError::UnsupportedRoute(bytes[3]));
    }
    if bytes[4] != 0 {
        return Err(JoinCodeError::UnsupportedFlags(bytes[4]));
    }
    if bytes[6] != 0 || bytes[7] != 0 {
        return Err(JoinCodeError::NonZeroReserved);
    }
    let count = bytes[5] as usize;
    if count == 0 {
        return Err(JoinCodeError::MissingLanCandidates);
    }
    if count > MAX_LAN_CANDIDATES {
        return Err(JoinCodeError::TooManyLanCandidates(count));
    }
    let expected = LAN_FIXED_PAYLOAD_LEN + CANDIDATE_LEN * count + CHECKSUM_LEN;
    if bytes.len() < expected {
        return Err(JoinCodeError::Truncated);
    }
    if bytes.len() != expected {
        return Err(JoinCodeError::TrailingBytes);
    }
    let content_len = expected - CHECKSUM_LEN;
    if !checksum_matches(bytes, content_len) {
        return Err(JoinCodeError::ChecksumMismatch);
    }
    let mut credential = [0u8; 16];
    let mut instance_id = [0u8; 16];
    let mut i: usize = 0;
    while i < 16
        invariant
            bytes@.len() >= LAN_FIXED_PAYLOAD_LEN,
            i <= 16,
            credential@.len() == 16,
            instance_id@.len() == 16,
            forall|k: int| 0 <= k < i ==> credential@[k] == bytes@[8 + k],
            forall|k: int| 0 <= k < i ==> instance_id@[k] == bytes@[32 + k],
        decreases 16 - i,
    {
        credential[i] = bytes[8 + i];
        instance_id[i] = bytes[32 + i];
        i = i + 1;
    }
    let steam = be_value(&bytes[24..32]);
    proof {
        lemma_be_bound(bytes@.subrange(24, 32));
        reveal_with_fuel(pow256, 9);
        assert(credential@ =~= bytes@.subrange(8, 24));
        assert(instance_id@ =~= bytes@.subrange(32, 48));
    }
    let introducer = PeerIdentity { steam_id64: steam as u64, instance_id };
    match validate_identity(&introducer) {
        Err(e) => return Err(e),
        Ok(()) => {},
    }
    let mut endpoints: Vec<LanEndpoint> = Vec::new();
    let mut j: usize = 0;
    let ghost steam_spec = spec_be(bytes@.subrange(24, 32)) as u64;
    assert(spec_lan_decode(bytes@) == match spec_decode_endpoints(bytes@, count as nat) {
        Err(e) => Err(e),
        Ok(eps) => match spec_endpoints_error(eps) {
            Some(e) => Err(e),
            None => Ok((steam_spec, bytes@.subrange(32, 48), eps, bytes@.subrange(8, 24))),
        },
    });
    while j < count
        invariant
            j <= count <= MAX_LAN_CANDIDATES,
            spec_lan_decode(bytes@) == match spec_decode_endpoints(bytes@, count as nat) {
                Err(e) => Err(e),
                Ok(eps) => match spec_endpoints_error(eps) {
                    Some(e) => Err(e),
                    None => Ok((steam_spec, bytes@.subrange(32, 48), eps, bytes@.subrange(8, 24))),
                },
            },
            introducer.steam_id64 == steam_spec,
            introducer.instance_id@ == bytes@.subrange(32, 48),
            credential@ == bytes@.subrange(8, 24),
            bytes@.len() == LAN_FIXED_PAYLOAD_LEN + CANDIDATE_LEN * count + CHECKSUM_LEN,
            spec_decode_endpoints(bytes@, j as nat) == Ok::<Seq<LanEndpoint>, JoinCodeError>(endpoints@),
        decreases count - j,
    {
        let start = LAN_FIXED_PAYLOAD_LEN + CANDIDATE_LEN * j;
        let chunk = &bytes[start..start + CANDIDATE_LEN];
        proof {
            assert(chunk@ == candidate_bytes(bytes@, j as int));
        }
        match decode_endpoint(chunk) {
            Ok(ep) => {
                endpoints.push(ep);
            },
            Err(e) => {
                proof {
                    lemma_endpoints_error_stays(bytes@, (j + 1) as nat, count as nat);
                }
                return Err(e);
            },
        }
        j = j + 1;
    }
    match validate_endpoints(&endpoints) {
        Err(e) => return Err(e),
        Ok(()) => {},
    }
    Ok(LanJoinCode {
        introducer,
        control_endpoints: endpoints,
        session_credential: SessionCredential::from_bytes(credential),
    })
}

proof fn lemma_endpoints_error_stays(b: Seq<u8>, k: nat, n: nat)
    requires
        k <= n,
        spec_decode_endpoints(b, k) is Err,
    ensures
        spec_decode_endpoints(b, n) == spec_decode_endpoints(b, k),
    decreases n - k,
{
    if n > k {
        lemma_endpoints_error_stays(b, k, (n - 1) as nat);
    }
}

/// The 24 bytes of a candidate, or the IPv6 flow information it cannot carry.
pub open spec fn spec_encode_endpoint(ep: LanEndpoint) -> Result<Seq<u8>, JoinCodeError> {
    match ep {
        LanEndpoint::V4 { address, port } => Ok(
            seq![IPV4_FAMILY, 0u8] + spec_be_bytes(port as u128, 2) + spec_be_bytes(0, 4)
                + spec_be_bytes(address as u128, 4) + spec_be_bytes(0, 12),
        ),
        LanEndpoint::V6 { address, port, flowinfo, scope_id } => if flowinfo != 0 {
            Err(JoinCodeError::UnsupportedIpv6FlowInfo)
        } else {
            Ok(seq![IPV6_FAMILY, 0u8] + spec_be_bytes(port as u128, 2) + spec_be_bytes(scope_id as u128, 4)
                + spec_be_bytes(address, 16))
        },
    }
}

fn encode_endpoint(out: &mut Vec<u8>, ep: LanEndpoint) -> (r: Result<(), JoinCodeError>)
    ensures
        match spec_encode_endpoint(ep) {
            Ok(b) => r is Ok && final(out)@ == old(out)@ + b,
            Err(e) => r == Err::<(), JoinCodeError>(e),
        },
{
    match ep {
        LanEndpoint::V4 { address, port } => {
            let ghost start = out@;
            out.push(IPV4_FAMILY);
            out.push(0);
            push_be(out, port as u128, 2);
            push_be(out, 0, 4);
            push_be(out, address as u128, 4);
            push_be(out, 0, 12);
            proof {
                assert(out@ =~= start + spec_encode_endpoint(ep)->Ok_0);
            }
            Ok(())
        },
        LanEndpoint::V6 { address, port, flowinfo, scope_id } => {
            if flowinfo != 0 {
                return Err(JoinCodeError::UnsupportedIpv6FlowInfo);
            }
            let ghost start = out@;
            out.push(IPV6_FAMILY);
            out.push(0);
            push_be(out, port as u128, 2);
            push_be(out, scope_id as u128, 4);
            push_be(out, address, 16);
            proof {
                assert(out@ =~= start + spec_encode_endpoint(ep)->Ok_0);
            }
            Ok(())
        },
    }
}


proof fn lemma_zero_bytes(n: nat)
    ensures
        forall|i: int| 0 <= i < n ==> #[trigger] spec_be_bytes(0, n)[i] == 0,
{
    assert forall|i: int| 0 <= i < n implies #[trigger] spec_be_bytes(0, n)[i] == 0 by {
        let k: u128 = (8 * (n - 1 - i)) as u128;
        assert((0u128 >> k) & 0xff == 0) by (bit_vector);
    }
}

proof fn lemma_pow256_values()
    ensures
        pow256(2) == 0x1_0000,
        pow256(4) == 0x1_0000_0000,
        pow256(8) == 0x1_0000_0000_0000_0000,
        pow256(16) == 0x1_0000_0000_0000_0000_0000_0000_0000_0000,
{
    reveal_with_fuel(pow256, 17);
}

proof fn lemma_two_bytes(s: Seq<u8>)
    requires
        s.len() == 2,
    ensures
        spec_be(s) == (s[0] as int) * 256 + s[1] as int,
{
    let t = s.drop_last();
    assert(t.drop_last().len() == 0);
    assert(spec_be(t.drop_last()) == 0);
    assert(t.last() == s[0]);
    assert(spec_be(t) == spec_be(t.drop_last()) * 256 + t.last());
    assert(spec_be(s) == spec_be(t) * 256 + s.last());
}

/// A candidate decodes to the endpoint it encodes.
proof fn lemma_decode_encoded_endpoint(ep: LanEndpoint)
    requires
        spec_encode_endpoint(ep) is Ok,
    ensures
        spec_decode_endpoint(spec_encode_endpoint(ep)->Ok_0) == Ok::<LanEndpoint, JoinCodeError>(ep),
{
    lemma_pow256_values();
    let c = spec_encode_endpoint(ep)->Ok_0;
    match ep {
        LanEndpoint::V4 { address, port } => {
            let pb = spec_be_bytes(port as u128, 2);
            let zb = spec_be_bytes(0, 4);
            let ab = spec_be_bytes(address as u128, 4);
            let tb = spec_be_bytes(0, 12);
            assert(c == seq![IPV4_FAMILY, 0u8] + pb + zb + ab + tb);
            assert(c.subrange(2, 4) =~= pb);
            assert(c.subrange(4, 8) =~= zb);
            assert(c.subrange(8, 12) =~= ab);
            lemma_be_of_bytes(port as u128, 2);
            lemma_be_of_bytes(0, 4);
            lemma_be_of_bytes(address as u128, 4);
            lemma_two_bytes(pb);
            lemma_zero_bytes(12);
            assert forall|k: int| 12 <= k < 24 implies #[trigger] c[k] == 0 by {
                assert(c[k] == tb[k - 12]);
            }
            assert(c[2] == pb[0] && c[3] == pb[1]);
        },
        LanEndpoint::V6 { address, port, flowinfo, scope_id } => {
            let pb = spec_be_bytes(port as u128, 2);
            let sb = spec_be_bytes(scope_id as u128, 4);
            let ab = spec_be_bytes(address, 16);
            assert(c == seq![IPV6_FAMILY, 0u8] + pb + sb + ab);
            assert(c.subrange(4, 8) =~= sb);
            assert(c.subrange(8, 24) =~= ab);
            lemma_be_of_bytes(port as u128, 2);
            lemma_be_of_bytes(scope_id as u128, 4);
            lemma_be_of_bytes(address, 16);
            lemma_two_bytes(pb);
            assert(c[2] == pb[0] && c[3] == pb[1]);
        },
    }
}

/// The encoded candidates of the first `n` endpoints, or the first that
/// cannot be encoded.
pub open spec fn spec_encode_endpoints(eps: Seq<LanEndpoint>, n: int) -> Result<Seq<u8>, JoinCodeError>
    decreases n,
{
    if n <= 0 {
        Ok(Seq::empty())
    } else {
        match spec_encode_endpoints(eps, n - 1) {
            Err(e) => Err(e),
            Ok(b) => match spec_encode_endpoint(eps[n - 1]) {
                Err(e) => Err(e),
                Ok(c) => Ok(b + c),
            },
        }
    }
}


proof fn lemma_encoded_len(ep: LanEndpoint)
    requires
        spec_encode_endpoint(ep) is Ok,
    ensures
        spec_encode_endpoint(ep)->Ok_0.len() == CANDIDATE_LEN,
{
}

proof fn lemma_encoded_candidates(eps: Seq<LanEndpoint>, n: int)
    requires
        0 <= n <= eps.len(),
        forall|k: int| 0 <= k < n ==> spec_encode_endpoint(#[trigger] eps[k]) is Ok,
    ensures
        spec_encode_endpoints(eps, n) is Ok,
        spec_encode_endpoints(eps, n)->Ok_0.len() == CANDIDATE_LEN * n,
        forall|i: int| 0 <= i < n ==> #[trigger] spec_encode_endpoints(eps, n)->Ok_0.subrange(CANDIDATE_LEN * i, CANDIDATE_LEN * (i + 1))
            == spec_encode_endpoint(eps[i])->Ok_0,
    decreases n,
{
    if n > 0 {
        lemma_encoded_candidates(eps, n - 1);
        let b = spec_encode_endpoints(eps, n - 1)->Ok_0;
        let e = spec_encode_endpoint(eps[n - 1])->Ok_0;
        lemma_encoded_len(eps[n - 1]);
        assert(spec_encode_endpoints(eps, n)->Ok_0 == b + e);
        assert forall|i: int| 0 <= i < n implies #[trigger] spec_encode_endpoints(eps, n)->Ok_0.subrange(CANDIDATE_LEN * i, CANDIDATE_LEN * (i + 1))
            == spec_encode_endpoint(eps[i])->Ok_0 by {
            if i < n - 1 {
                assert((b + e).subrange(CANDIDATE_LEN * i, CANDIDATE_LEN * (i + 1)) =~= b.subrange(CANDIDATE_LEN * i, CANDIDATE_LEN * (i + 1)));
            } else {
                assert((b + e).subrange(CANDIDATE_LEN * i, CANDIDATE_LEN * (i + 1)) =~= e);
            }
        }
    }
}

proof fn lemma_decoded_candidates(b: Seq<u8>, eps: Seq<LanEndpoint>, n: nat)
    requires
        n <= eps.len(),
        forall|k: int| 0 <= k < n ==> spec_encode_endpoint(#[trigger] eps[k]) is Ok,
        forall|k: int| 0 <= k < n ==> #[trigger] candidate_bytes(b, k) == spec_encode_endpoint(eps[k])->Ok_0,
    ensures
        spec_decode_endpoints(b, n) == Ok::<Seq<LanEndpoint>, JoinCodeError>(eps.take(n as int)),
    decreases n,
{
    if n > 0 {
        lemma_decoded_candidates(b, eps, (n - 1) as nat);
        lemma_decode_encoded_endpoint(eps[n - 1]);
        assert(candidate_bytes(b, n - 1) == spec_encode_endpoint(eps[n - 1])->Ok_0);
        assert(eps.take(n - 1).push(eps[n - 1]) =~= eps.take(n as int));
    } else {
        assert(eps.take(0) =~= Seq::<LanEndpoint>::empty());
    }
}

proof fn lemma_be_u64_bytes(v: u64)
    ensures
        spec_be_u64(v) == spec_be_bytes(v as u128, 8),
{
    assert forall|i: int| 0 <= i < 8 implies #[trigger] spec_be_u64(v)[i] == spec_be_bytes(v as u128, 8)[i] by {
        let k: u64 = (8 * (7 - i)) as u64;
        let w: u128 = v as u128;
        assert((((v >> k) & 0xff) as u8) == (((w >> (k as u128)) & 0xff) as u8)) by (bit_vector)
            requires w == v as u128, k <= 56;
        assert((8 * (8 - 1 - i)) as u128 == k as u128);
    }
    assert(spec_be_u64(v) =~= spec_be_bytes(v as u128, 8));
}

/// A LAN code whose payload could be written reads back from that payload
/// as it was: the introducer, the endpoints in order and the credential.
pub proof fn law_lan_payload_round_trip(code: LanCodeView)
    requires
        spec_lan_payload(code) is Ok,
        code.1.len() == 16,
        code.3.len() == 16,
    ensures
        spec_lan_decode(spec_lan_payload(code)->Ok_0) == Ok::<LanCodeView, JoinCodeError>(code),
{
    let eps = code.2;
    let n = eps.len();
    lemma_no_problem(eps, n as int);
    lemma_encoded_candidates(eps, n as int);
    let cand = spec_encode_endpoints(eps, n as int)->Ok_0;
    let header = seq![JOIN_CODE_MAGIC_0, JOIN_CODE_MAGIC_1, LAN_JOIN_CODE_VERSION, LAN_DIRECT_ROUTE, 0u8, n as u8, 0u8, 0u8];
    let steam_bytes = spec_be_u64(code.0);
    let content = header + code.3 + steam_bytes + code.1 + cand;
    let p = content + spec_checksum(content);
    assert(spec_lan_payload(code)->Ok_0 == p);
    let content_len = LAN_FIXED_PAYLOAD_LEN + CANDIDATE_LEN * n;
    assert(content.len() == content_len);
    assert(p.len() == content_len + CHECKSUM_LEN);
    assert(p[3] == LAN_DIRECT_ROUTE && p[4] == 0 && p[6] == 0 && p[7] == 0);
    assert(p[5] == n as u8);
    assert((n as u8) as int == n);
    assert(p.take(content_len) =~= content);
    assert(p.subrange(content_len, p.len() as int) =~= spec_checksum(content));
    assert(p.subrange(8, 24) =~= code.3);
    assert(p.subrange(24, 32) =~= steam_bytes);
    assert(p.subrange(32, 48) =~= code.1);
    lemma_be_u64_bytes(code.0);
    lemma_pow256_values();
    lemma_be_of_bytes(code.0 as u128, 8);
    assert forall|k: int| 0 <= k < n implies #[trigger] candidate_bytes(p, k) == spec_encode_endpoint(eps[k])->Ok_0 by {
        assert(candidate_bytes(p, k) =~= cand.subrange(CANDIDATE_LEN * k, CANDIDATE_LEN * (k + 1)));
    }
    lemma_decoded_candidates(p, eps, n);
    assert(eps.take(n as int) =~= eps);
}

/// The payload of a LAN code, or the first rule it breaks.
pub open spec fn spec_lan_payload(code: LanCodeView) -> Result<Seq<u8>, JoinCodeError> {
    let n = code.2.len();
    let expected = LAN_FIXED_PAYLOAD_LEN + CANDIDATE_LEN * n + CHECKSUM_LEN;
    if spec_identity_error(code.0, code.1) is Some {
        Err(spec_identity_error(code.0, code.1)->Some_0)
    } else if spec_endpoints_error(code.2) is Some {
        Err(spec_endpoints_error(code.2)->Some_0)
    } else if expected > MAX_LAN_PAYLOAD_LEN {
        Err(JoinCodeError::PayloadTooLarge(expected as usize))
    } else {
        match spec_encode_endpoints(code.2, n as int) {
            Err(e) => Err(e),
            Ok(candidates) => {
                let content = seq![JOIN_CODE_MAGIC_0, JOIN_CODE_MAGIC_1, LAN_JOIN_CODE_VERSION, LAN_DIRECT_ROUTE, 0u8, n as u8, 0u8, 0u8]
                    + code.3 + spec_be_u64(code.0) + code.1 + candidates;
                Ok(content + spec_checksum(content))
            },
        }
    }
}

/// Encodes a LAN code's payload: the introducer and endpoints are checked,
/// then framed and checksummed.
pub fn encode_lan_payload(code: &LanJoinCode) -> (r: Result<Vec<u8>, JoinCodeError>)
    ensures
        match (r, spec_lan_payload(code@)) {
            (Ok(p), Ok(q)) => p@ == q,
            (Err(e), Err(f)) => e == f,
            _ => false,
        },
{
    match validate_identity(&code.introducer) {
        Err(e) => return Err(e),
        Ok(()) => {},
    }
    match validate_endpoints(&code.control_endpoints) {
        Err(e) => return Err(e),
        Ok(()) => {},
    }
    let n = code.control_endpoints.len();
    let expected = LAN_FIXED_PAYLOAD_LEN + CANDIDATE_LEN * n + CHECKSUM_LEN;
    if expected > MAX_LAN_PAYLOAD_LEN {
        return Err(JoinCodeError::PayloadTooLarge(expected));
    }
    let mut payload: Vec<u8> = Vec::new();
    payload.push(JOIN_CODE_MAGIC_0);
    payload.push(JOIN_CODE_MAGIC_1);
    payload.push(LAN_JOIN_CODE_VERSION);
    payload.push(LAN_DIRECT_ROUTE);
    payload.push(0);
    payload.push(n as u8);
    payload.push(0);
    payload.push(0);
    let credential = code.session_credential.as_bytes();
    extend_bytes(&mut payload, credential.as_slice());
    let steam = be_bytes(code.introducer.steam_id64);
    extend_bytes(&mut payload, steam.as_slice());
    let instance = code.introducer.instance_id;
    extend_bytes(&mut payload, instance.as_slice());
    let ghost head = payload@;
    proof {
        lemma_no_problem(code.control_endpoints@, n as int);
    }
    let mut i: usize = 0;
    while i < n
        invariant
            i <= n,
            n == code.control_endpoints@.len(),
            forall|k: int| 0 <= k < n ==> spec_encode_endpoint(#[trigger] code.control_endpoints@[k]) is Ok,
            spec_encode_endpoints(code.control_endpoints@, i as int) matches Ok(b) && payload@ == head + b,
        decreases n - i,
    {
        let ghost before = payload@;
        match encode_endpoint(&mut payload, code.control_endpoints[i]) {
            Ok(()) => {
                proof {
                    let b = spec_encode_endpoints(code.control_endpoints@, i as int)->Ok_0;
                    assert(head + b + spec_encode_endpoint(code.control_endpoints@[i as int])->Ok_0
                        =~= head + (b + spec_encode_endpoint(code.control_endpoints@[i as int])->Ok_0));
                }
            },
            Err(e) => {
                proof {
                    assert(spec_encode_endpoint(code.control_endpoints@[i as int]) is Ok);
                }
                return Err(e);
            },
        }
        i = i + 1;
    }
    proof {
        lemma_encode_ok(code.control_endpoints@, n as int);
        let candidates = spec_encode_endpoints(code.control_endpoints@, n as int)->Ok_0;
        assert(payload@ =~= seq![JOIN_CODE_MAGIC_0, JOIN_CODE_MAGIC_1, LAN_JOIN_CODE_VERSION, LAN_DIRECT_ROUTE, 0u8, n as u8, 0u8, 0u8]
            + code.session_credential@ + spec_be_u64(code.introducer.steam_id64) + code.introducer.instance_id@ + candidates);
    }
    append_checksum(&mut payload);
    Ok(payload)
}

} // verus!
