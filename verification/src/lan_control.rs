//! Decisions of the LAN control plane that stand apart from its sockets:
//! the session proof a credential gives, the adapters a room binds with
//! their candidate priorities, the checks before joining through an
//! invitation, and how a first control message and a join request are
//! answered.

use vstd::prelude::*;
use crate::digest::{sha256, spec_sha256};
use crate::join_code::SessionCredential;
use crate::lan_join_code::{LanEndpoint, MAX_LAN_CANDIDATES};
use crate::lan_membership::{PeerId, RegisterResult};

verus! {

/// The label hashed before the credential into a session proof.
pub open spec fn spec_proof_label() -> Seq<u8> {
    seq![116u8, 114, 97, 99, 116, 111, 114, 45, 98, 101, 97, 109, 45, 100, 105, 114, 101, 99, 116, 45,
        115, 101, 115, 115, 105, 111, 110, 45, 112, 114, 111, 111, 102, 45, 118, 49]
}

/// The session proof of a credential: the SHA-256 of the label
/// `tractor-beam-direct-session-proof-v1` followed by the credential's bytes.
pub open spec fn spec_session_proof(credential: Seq<u8>) -> Seq<u8> {
    spec_sha256(spec_proof_label() + credential)
}

/// The session proof of `credential`.
pub fn session_proof(credential: &SessionCredential) -> (p: [u8; 32])
    ensures
        p@ == spec_session_proof(credential@),
{
    let label: [u8; 36] = [116, 114, 97, 99, 116, 111, 114, 45, 98, 101, 97, 109, 45, 100, 105, 114, 101, 99, 116, 45,
        115, 101, 115, 115, 105, 111, 110, 45, 112, 114, 111, 111, 102, 45, 118, 49];
    let mut data: Vec<u8> = Vec::new();
    let mut i: usize = 0;
    while i < 36
        invariant
            i <= 36,
            data@ == label@.take(i as int),
        decreases 36 - i,
    {
        data.push(label[i]);
        i = i + 1;
        proof {
            assert(data@ =~= label@.take(i as int));
        }
    }
    let bytes = credential.as_bytes();
    let mut j: usize = 0;
    while j < 16
        invariant
            j <= 16,
            bytes@.len() == 16,
            data@ == label@ + bytes@.take(j as int),
        decreases 16 - j,
    {
        data.push(bytes[j]);
        j = j + 1;
        proof {
            assert(data@ =~= label@ + bytes@.take(j as int));
        }
    }
    proof {
        assert(label@ =~= spec_proof_label());
        assert(bytes@.take(16) =~= bytes@);
    }
    sha256(data.as_slice())
}

/// Why a room cannot bind the adapters it was given.
#[derive(Clone, Copy, Debug, PartialEq, Eq, Structural)]
pub enum AdapterPlanError {
    /// No adapter address was given.
    Empty,
    /// More addresses than a code can carry candidates (the count).
    TooMany(usize),
    /// The address at this position repeats an earlier one.
    Duplicate(usize),
}

/// The position of the first address that repeats an earlier one.
pub open spec fn spec_first_duplicate(a: Seq<LanEndpoint>) -> Option<int>
    decreases a.len(),
{
    if a.len() == 0 {
        None
    } else {
        match spec_first_duplicate(a.drop_last()) {
            Some(i) => Some(i),
            None => if a.drop_last().contains(a.last()) { Some(a.len() - 1) } else { None },
        }
    }
}

/// The candidate priorities of the bound addresses (each given with port
/// 0): the first gets the count, each next one less, the last 1. A room
/// needs one to eight distinct addresses.
pub fn adapter_priorities(addresses: &Vec<LanEndpoint>) -> (r: Result<Vec<u32>, AdapterPlanError>)
    ensures
        addresses@.len() == 0 ==> r == Err::<Vec<u32>, AdapterPlanError>(AdapterPlanError::Empty),
        addresses@.len() > MAX_LAN_CANDIDATES ==> r == Err::<Vec<u32>, AdapterPlanError>(AdapterPlanError::TooMany(addresses@.len() as usize)),
        0 < addresses@.len() <= MAX_LAN_CANDIDATES ==> match spec_first_duplicate(addresses@) {
            Some(i) => r matches Err(AdapterPlanError::Duplicate(d)) && d == i,
            None => r matches Ok(p) && p@.len() == addresses@.len()
                && forall|k: int| 0 <= k < p@.len() ==> #[trigger] p@[k] == addresses@.len() - k,
        },
{
    let n = addresses.len();
    if n == 0 {
        return Err(AdapterPlanError::Empty);
    }
    if n > MAX_LAN_CANDIDATES {
        return Err(AdapterPlanError::TooMany(n));
    }
    let mut i: usize = 0;
    while i < n
        invariant
            i <= n == addresses@.len() <= MAX_LAN_CANDIDATES,
            spec_first_duplicate(addresses@.take(i as int)) is None,
        decreases n - i,
    {
        proof {
            assert(addresses@.take(i + 1).drop_last() =~= addresses@.take(i as int));
            assert(addresses@.take(i + 1).last() == addresses@[i as int]);
        }
        let mut j: usize = 0;
        while j < i
            invariant
                j <= i < n == addresses@.len(),
                n <= MAX_LAN_CANDIDATES,
                forall|k: int| 0 <= k < j ==> addresses@[k] != addresses@[i as int],
                spec_first_duplicate(addresses@.take(i as int)) is None,
                addresses@.take(i + 1).drop_last() == addresses@.take(i as int),
                addresses@.take(i + 1).last() == addresses@[i as int],
            decreases i - j,
        {
            if addresses[j] == addresses[i] {
                proof {
                    assert(addresses@.take(i as int)[j as int] == addresses@[i as int]);
                    assert(spec_first_duplicate(addresses@.take(i + 1)) == Some(i as int));
                    lemma_duplicate_stays(addresses@, (i + 1) as int, n as int);
                    assert(addresses@.take(n as int) =~= addresses@);
                }
                return Err(AdapterPlanError::Duplicate(i));
            }
            j = j + 1;
        }
        proof {
            if addresses@.take(i as int).contains(addresses@[i as int]) {
                let k = choose|k: int| 0 <= k < i && addresses@.take(i as int)[k] == addresses@[i as int];
                assert(addresses@[k] == addresses@[i as int]);
            }
        }
        i = i + 1;
    }
    proof {
        assert(addresses@.take(n as int) =~= addresses@);
    }
    let mut p: Vec<u32> = Vec::new();
    let mut k: usize = 0;
    while k < n
        invariant
            k <= n == addresses@.len() <= MAX_LAN_CANDIDATES,
            p@.len() == k,
            forall|m: int| 0 <= m < k ==> #[trigger] p@[m] == n - m,
        decreases n - k,
    {
        p.push((n - k) as u32);
        k = k + 1;
    }
    Ok(p)
}

proof fn lemma_duplicate_stays(a: Seq<LanEndpoint>, k: int, n: int)
    requires
        0 <= k <= n <= a.len(),
        spec_first_duplicate(a.take(k)) is Some,
    ensures
        spec_first_duplicate(a.take(n)) == spec_first_duplicate(a.take(k)),
    decreases n - k,
{
    if n > k {
        lemma_duplicate_stays(a, k, n - 1);
        assert(a.take(n).drop_last() =~= a.take(n - 1));
    }
}

/// Why joining through an invitation is refused before any connection.
#[derive(Clone, Copy, Debug, PartialEq, Eq, Structural)]
pub enum JoinPrecheckError {
    /// The chosen endpoint is not one the invitation lists.
    EndpointNotInvited,
    /// The invitation's credential is not the local room's.
    CredentialMismatch,
}

impl JoinPrecheckError {
    /// The message the join fails with.
    pub fn message(&self) -> (m: &'static str)
        ensures
            m@ == (match *self {
                JoinPrecheckError::EndpointNotInvited => "selected Introducer endpoint is not in the LAN invitation"@,
                JoinPrecheckError::CredentialMismatch => "LAN invitation credential does not match the local room"@,
            }),
    {
        match self {
            JoinPrecheckError::EndpointNotInvited => "selected Introducer endpoint is not in the LAN invitation",
            JoinPrecheckError::CredentialMismatch => "LAN invitation credential does not match the local room",
        }
    }
}

/// Checks a join through an invitation: the endpoint must be one it lists,
/// and its credential must prove the same session as the local room's.
pub fn join_precheck(
    invited: &Vec<LanEndpoint>,
    endpoint: LanEndpoint,
    invitation_credential: &SessionCredential,
    local_proof: &[u8; 32],
) -> (r: Result<(), JoinPrecheckError>)
    ensures
        !invited@.contains(endpoint) ==> r == Err::<(), JoinPrecheckError>(JoinPrecheckError::EndpointNotInvited),
        invited@.contains(endpoint) && spec_session_proof(invitation_credential@) != local_proof@
            ==> r == Err::<(), JoinPrecheckError>(JoinPrecheckError::CredentialMismatch),
        invited@.contains(endpoint) && spec_session_proof(invitation_credential@) == local_proof@ ==> r is Ok,
{
    let mut found = false;
    let mut i: usize = 0;
    while i < invited.len()
        invariant
            i <= invited@.len(),
            found <==> (exists|k: int| 0 <= k < i && invited@[k] == endpoint),
        decreases invited@.len() - i,
    {
        if invited[i] == endpoint {
            found = true;
        }
        i = i + 1;
    }
    proof {
        if invited@.contains(endpoint) {
            let w = choose|w: int| 0 <= w < invited@.len() && invited@[w] == endpoint;
            assert(invited@[w] == endpoint);
        }
        if found {
            let w = choose|w: int| 0 <= w < i && invited@[w] == endpoint;
            assert(invited@[w] == endpoint);
        }
    }
    if !found {
        return Err(JoinPrecheckError::EndpointNotInvited);
    }
    let proof_bytes = session_proof(invitation_credential);
    let mut k: usize = 0;
    while k < 32
        invariant
            k <= 32,
            proof_bytes@.len() == 32 && local_proof@.len() == 32,
            proof_bytes@ == spec_session_proof(invitation_credential@),
            invited@.contains(endpoint),
            forall|m: int| 0 <= m < k ==> proof_bytes@[m] == local_proof@[m],
        decreases 32 - k,
    {
        if proof_bytes[k] != local_proof[k] {
            proof {
                assert(proof_bytes@[k as int] != local_proof@[k as int]);
                assert(proof_bytes@ != local_proof@);
            }
            return Err(JoinPrecheckError::CredentialMismatch);
        }
        k = k + 1;
    }
    proof {
        assert(proof_bytes@ =~= local_proof@);
    }
    Ok(())
}

/// The first control message on an inbound connection, by kind.
#[derive(Clone, Copy, Debug, PartialEq, Eq, Structural)]
pub enum InitialControl {
    /// A probe naming `introducer_is_local` and carrying a proof that
    /// matches the room's or not.
    ProbeRequest { introducer_is_local: bool, proof_matches: bool },
    JoinRequest,
    Other,
}

/// How the first control message is answered.
#[derive(Clone, Copy, Debug, PartialEq, Eq, Structural)]
pub enum InitialControlAction {
    /// Answer the probe with the selected protocol and capabilities.
    AnswerProbe,
    /// Refuse the probe: the invitation is not valid for this peer.
    RefuseProbe,
    /// Handle the join request.
    HandleJoin,
    /// Reject: a probe or a join request was expected.
    RejectUnexpected,
}

/// Decides how the first control message on a connection is answered.
pub fn initial_control_action(m: InitialControl) -> (a: InitialControlAction)
    ensures
        a == (match m {
            InitialControl::ProbeRequest { introducer_is_local, proof_matches } =>
                if introducer_is_local && proof_matches { InitialControlAction::AnswerProbe } else { InitialControlAction::RefuseProbe },
            InitialControl::JoinRequest => InitialControlAction::HandleJoin,
            InitialControl::Other => InitialControlAction::RejectUnexpected,
        }),
{
    match m {
        InitialControl::ProbeRequest { introducer_is_local, proof_matches } => {
            if introducer_is_local && proof_matches {
                InitialControlAction::AnswerProbe
            } else {
                InitialControlAction::RefuseProbe
            }
        },
        InitialControl::JoinRequest => InitialControlAction::HandleJoin,
        InitialControl::Other => InitialControlAction::RejectUnexpected,
    }
}

/// Why an inbound join is refused before the link is registered.
#[derive(Clone, Copy, Debug, PartialEq, Eq, Structural)]
pub enum JoinRefusal {
    InvalidCredential,
    NoCompatibleProtocol,
    MissingCapabilities,
}

impl JoinRefusal {
    /// The message the refusal carries.
    pub fn message(&self) -> (m: &'static str)
        ensures
            m@ == (match *self {
                JoinRefusal::InvalidCredential => "LAN session credential is invalid"@,
                JoinRefusal::NoCompatibleProtocol => "no compatible direct protocol"@,
                JoinRefusal::MissingCapabilities => "required direct capabilities are unavailable"@,
            }),
    {
        match self {
            JoinRefusal::InvalidCredential => "LAN session credential is invalid",
            JoinRefusal::NoCompatibleProtocol => "no compatible direct protocol",
            JoinRefusal::MissingCapabilities => "required direct capabilities are unavailable",
        }
    }
}

/// The first check an inbound join fails, in order: the session proof,
/// then a common protocol, then the required capabilities.
pub fn inbound_join_refusal(proof_matches: bool, protocol_selected: bool, capabilities_selected: bool) -> (r: Option<JoinRefusal>)
    ensures
        r == (if !proof_matches {
            Some(JoinRefusal::InvalidCredential)
        } else if !protocol_selected {
            Some(JoinRefusal::NoCompatibleProtocol)
        } else if !capabilities_selected {
            Some(JoinRefusal::MissingCapabilities)
        } else {
            None
        }),
{
    if !proof_matches {
        Some(JoinRefusal::InvalidCredential)
    } else if !protocol_selected {
        Some(JoinRefusal::NoCompatibleProtocol)
    } else if !capabilities_selected {
        Some(JoinRefusal::MissingCapabilities)
    } else {
        None
    }
}


/// The error codes of the LAN control protocol that a join is refused with.
#[derive(Clone, Copy, Debug, PartialEq, Eq, Structural)]
pub enum ControlErrorCode {
    InvalidCredential,
    UnsupportedProtocol,
    InvalidState,
    DuplicateIdentity,
    IdentityMismatch,
}

impl JoinRefusal {
    /// The code the refusal is sent with.
    pub fn code(&self) -> (c: ControlErrorCode)
        ensures
            c == (match *self {
                JoinRefusal::InvalidCredential => ControlErrorCode::InvalidCredential,
                _ => ControlErrorCode::UnsupportedProtocol,
            }),
    {
        match self {
            JoinRefusal::InvalidCredential => ControlErrorCode::InvalidCredential,
            _ => ControlErrorCode::UnsupportedProtocol,
        }
    }
}

/// How an inbound join is refused after its link was offered to the
/// membership, or none when the link was accepted.
pub fn inbound_register_refusal(r: RegisterResult) -> (o: Option<(ControlErrorCode, &'static str)>)
    ensures
        match r {
            RegisterResult::Accepted { .. } => o is None,
            RegisterResult::DuplicateLost => o matches Some((c, m)) && c == ControlErrorCode::InvalidState
                && m@ == "a preferred control link is already active"@,
            RegisterResult::DuplicateSteamIdentity => o matches Some((c, m)) && c == ControlErrorCode::DuplicateIdentity
                && m@ == "this Steam identity is already connected"@,
            RegisterResult::SelfConnection => o matches Some((c, m)) && c == ControlErrorCode::IdentityMismatch
                && m@ == "cannot connect a LAN peer to itself"@,
            RegisterResult::LifecycleExhausted => o matches Some((c, m)) && c == ControlErrorCode::InvalidState
                && m@ == "LAN peer lifecycle epochs are exhausted"@,
        },
{
    match r {
        RegisterResult::Accepted { .. } => None,
        RegisterResult::DuplicateLost => Some((ControlErrorCode::InvalidState, "a preferred control link is already active")),
        RegisterResult::DuplicateSteamIdentity => Some((ControlErrorCode::DuplicateIdentity, "this Steam identity is already connected")),
        RegisterResult::SelfConnection => Some((ControlErrorCode::IdentityMismatch, "cannot connect a LAN peer to itself")),
        RegisterResult::LifecycleExhausted => Some((ControlErrorCode::InvalidState, "LAN peer lifecycle epochs are exhausted")),
    }
}

/// The answer to an outbound join request, as far as admission goes.
pub enum AdmissionReply {
    /// Admitted; the peers the introducer knows.
    JoinAccepted { peers: Vec<PeerId> },
    JoinRejected { message: String },
    Error { message: String },
    Other,
}

/// Why an outbound admission failed.
#[derive(Clone, Debug, PartialEq, Eq)]
pub enum AdmissionError {
    /// The introducer refused, with its message (a permission error).
    Refused(String),
    /// Not an answer to a join request (invalid data).
    Unexpected,
    /// The introducer's answer does not list the peer dialled (invalid data).
    ExpectedPeerMissing,
}

impl AdmissionError {
    /// The message the dial fails with.
    pub fn message(&self) -> (m: String)
        ensures
            m@ == (match *self {
                AdmissionError::Refused(t) => t@,
                AdmissionError::Unexpected => "unexpected LAN admission response"@,
                AdmissionError::ExpectedPeerMissing => "LAN admission response omitted the expected peer"@,
            }),
    {
        match self {
            AdmissionError::Refused(t) => t.clone(),
            AdmissionError::Unexpected => String::from_str("unexpected LAN admission response"),
            AdmissionError::ExpectedPeerMissing => String::from_str("LAN admission response omitted the expected peer"),
        }
    }
}

/// Reads the answer to an outbound join request to `expected`: admitted
/// when it is accepted and lists the expected peer; refused with the
/// introducer's message when rejected or answered with an error.
pub fn admission_outcome(reply: AdmissionReply, expected: PeerId) -> (r: Result<Vec<PeerId>, AdmissionError>)
    ensures
        match reply {
            AdmissionReply::JoinAccepted { peers } => if peers@.contains(expected) {
                r matches Ok(p) && p@ == peers@
            } else {
                r == Err::<Vec<PeerId>, AdmissionError>(AdmissionError::ExpectedPeerMissing)
            },
            AdmissionReply::JoinRejected { message } => r matches Err(AdmissionError::Refused(m)) && m@ == message@,
            AdmissionReply::Error { message } => r matches Err(AdmissionError::Refused(m)) && m@ == message@,
            AdmissionReply::Other => r == Err::<Vec<PeerId>, AdmissionError>(AdmissionError::Unexpected),
        },
{
    let ghost g = reply;
    match reply {
        AdmissionReply::JoinAccepted { peers } => {
            let mut found = false;
            let mut i: usize = 0;
            while i < peers.len()
                invariant
                    i <= peers@.len(),
                    found <==> (exists|k: int| 0 <= k < i && peers@[k] == expected),
                decreases peers@.len() - i,
            {
                if peers[i] == expected {
                    found = true;
                }
                i = i + 1;
            }
            proof {
                if found {
                    let k = choose|k: int| 0 <= k < i && peers@[k] == expected;
                    assert(peers@[k] == expected);
                }
                if peers@.contains(expected) {
                    let k = choose|k: int| 0 <= k < peers@.len() && peers@[k] == expected;
                    assert(peers@[k] == expected);
                }
            }
            if found {
                return Ok(peers);
            }
            Err(AdmissionError::ExpectedPeerMissing)
        },
        AdmissionReply::JoinRejected { message } => Err(AdmissionError::Refused(message)),
        AdmissionReply::Error { message } => Err(AdmissionError::Refused(message)),
        AdmissionReply::Other => Err(AdmissionError::Unexpected),
    }
}

/// The kind of error an outbound link ends with.
#[derive(Clone, Copy, Debug, PartialEq, Eq, Structural)]
pub enum OutboundErrorKind {
    AlreadyExists,
    InvalidInput,
    Other,
}

/// What a dialler does once its admitted link was offered to the
/// membership: run the link (closing the one it replaced), give up quietly
/// when a preferred link already exists, or fail.
#[derive(Clone, Copy, Debug, PartialEq, Eq, Structural)]
pub enum OutboundLinkOutcome {
    Run,
    YieldToPreferred,
    Fail(OutboundErrorKind),
}

/// Decides on an outbound link's registration.
pub fn outbound_register_outcome(r: RegisterResult) -> (o: OutboundLinkOutcome)
    ensures
        o == (match r {
            RegisterResult::Accepted { .. } => OutboundLinkOutcome::Run,
            RegisterResult::DuplicateLost => OutboundLinkOutcome::YieldToPreferred,
            RegisterResult::DuplicateSteamIdentity => OutboundLinkOutcome::Fail(OutboundErrorKind::AlreadyExists),
            RegisterResult::SelfConnection => OutboundLinkOutcome::Fail(OutboundErrorKind::InvalidInput),
            RegisterResult::LifecycleExhausted => OutboundLinkOutcome::Fail(OutboundErrorKind::Other),
        }),
{
    match r {
        RegisterResult::Accepted { .. } => OutboundLinkOutcome::Run,
        RegisterResult::DuplicateLost => OutboundLinkOutcome::YieldToPreferred,
        RegisterResult::DuplicateSteamIdentity => OutboundLinkOutcome::Fail(OutboundErrorKind::AlreadyExists),
        RegisterResult::SelfConnection => OutboundLinkOutcome::Fail(OutboundErrorKind::InvalidInput),
        RegisterResult::LifecycleExhausted => OutboundLinkOutcome::Fail(OutboundErrorKind::Other),
    }
}

/// The message an outbound link fails with.
pub fn outbound_failure_message(r: RegisterResult) -> (m: Option<&'static str>)
    ensures
        match r {
            RegisterResult::DuplicateSteamIdentity => m matches Some(t) && t@ == "this Steam identity is already connected"@,
            RegisterResult::SelfConnection => m matches Some(t) && t@ == "cannot connect a LAN peer to itself"@,
            RegisterResult::LifecycleExhausted => m matches Some(t) && t@ == "LAN peer lifecycle epochs are exhausted"@,
            _ => m is None,
        },
{
    match r {
        RegisterResult::DuplicateSteamIdentity => Some("this Steam identity is already connected"),
        RegisterResult::SelfConnection => Some("cannot connect a LAN peer to itself"),
        RegisterResult::LifecycleExhausted => Some("LAN peer lifecycle epochs are exhausted"),
        _ => None,
    }
}

} // verus!
