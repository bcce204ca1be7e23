use bridge_core::join_code::SessionCredential;
use bridge_core::lan_control::{
    adapter_priorities, inbound_join_refusal, initial_control_action, join_precheck, session_proof,
    AdapterPlanError, InitialControl, InitialControlAction, JoinPrecheckError, JoinRefusal,
};
use bridge_core::lan_control::{
    admission_outcome, inbound_register_refusal, outbound_failure_message, outbound_register_outcome,
    AdmissionError, AdmissionReply, ControlErrorCode, OutboundErrorKind, OutboundLinkOutcome,
};
use bridge_core::lan_join_code::LanEndpoint;
use bridge_core::lan_membership::{PeerId, RegisterResult};
use sha2::{Digest, Sha256};

fn addr(last: u8) -> LanEndpoint {
    LanEndpoint::V4 { address: u32::from_be_bytes([192, 168, 1, last]), port: 0 }
}

#[test]
fn session_proof_hashes_label_then_credential() {
    let credential = SessionCredential::from_bytes([4; 16]);
    let mut hash = Sha256::new();
    hash.update(b"tractor-beam-direct-session-proof-v1");
    hash.update([4u8; 16]);
    let expected: [u8; 32] = hash.finalize().into();
    assert_eq!(session_proof(&credential), expected);
    assert_ne!(session_proof(&SessionCredential::from_bytes([5; 16])), expected);
}

#[test]
fn adapter_priorities_count_down_and_reject_bad_selections() {
    assert_eq!(adapter_priorities(&vec![addr(1), addr(2), addr(3)]), Ok(vec![3, 2, 1]));
    assert_eq!(adapter_priorities(&vec![]), Err(AdapterPlanError::Empty));
    let nine: Vec<LanEndpoint> = (0..9).map(addr).collect();
    assert_eq!(adapter_priorities(&nine), Err(AdapterPlanError::TooMany(9)));
    assert_eq!(adapter_priorities(&vec![addr(1), addr(2), addr(1), addr(2)]), Err(AdapterPlanError::Duplicate(2)));
    let v6 = LanEndpoint::V6 { address: 1, port: 0, flowinfo: 0, scope_id: 3 };
    let v6_other_scope = LanEndpoint::V6 { address: 1, port: 0, flowinfo: 0, scope_id: 4 };
    assert_eq!(adapter_priorities(&vec![v6, v6_other_scope]), Ok(vec![2, 1]));
}

#[test]
fn join_precheck_needs_an_invited_endpoint_and_the_same_credential() {
    let credential = SessionCredential::from_bytes([4; 16]);
    let local_proof = session_proof(&credential);
    let invited = vec![addr(1), addr(2)];
    assert_eq!(join_precheck(&invited, addr(2), &credential, &local_proof), Ok(()));
    assert_eq!(join_precheck(&invited, addr(3), &credential, &local_proof), Err(JoinPrecheckError::EndpointNotInvited));
    assert_eq!(
        join_precheck(&invited, addr(1), &SessionCredential::from_bytes([5; 16]), &local_proof),
        Err(JoinPrecheckError::CredentialMismatch)
    );
    assert_eq!(
        JoinPrecheckError::CredentialMismatch.message(),
        "LAN invitation credential does not match the local room"
    );
}

#[test]
fn first_control_message_and_join_checks_are_answered_in_order() {
    let probe = |introducer_is_local, proof_matches| {
        initial_control_action(InitialControl::ProbeRequest { introducer_is_local, proof_matches })
    };
    assert_eq!(probe(true, true), InitialControlAction::AnswerProbe);
    assert_eq!(probe(false, true), InitialControlAction::RefuseProbe);
    assert_eq!(probe(true, false), InitialControlAction::RefuseProbe);
    assert_eq!(initial_control_action(InitialControl::JoinRequest), InitialControlAction::HandleJoin);
    assert_eq!(initial_control_action(InitialControl::Other), InitialControlAction::RejectUnexpected);
    assert_eq!(inbound_join_refusal(false, false, false), Some(JoinRefusal::InvalidCredential));
    assert_eq!(inbound_join_refusal(true, false, false), Some(JoinRefusal::NoCompatibleProtocol));
    assert_eq!(inbound_join_refusal(true, true, false), Some(JoinRefusal::MissingCapabilities));
    assert_eq!(inbound_join_refusal(true, true, true), None);
    assert_eq!(JoinRefusal::NoCompatibleProtocol.message(), "no compatible direct protocol");
}

#[test]
fn register_results_map_to_join_refusals_and_dial_outcomes() {
    assert_eq!(inbound_register_refusal(RegisterResult::Accepted { replaced: None, epoch: 1 }), None);
    assert_eq!(
        inbound_register_refusal(RegisterResult::DuplicateLost),
        Some((ControlErrorCode::InvalidState, "a preferred control link is already active"))
    );
    assert_eq!(
        inbound_register_refusal(RegisterResult::DuplicateSteamIdentity),
        Some((ControlErrorCode::DuplicateIdentity, "this Steam identity is already connected"))
    );
    assert_eq!(
        inbound_register_refusal(RegisterResult::SelfConnection),
        Some((ControlErrorCode::IdentityMismatch, "cannot connect a LAN peer to itself"))
    );
    assert_eq!(JoinRefusal::InvalidCredential.code(), ControlErrorCode::InvalidCredential);
    assert_eq!(JoinRefusal::MissingCapabilities.code(), ControlErrorCode::UnsupportedProtocol);
    assert_eq!(outbound_register_outcome(RegisterResult::Accepted { replaced: None, epoch: 2 }), OutboundLinkOutcome::Run);
    assert_eq!(outbound_register_outcome(RegisterResult::DuplicateLost), OutboundLinkOutcome::YieldToPreferred);
    assert_eq!(
        outbound_register_outcome(RegisterResult::DuplicateSteamIdentity),
        OutboundLinkOutcome::Fail(OutboundErrorKind::AlreadyExists)
    );
    assert_eq!(outbound_register_outcome(RegisterResult::SelfConnection), OutboundLinkOutcome::Fail(OutboundErrorKind::InvalidInput));
    assert_eq!(outbound_failure_message(RegisterResult::SelfConnection), Some("cannot connect a LAN peer to itself"));
    assert_eq!(outbound_failure_message(RegisterResult::DuplicateLost), None);
}

#[test]
fn admission_needs_acceptance_listing_the_dialled_peer() {
    let alice = PeerId { steam_id64: 2, instance: 5 };
    let bob = PeerId { steam_id64: 3, instance: 6 };
    assert_eq!(admission_outcome(AdmissionReply::JoinAccepted { peers: vec![bob, alice] }, alice), Ok(vec![bob, alice]));
    assert_eq!(
        admission_outcome(AdmissionReply::JoinAccepted { peers: vec![bob] }, alice),
        Err(AdmissionError::ExpectedPeerMissing)
    );
    assert_eq!(
        admission_outcome(AdmissionReply::JoinRejected { message: "room full".to_owned() }, alice),
        Err(AdmissionError::Refused("room full".to_owned()))
    );
    assert_eq!(
        admission_outcome(AdmissionReply::Error { message: "bad".to_owned() }, alice),
        Err(AdmissionError::Refused("bad".to_owned()))
    );
    assert_eq!(admission_outcome(AdmissionReply::Other, alice), Err(AdmissionError::Unexpected));
    assert_eq!(AdmissionError::Unexpected.message(), "unexpected LAN admission response");
    assert_eq!(AdmissionError::ExpectedPeerMissing.message(), "LAN admission response omitted the expected peer");
}
