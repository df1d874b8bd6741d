use rsnano_node::handshake::{
    answer_is_v2, response_status, verify_response, HandshakeProcess, HandshakeResponseError,
    HandshakeResponseInfo, HandshakeStart, HandshakeStatus,
};
use rsnano_node::numbers::Hash256;

fn own_id() -> Hash256 {
    Hash256::new(0, 2)
}

fn genesis() -> Hash256 {
    Hash256::new(0, 1)
}

#[test]
fn message_without_query_or_response_is_refused() {
    let mut p = HandshakeProcess::new();
    assert_eq!(p.start(false, false), HandshakeStart::Abort);
    // Nothing was accepted, so a query is still answered.
    assert_eq!(p.start(true, false), HandshakeStart::Respond);
}

#[test]
fn second_query_is_refused() {
    let mut p = HandshakeProcess::new();
    assert_eq!(p.start(true, true), HandshakeStart::Respond);
    assert_eq!(p.start(true, false), HandshakeStart::Abort);
    // A response alone is still checked.
    assert_eq!(p.start(false, true), HandshakeStart::CheckResponse);
}

#[test]
fn query_after_a_response_is_refused() {
    let mut p = HandshakeProcess::new();
    assert_eq!(p.start(false, true), HandshakeStart::CheckResponse);
    assert_eq!(p.start(true, false), HandshakeStart::Abort);
}

#[test]
fn after_answering() {
    let p = HandshakeProcess::new();
    assert_eq!(p.after_answer(false, true), Some(HandshakeStatus::Abort));
    assert_eq!(p.after_answer(true, true), None);
    assert_eq!(p.after_answer(true, false), Some(HandshakeStatus::Handshake));
}

#[test]
fn response_checks_in_order() {
    let peer = Hash256::new(0, 9);
    let good = HandshakeResponseInfo { node_id: peer, genesis: Some(genesis()) };
    assert_eq!(verify_response(&good, &own_id(), &genesis(), true, true), Ok(()));
    let own = HandshakeResponseInfo { node_id: own_id(), genesis: Some(Hash256::new(0, 7)) };
    assert_eq!(verify_response(&own, &own_id(), &genesis(), false, false), Err(HandshakeResponseError::OwnNodeId));
    let other_genesis = HandshakeResponseInfo { node_id: peer, genesis: Some(Hash256::new(0, 7)) };
    assert_eq!(
        verify_response(&other_genesis, &own_id(), &genesis(), false, false),
        Err(HandshakeResponseError::InvalidGenesis)
    );
    let v1 = HandshakeResponseInfo { node_id: peer, genesis: None };
    assert_eq!(verify_response(&v1, &own_id(), &genesis(), false, true), Err(HandshakeResponseError::MissingCookie));
    assert_eq!(verify_response(&v1, &own_id(), &genesis(), true, false), Err(HandshakeResponseError::InvalidSignature));
    assert_eq!(verify_response(&v1, &own_id(), &genesis(), true, true), Ok(()));
}

#[test]
fn response_status_follows_the_check() {
    let peer = Hash256::new(0, 9);
    assert_eq!(response_status(&peer, &Ok(())), HandshakeStatus::Realtime(peer));
    assert_eq!(response_status(&peer, &Err(HandshakeResponseError::OwnNodeId)), HandshakeStatus::AbortOwnNodeId);
    assert_eq!(response_status(&peer, &Err(HandshakeResponseError::MissingCookie)), HandshakeStatus::Abort);
}

#[test]
fn answer_version() {
    assert!(answer_is_v2(true, false));
    assert!(answer_is_v2(false, true));
    assert!(!answer_is_v2(false, false));
}
