use rsnano_node::message_filter::{
    filter_duplicate_messages, filters_duplicates, validate_work, parse_error_detail, MessageType, ParseErrorDetail, ParseMessageError,
};
use std::collections::HashSet;

/// Stands in for the network filter: a digest of the payload and whether it was seen.
fn apply(seen: &mut HashSet<Vec<u8>>, payload: &[u8]) -> (u128, bool) {
    let digest = payload.iter().fold(7u128, |acc, b| acc.wrapping_mul(31).wrapping_add(*b as u128));
    (digest, !seen.insert(payload.to_vec()))
}

fn receive(seen: &mut HashSet<Vec<u8>>, t: MessageType, payload: &[u8]) -> Result<u128, ParseMessageError> {
    let applied = if filters_duplicates(t) { Some(apply(seen, payload)) } else { None };
    filter_duplicate_messages(t, applied)
}

#[test]
fn insufficient_work() {
    assert_eq!(validate_work(MessageType::Publish, false), Err(ParseMessageError::InsufficientWork));
    assert_eq!(validate_work(MessageType::Publish, true), Ok(()));
    assert_eq!(validate_work(MessageType::ConfirmAck, false), Ok(()));
}

#[test]
fn duplicate_publish_message() {
    let mut seen = HashSet::new();
    assert!(receive(&mut seen, MessageType::Publish, b"block").is_ok());
    assert_eq!(receive(&mut seen, MessageType::Publish, b"block"), Err(ParseMessageError::DuplicatePublishMessage));
}

#[test]
fn duplicate_confirm_ack() {
    let mut seen = HashSet::new();
    assert!(receive(&mut seen, MessageType::ConfirmAck, b"vote").is_ok());
    assert_eq!(receive(&mut seen, MessageType::ConfirmAck, b"vote"), Err(ParseMessageError::DuplicateConfirmAckMessage));
}

#[test]
fn other_messages_are_not_filtered() {
    let mut seen = HashSet::new();
    assert_eq!(receive(&mut seen, MessageType::Keepalive, b"x"), Ok(0));
    assert_eq!(receive(&mut seen, MessageType::Keepalive, b"x"), Ok(0));
    assert!(seen.is_empty());
    let (digest, _) = apply(&mut HashSet::new(), b"block");
    assert_eq!(filter_duplicate_messages(MessageType::Publish, Some((digest, false))), Ok(digest));
}

#[test]
fn refusals_map_to_their_statistics_detail() {
    assert_eq!(parse_error_detail(&ParseMessageError::Stopped), ParseErrorDetail::All);
    assert_eq!(parse_error_detail(&ParseMessageError::Other(String::from("x"))), ParseErrorDetail::All);
    assert_eq!(parse_error_detail(&ParseMessageError::InvalidMessage(MessageType::Publish)), ParseErrorDetail::InvalidPublishMessage);
    assert_eq!(parse_error_detail(&ParseMessageError::InvalidMessage(MessageType::BulkPush)), ParseErrorDetail::InvalidMessageType);
    assert_eq!(parse_error_detail(&ParseMessageError::MessageSizeTooBig), ParseErrorDetail::MessageSizeTooBig);
}
