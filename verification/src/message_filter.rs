//! Early checks on received messages: duplicates of published blocks and votes are
//! dropped before they are parsed, and published blocks need enough work.

use vstd::prelude::*;

verus! {

/// The kinds of network messages.
#[derive(Clone, Copy, Debug, PartialEq, Eq, Structural)]
pub enum MessageType {
    Invalid,
    NotAType,
    Keepalive,
    Publish,
    ConfirmReq,
    ConfirmAck,
    BulkPull,
    BulkPush,
    FrontierReq,
    NodeIdHandshake,
    BulkPullAccount,
    TelemetryReq,
    TelemetryAck,
    AscPullReq,
    AscPullAck,
}

/// Why a received message was refused.
#[derive(Clone, Debug, PartialEq, Eq)]
pub enum ParseMessageError {
    Other(String),
    InsufficientWork,
    InvalidHeader,
    InvalidMessageType,
    InvalidMessage(MessageType),
    InvalidNetwork,
    OutdatedVersion,
    DuplicatePublishMessage,
    DuplicateConfirmAckMessage,
    MessageSizeTooBig,
    Stopped,
}

/// Only published blocks and votes go through the duplicate filter.
pub open spec fn spec_filters_duplicates(t: MessageType) -> bool {
    t == MessageType::Publish || t == MessageType::ConfirmAck
}

pub fn filters_duplicates(t: MessageType) -> (r: bool)
    ensures
        r == spec_filters_duplicates(t),
{
    match t {
        MessageType::Publish | MessageType::ConfirmAck => true,
        _ => false,
    }
}

/// The outcome of the duplicate filter for a message of type `t`: `applied` is the
/// filter's digest of the payload and whether it was seen before, for the types that go
/// through the filter. A repeat is refused; otherwise the digest (zero when unfiltered)
/// goes on with the message.
pub fn filter_duplicate_messages(t: MessageType, applied: Option<(u128, bool)>) -> (r: Result<u128, ParseMessageError>)
    requires
        spec_filters_duplicates(t) <==> applied is Some,
    ensures
        match applied {
            None => r == Ok::<u128, ParseMessageError>(0),
            Some((digest, existed)) => if !existed {
                r == Ok::<u128, ParseMessageError>(digest)
            } else if t == MessageType::ConfirmAck {
                r matches Err(ParseMessageError::DuplicateConfirmAckMessage)
            } else {
                r matches Err(ParseMessageError::DuplicatePublishMessage)
            },
        },
        duplicate_filter_outcome(t, applied, r),
{
    match applied {
        None => Ok(0),
        Some((digest, existed)) => {
            if !existed {
                Ok(digest)
            } else if t == MessageType::ConfirmAck {
                Err(ParseMessageError::DuplicateConfirmAckMessage)
            } else {
                Err(ParseMessageError::DuplicatePublishMessage)
            }
        },
    }
}

/// What the duplicate filter step gives for a message of type `t` (see
/// `filter_duplicate_messages`).
pub open spec fn duplicate_filter_outcome(t: MessageType, applied: Option<(u128, bool)>, r: Result<u128, ParseMessageError>) -> bool {
    match applied {
        None => r == Ok::<u128, ParseMessageError>(0),
        Some((digest, existed)) => if !existed {
            r == Ok::<u128, ParseMessageError>(digest)
        } else if t == MessageType::ConfirmAck {
            r matches Err(ParseMessageError::DuplicateConfirmAckMessage)
        } else {
            r matches Err(ParseMessageError::DuplicatePublishMessage)
        },
    }
}

/// Exactly published blocks and votes go through the duplicate filter. A message of any
/// other type passes the filter step with digest 0 however often it repeats; a repeated
/// published block or vote is refused as a duplicate of its kind, and a new one passes
/// with its digest.
pub proof fn lemma_only_blocks_and_votes_are_deduplicated(
    t: MessageType,
    applied: Option<(u128, bool)>,
    r: Result<u128, ParseMessageError>,
)
    requires
        spec_filters_duplicates(t) <==> applied is Some,
        duplicate_filter_outcome(t, applied, r),
    ensures
        t != MessageType::Publish && t != MessageType::ConfirmAck ==> r == Ok::<u128, ParseMessageError>(0),
        t == MessageType::Publish ==> applied is Some && match applied {
            Some((digest, existed)) => if existed {
                r == Err::<u128, ParseMessageError>(ParseMessageError::DuplicatePublishMessage)
            } else {
                r == Ok::<u128, ParseMessageError>(digest)
            },
            None => false,
        },
        t == MessageType::ConfirmAck ==> applied is Some && match applied {
            Some((digest, existed)) => if existed {
                r == Err::<u128, ParseMessageError>(ParseMessageError::DuplicateConfirmAckMessage)
            } else {
                r == Ok::<u128, ParseMessageError>(digest)
            },
            None => false,
        },
{
}

/// A published block whose work falls short of the threshold is refused; other messages
/// pass. `work_valid` is the work check of the published block.
pub fn validate_work(t: MessageType, work_valid: bool) -> (r: Result<(), ParseMessageError>)
    ensures
        (t == MessageType::Publish && !work_valid) ==> r matches Err(ParseMessageError::InsufficientWork),
        !(t == MessageType::Publish && !work_valid) ==> r is Ok,
{
    if t == MessageType::Publish && !work_valid {
        Err(ParseMessageError::InsufficientWork)
    } else {
        Ok(())
    }
}

/// The statistics detail a refused message is counted under.
#[derive(Clone, Copy, Debug, PartialEq, Eq)]
pub enum ParseErrorDetail {
    All,
    InsufficientWork,
    InvalidHeader,
    InvalidMessageType,
    InvalidKeepaliveMessage,
    InvalidPublishMessage,
    InvalidConfirmReqMessage,
    InvalidConfirmAckMessage,
    InvalidNodeIdHandshakeMessage,
    InvalidTelemetryReqMessage,
    InvalidTelemetryAckMessage,
    InvalidBulkPullMessage,
    InvalidBulkPullAccountMessage,
    InvalidFrontierReqMessage,
    InvalidAscPullReqMessage,
    InvalidAscPullAckMessage,
    InvalidNetwork,
    OutdatedVersion,
    DuplicatePublishMessage,
    DuplicateConfirmAckMessage,
    MessageSizeTooBig,
}

/// The detail of a refusal: the invalid message's type where it has its own detail
/// (bulk push and the non-types count as an invalid message type), the refusal itself
/// otherwise, and the catch-all for other errors and a stopped node.
pub open spec fn spec_parse_error_detail(e: ParseMessageError) -> ParseErrorDetail {
    match e {
        ParseMessageError::Other(_) | ParseMessageError::Stopped => ParseErrorDetail::All,
        ParseMessageError::InsufficientWork => ParseErrorDetail::InsufficientWork,
        ParseMessageError::InvalidHeader => ParseErrorDetail::InvalidHeader,
        ParseMessageError::InvalidMessageType => ParseErrorDetail::InvalidMessageType,
        ParseMessageError::InvalidMessage(t) => match t {
            MessageType::Keepalive => ParseErrorDetail::InvalidKeepaliveMessage,
            MessageType::Publish => ParseErrorDetail::InvalidPublishMessage,
            MessageType::ConfirmReq => ParseErrorDetail::InvalidConfirmReqMessage,
            MessageType::ConfirmAck => ParseErrorDetail::InvalidConfirmAckMessage,
            MessageType::NodeIdHandshake => ParseErrorDetail::InvalidNodeIdHandshakeMessage,
            MessageType::TelemetryReq => ParseErrorDetail::InvalidTelemetryReqMessage,
            MessageType::TelemetryAck => ParseErrorDetail::InvalidTelemetryAckMessage,
            MessageType::BulkPull => ParseErrorDetail::InvalidBulkPullMessage,
            MessageType::BulkPullAccount => ParseErrorDetail::InvalidBulkPullAccountMessage,
            MessageType::FrontierReq => ParseErrorDetail::InvalidFrontierReqMessage,
            MessageType::AscPullReq => ParseErrorDetail::InvalidAscPullReqMessage,
            MessageType::AscPullAck => ParseErrorDetail::InvalidAscPullAckMessage,
            MessageType::BulkPush | MessageType::Invalid | MessageType::NotAType => ParseErrorDetail::InvalidMessageType,
        },
        ParseMessageError::InvalidNetwork => ParseErrorDetail::InvalidNetwork,
        ParseMessageError::OutdatedVersion => ParseErrorDetail::OutdatedVersion,
        ParseMessageError::DuplicatePublishMessage => ParseErrorDetail::DuplicatePublishMessage,
        ParseMessageError::DuplicateConfirmAckMessage => ParseErrorDetail::DuplicateConfirmAckMessage,
        ParseMessageError::MessageSizeTooBig => ParseErrorDetail::MessageSizeTooBig,
    }
}

pub fn parse_error_detail(e: &ParseMessageError) -> (r: ParseErrorDetail)
    ensures
        r == spec_parse_error_detail(*e),
{
    match e {
        ParseMessageError::Other(_) | ParseMessageError::Stopped => ParseErrorDetail::All,
        ParseMessageError::InsufficientWork => ParseErrorDetail::InsufficientWork,
        ParseMessageError::InvalidHeader => ParseErrorDetail::InvalidHeader,
        ParseMessageError::InvalidMessageType => ParseErrorDetail::InvalidMessageType,
        ParseMessageError::InvalidMessage(t) => match t {
            MessageType::Keepalive => ParseErrorDetail::InvalidKeepaliveMessage,
            MessageType::Publish => ParseErrorDetail::InvalidPublishMessage,
            MessageType::ConfirmReq => ParseErrorDetail::InvalidConfirmReqMessage,
            MessageType::ConfirmAck => ParseErrorDetail::InvalidConfirmAckMessage,
            MessageType::NodeIdHandshake => ParseErrorDetail::InvalidNodeIdHandshakeMessage,
            MessageType::TelemetryReq => ParseErrorDetail::InvalidTelemetryReqMessage,
            MessageType::TelemetryAck => ParseErrorDetail::InvalidTelemetryAckMessage,
            MessageType::BulkPull => ParseErrorDetail::InvalidBulkPullMessage,
            MessageType::BulkPullAccount => ParseErrorDetail::InvalidBulkPullAccountMessage,
            MessageType::FrontierReq => ParseErrorDetail::InvalidFrontierReqMessage,
            MessageType::AscPullReq => ParseErrorDetail::InvalidAscPullReqMessage,
            MessageType::AscPullAck => ParseErrorDetail::InvalidAscPullAckMessage,
            MessageType::BulkPush | MessageType::Invalid | MessageType::NotAType => ParseErrorDetail::InvalidMessageType,
        },
        ParseMessageError::InvalidNetwork => ParseErrorDetail::InvalidNetwork,
        ParseMessageError::OutdatedVersion => ParseErrorDetail::OutdatedVersion,
        ParseMessageError::DuplicatePublishMessage => ParseErrorDetail::DuplicatePublishMessage,
        ParseMessageError::DuplicateConfirmAckMessage => ParseErrorDetail::DuplicateConfirmAckMessage,
        ParseMessageError::MessageSizeTooBig => ParseErrorDetail::MessageSizeTooBig,
    }
}

} // verus!
