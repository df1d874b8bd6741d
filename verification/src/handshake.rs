//! The node ID handshake on a new connection: which messages are accepted, when the
//! node answers, and what a handshake response leads to. Sending and signature checks
//! are done by the caller, which hands their outcomes back.

use vstd::prelude::*;
use crate::numbers::{BlockHash, PublicKey};

verus! {

/// Where a connection stands after a handshake message.
#[derive(Clone, Copy, Debug, PartialEq, Eq, Structural)]
pub enum HandshakeStatus {
    Abort,
    /// The peer is this node itself.
    AbortOwnNodeId,
    /// The handshake goes on.
    Handshake,
    /// The peer proved its node ID: the connection switches to realtime traffic.
    Realtime(PublicKey),
    Bootstrap,
}

/// Why a handshake response was refused.
#[derive(Clone, Copy, Debug, PartialEq, Eq, Structural)]
pub enum HandshakeResponseError {
    OwnNodeId,
    InvalidGenesis,
    MissingCookie,
    InvalidSignature,
}

/// What the node does first with a handshake message.
#[derive(Clone, Copy, Debug, PartialEq, Eq, Structural)]
pub enum HandshakeStart {
    /// Refuse the message and close the connection.
    Abort,
    /// Answer the peer's query, then look at its response if it sent one.
    Respond,
    /// Check the peer's response.
    CheckResponse,
}

/// What a handshake response shows, as plain values.
#[derive(Clone, Copy, Debug, PartialEq, Eq)]
pub struct HandshakeResponseInfo {
    /// The node ID the peer claims.
    pub node_id: PublicKey,
    /// The genesis block the peer names (version 2 responses only).
    pub genesis: Option<BlockHash>,
}

/// The checks on a handshake response, in order: not this node's own ID, the same
/// genesis block when one is named, a cookie was sent to the peer, and the signature over
/// that cookie is valid.
pub open spec fn response_check(
    response: HandshakeResponseInfo,
    own_node_id: PublicKey,
    genesis_hash: BlockHash,
    cookie_sent: bool,
    signature_valid: bool,
) -> Result<(), HandshakeResponseError> {
    if response.node_id == own_node_id {
        Err(HandshakeResponseError::OwnNodeId)
    } else if response.genesis matches Some(g) && g != genesis_hash {
        Err(HandshakeResponseError::InvalidGenesis)
    } else if !cookie_sent {
        Err(HandshakeResponseError::MissingCookie)
    } else if !signature_valid {
        Err(HandshakeResponseError::InvalidSignature)
    } else {
        Ok(())
    }
}

/// Checks a handshake response. `cookie_sent` says whether a cookie was sent to the peer,
/// `signature_valid` whether the response's signature over it checks out.
pub fn verify_response(
    response: &HandshakeResponseInfo,
    own_node_id: &PublicKey,
    genesis_hash: &BlockHash,
    cookie_sent: bool,
    signature_valid: bool,
) -> (r: Result<(), HandshakeResponseError>)
    ensures
        r == response_check(*response, *own_node_id, *genesis_hash, cookie_sent, signature_valid),
{
    if response.node_id.equals(own_node_id) {
        return Err(HandshakeResponseError::OwnNodeId);
    }
    if let Some(g) = response.genesis {
        if !g.equals(genesis_hash) {
            return Err(HandshakeResponseError::InvalidGenesis);
        }
    }
    if !cookie_sent {
        return Err(HandshakeResponseError::MissingCookie);
    }
    if !signature_valid {
        return Err(HandshakeResponseError::InvalidSignature);
    }
    Ok(())
}

/// Where the connection goes after checking the response of the peer with `node_id`.
pub fn response_status(node_id: &PublicKey, check: &Result<(), HandshakeResponseError>) -> (r: HandshakeStatus)
    ensures
        r == (match *check {
            Ok(()) => HandshakeStatus::Realtime(*node_id),
            Err(HandshakeResponseError::OwnNodeId) => HandshakeStatus::AbortOwnNodeId,
            Err(_) => HandshakeStatus::Abort,
        }),
{
    match check {
        Ok(()) => HandshakeStatus::Realtime(*node_id),
        Err(HandshakeResponseError::OwnNodeId) => HandshakeStatus::AbortOwnNodeId,
        Err(_) => HandshakeStatus::Abort,
    }
}

/// Whether the handshake answer says it speaks version 2: when it holds a query of its
/// own, or a version 2 response.
pub fn answer_is_v2(has_own_query: bool, response_is_v2: bool) -> (r: bool)
    ensures
        r == (has_own_query || response_is_v2),
{
    has_own_query || response_is_v2
}

/// The first decision on a handshake message holding a query and/or a response.
pub open spec fn start_of(received: bool, has_query: bool, has_response: bool) -> HandshakeStart {
    if !has_query && !has_response {
        HandshakeStart::Abort
    } else if has_query && received {
        HandshakeStart::Abort
    } else if has_query {
        HandshakeStart::Respond
    } else {
        HandshakeStart::CheckResponse
    }
}

/// One connection's handshake.
pub struct HandshakeProcess {
    handshake_received: bool,
}

impl HandshakeProcess {
    /// Whether a handshake message was accepted on this connection.
    pub closed spec fn received(&self) -> bool { self.handshake_received }

    pub fn new() -> (r: Self)
        ensures
            !r.received(),
    {
        HandshakeProcess { handshake_received: false }
    }

    /// Takes in a handshake message: one with neither a query nor a response is refused,
    /// as is a second query on the same connection; otherwise the message counts as
    /// received and the node answers the query, or checks the response.
    pub fn start(&mut self, has_query: bool, has_response: bool) -> (r: HandshakeStart)
        ensures
            r == start_of(old(self).received(), has_query, has_response),
            final(self).received() == (old(self).received() || r != HandshakeStart::Abort),
    {
        if !has_query && !has_response {
            return HandshakeStart::Abort;
        }
        if has_query && self.handshake_received {
            return HandshakeStart::Abort;
        }
        self.handshake_received = true;
        if has_query { HandshakeStart::Respond } else { HandshakeStart::CheckResponse }
    }

    /// After answering a query: a failed send closes the connection; otherwise the
    /// response the peer sent along is checked, or the handshake goes on.
    pub fn after_answer(&self, sent: bool, has_response: bool) -> (r: Option<HandshakeStatus>)
        ensures
            r == (if !sent {
                Some(HandshakeStatus::Abort)
            } else if has_response {
                None::<HandshakeStatus>
            } else {
                Some(HandshakeStatus::Handshake)
            }),
    {
        if !sent {
            Some(HandshakeStatus::Abort)
        } else if has_response {
            None
        } else {
            Some(HandshakeStatus::Handshake)
        }
    }
}

/// A connection answers at most one handshake query: once a message was accepted
/// (`start` then records it as received), every later message with a query is refused.
pub proof fn lemma_one_query_per_connection(has_response: bool)
    ensures
        start_of(true, true, has_response) == HandshakeStart::Abort,
{
}

} // verus!
