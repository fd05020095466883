//! The acceptor's decisions: tokens for new connections, and what follows a read.
use mio::Token;
use vstd::prelude::*;
use crate::request::{stage_complete, ParsingStage, WSGIRequest, parsed};

verus! {

#[verifier::external_type_specification]
pub struct ExToken(Token);

/// The token number of the listening socket.
pub const SERVER: usize = 0;

/// Hands out the current token and moves on to the next one.
pub fn next(current: &mut Token) -> (r: Token)
    requires
        old(current).0 < usize::MAX,
    ensures
        r.0 == old(current).0,
        final(current).0 == old(current).0 + 1,
{
    let next = current.0;
    current.0 = current.0 + 1;
    Token(next)
}

/// What the acceptor does with a request after reading from its connection.
#[derive(Clone, Copy, Debug, PartialEq, Eq, Structural)]
pub enum ReadAction {
    /// The request is complete: it goes to a worker with its connection.
    Dispatch,
    /// The client waits for `100 Continue` before it sends the body.
    SendContinue,
    /// More bytes are needed.
    Wait,
    /// The connection ended in the middle of a request: the request is dropped.
    Abort,
}

/// Parses what has arrived and decides what the acceptor does next; a connection that
/// ended while the request, once parsed, is still begun but not complete is an error.
pub fn request_action(req: &mut WSGIRequest, connection_closed: bool) -> (r: ReadAction)
    requires
        old(req).wf(),
    ensures
        final(req)@ == parsed(old(req)@),
        final(req).wf(),
        final(req).peer_addr == old(req).peer_addr,
        r == if stage_complete(final(req).stage) {
            ReadAction::Dispatch
        } else if connection_closed && final(req).data@.len() > 0 {
            ReadAction::Abort
        } else if final(req).stage == ParsingStage::Expect100Continue {
            ReadAction::SendContinue
        } else {
            ReadAction::Wait
        },
{
    if req.parse_data() {
        ReadAction::Dispatch
    } else if connection_closed && req.data.len() > 0 {
        ReadAction::Abort
    } else if req.stage.expect_100_continue() {
        ReadAction::SendContinue
    } else {
        ReadAction::Wait
    }
}

} // verus!
