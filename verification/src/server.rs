//! The control socket server's decisions.
//!
//! The accept loop itself lives with the transport: it receives one message
//! per transaction and suspends in between. What the server decides about
//! each transaction — reply and forward, or log and carry on — and how it
//! prepares its endpoint for binding, is here, so that the loop around it is
//! nothing but transport calls.
use vstd::prelude::*;

use crate::codec::{decode, match_at, spec_decode};
use crate::event::{EventModel, IPCEvent};

verus! {

/// A transport fault, at binding or connecting time.
#[derive(Clone, Copy, PartialEq, Eq, Structural, Debug)]
pub enum TransportError {
    /// The endpoint's filesystem artifact does not exist, so no server is
    /// listening there.
    MissingEndpoint,
}

/// What one transaction handed the server: a transport-level receive failure,
/// a message that was not valid text, or the payload text itself.
pub enum RecvOutcome {
    TransportFailure,
    InvalidText,
    Payload { text: String },
}

/// The mathematical model of a `RecvOutcome`.
pub enum RecvOutcomeModel {
    TransportFailure,
    InvalidText,
    Payload { text: Seq<char> },
}

impl View for RecvOutcome {
    type V = RecvOutcomeModel;

    open spec fn view(&self) -> RecvOutcomeModel {
        match self {
            RecvOutcome::TransportFailure => RecvOutcomeModel::TransportFailure,
            RecvOutcome::InvalidText => RecvOutcomeModel::InvalidText,
            RecvOutcome::Payload { text } => RecvOutcomeModel::Payload { text: text@ },
        }
    }
}

/// What the server does with one transaction.
pub enum ServerStep {
    /// Log and take the next transaction. No reply is owed: the failure came
    /// before the point where one would be sent, and the sender must apply
    /// its own timeout.
    Continue,
    /// Reply to release the sender, then forward the event to the bridge, and
    /// take the next transaction.
    Accept { event: IPCEvent },
}

/// The mathematical model of a `ServerStep`.
pub enum ServerStepModel {
    Continue,
    Accept { event: EventModel },
}

impl View for ServerStep {
    type V = ServerStepModel;

    open spec fn view(&self) -> ServerStepModel {
        match self {
            ServerStep::Continue => ServerStepModel::Continue,
            ServerStep::Accept { event } => ServerStepModel::Accept { event: event@ },
        }
    }
}

/// The server's decision on one transaction: accept exactly the payloads that
/// decode, carry on past everything else. The decision depends on that one
/// transaction alone, so no failure can affect a later transaction.
pub open spec fn spec_server_step(o: RecvOutcomeModel) -> ServerStepModel {
    match o {
        RecvOutcomeModel::Payload { text } => match spec_decode(text) {
            Ok(e) => ServerStepModel::Accept { event: e },
            Err(_) => ServerStepModel::Continue,
        },
        _ => ServerStepModel::Continue,
    }
}

/// Decides one transaction. Total: every outcome, however malformed, yields a
/// decision, so the accept loop around this never ends on a bad transaction.
pub fn server_step(o: RecvOutcome) -> (d: ServerStep)
    ensures
        d@ == spec_server_step(o@),
{
    match o {
        RecvOutcome::TransportFailure => ServerStep::Continue,
        RecvOutcome::InvalidText => ServerStep::Continue,
        RecvOutcome::Payload { text } => match decode(text.as_str()) {
            Ok(event) => ServerStep::Accept { event },
            Err(_) => ServerStep::Continue,
        },
    }
}

/// Resilience to malformed input: a payload that does not decode makes the
/// server carry on, never stop and never guess an event.
pub proof fn lemma_malformed_continues(text: Seq<char>)
    requires
        spec_decode(text) is Err,
    ensures
        spec_server_step(RecvOutcomeModel::Payload { text }) == ServerStepModel::Continue,
{
}

/// The scheme prefix that marks an endpoint address as backed by a
/// filesystem path: `ipc://`.
pub open spec fn ipc_scheme() -> Seq<char> {
    seq!['i', 'p', 'c', ':', '/', '/']
}

/// Whether an endpoint address is backed by a filesystem path.
pub open spec fn is_path_backed(addr: Seq<char>) -> bool {
    addr.len() >= 6 && addr.subrange(0, 6) == ipc_scheme()
}

/// The filesystem path behind a path-backed endpoint address.
pub open spec fn endpoint_path(addr: Seq<char>) -> Seq<char> {
    addr.skip(6)
}

/// The filesystem path behind the address, if the address is path-backed.
pub fn endpoint_file_path(addr: &str) -> (r: Option<String>)
    ensures
        match r {
            Some(p) => is_path_backed(addr@) && p@ == endpoint_path(addr@),
            None => !is_path_backed(addr@),
        },
{
    proof {
        reveal_strlit("ipc://");
        assert("ipc://"@ =~= ipc_scheme());
    }
    let len = addr.unicode_len();
    if match_at(addr, 0, "ipc://") {
        let path = addr.substring_char(6, len);
        proof {
            assert(path@ =~= endpoint_path(addr@));
        }
        Some(String::from_str(path))
    } else {
        None
    }
}

/// How the server prepares its endpoint before binding.
pub struct BindPlan {
    /// The stale artifact to remove first, where the address is path-backed:
    /// a previous run's socket object would otherwise make the bind fail.
    pub unlink_path: Option<String>,
    /// The address to bind, exactly as configured.
    pub address: String,
}

/// Stale-endpoint recovery: the plan for binding names, for every path-backed
/// address, exactly the filesystem artifact a previous run may have left, to
/// be removed before the bind so that a restart binds cleanly.
pub fn bind_preparation(addr: &str) -> (plan: BindPlan)
    ensures
        plan.address@ == addr@,
        match plan.unlink_path {
            Some(p) => is_path_backed(addr@) && p@ == endpoint_path(addr@),
            None => !is_path_backed(addr@),
        },
{
    BindPlan { unlink_path: endpoint_file_path(addr), address: String::from_str(addr) }
}

/// Whether the sender tool may connect: a path-backed endpoint whose artifact
/// is missing has no listening server, and the sender fails fast instead.
/// `endpoint_exists` reports whether the filesystem object behind the address
/// is present; it is ignored for addresses that are not path-backed.
pub fn client_connect_allowed(addr: &str, endpoint_exists: bool) -> (r: Result<
    (),
    TransportError,
>)
    ensures
        r is Ok <==> (!is_path_backed(addr@) || endpoint_exists),
        r is Err ==> r == Err::<(), TransportError>(TransportError::MissingEndpoint),
{
    match endpoint_file_path(addr) {
        Some(_) => {
            if endpoint_exists {
                Ok(())
            } else {
                Err(TransportError::MissingEndpoint)
            }
        },
        None => Ok(()),
    }
}

} // verus!
