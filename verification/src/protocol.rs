//! The closed command protocol between the service facade and its shards,
//! and the dispatch step a shard's loop applies to each command.
//!
//! Commands are built only by the facade, so a shard never sees a malformed
//! one; transport failures are reported to the caller as typed errors and
//! never crash a shard.

use crate::gateway::{spec_add, spec_get, spec_set, Gateway};
use vstd::prelude::*;

verus! {

/// The failures a caller of the service can observe.
#[derive(Clone, Copy, Debug, PartialEq, Eq, Structural)]
pub enum ServiceError {
    /// The service was asked for an invalid bucket count; fatal at
    /// construction, the service never starts with it.
    RoutingError,
    /// A shard's bounded command queue is full: transient backpressure,
    /// the caller may retry.
    QueueFull,
    /// A shard's command queue was closed: the command was definitively
    /// not delivered.
    QueueClosed,
    /// The shard never produced a reply to a read; distinct from a
    /// legitimate `false` answer.
    ReplyAbandoned,
}

/// A command for one shard. Reads are paired with a single-use reply
/// conduit by the transport; the command itself carries only the request.
#[derive(Debug)]
pub enum Command {
    /// Ensure the shard knows the id, default inactive.
    AddClient { client_id: String },
    /// Set a known id's active flag; ignore an unknown id.
    SetIsActive { client_id: String, is_active: bool },
    /// Report the id's active flag, `false` if unknown.
    GetIsActive { client_id: String },
}

impl Command {
    /// The client id a command is about, which alone decides its shard.
    pub open spec fn spec_client_id(&self) -> Seq<char> {
        match self {
            Command::AddClient { client_id } => client_id@,
            Command::SetIsActive { client_id, .. } => client_id@,
            Command::GetIsActive { client_id } => client_id@,
        }
    }

    /// The id the command is about, as a borrowed key.
    pub fn client_id(&self) -> (id: &str)
        ensures
            id@ == self.spec_client_id(),
    {
        match self {
            Command::AddClient { client_id } => client_id.as_str(),
            Command::SetIsActive { client_id, .. } => client_id.as_str(),
            Command::GetIsActive { client_id } => client_id.as_str(),
        }
    }
}

/// The shard map after a command is applied.
pub open spec fn apply_spec(m: Map<Seq<char>, bool>, c: &Command) -> Map<Seq<char>, bool> {
    match c {
        Command::AddClient { client_id } => spec_add(m, client_id@),
        Command::SetIsActive { client_id, is_active } => spec_set(m, client_id@, *is_active),
        Command::GetIsActive { .. } => m,
    }
}

/// The reply a command produces: reads answer with the stored flag,
/// mutations answer nothing.
pub open spec fn reply_spec(m: Map<Seq<char>, bool>, c: &Command) -> Option<bool> {
    match c {
        Command::GetIsActive { client_id } => Some(spec_get(m, client_id@)),
        _ => None,
    }
}

/// One step of a shard's dispatch loop: applies a command to the shard's
/// state, in arrival order, and hands back the reply to send, if any.
pub fn apply_command(gateway: &mut Gateway, command: &Command) -> (reply: Option<bool>)
    requires
        old(gateway).wf(),
    ensures
        final(gateway).wf(),
        final(gateway)@ == apply_spec(old(gateway)@, command),
        reply == reply_spec(old(gateway)@, command),
{
    match command {
        Command::AddClient { client_id } => {
            gateway.add_client(client_id.as_str());
            None
        },
        Command::SetIsActive { client_id, is_active } => {
            gateway.set_is_active(client_id.as_str(), *is_active);
            None
        },
        Command::GetIsActive { client_id } => Some(gateway.get_is_active(client_id.as_str())),
    }
}

/// The facade's reading of a reply conduit's outcome: a missing reply is a
/// definite `ReplyAbandoned` failure, never silently a default flag.
pub fn reply_to_result(reply: Option<bool>) -> (r: Result<bool, ServiceError>)
    ensures
        match reply {
            Some(is_active) => r == Ok::<bool, ServiceError>(is_active),
            None => r == Err::<bool, ServiceError>(ServiceError::ReplyAbandoned),
        },
{
    match reply {
        Some(is_active) => Ok(is_active),
        None => Err(ServiceError::ReplyAbandoned),
    }
}

} // verus!
