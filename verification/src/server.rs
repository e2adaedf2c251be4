//! The rules of the connection dispatcher: the address that it listens on,
//! and the state machine that turns the outcome of each attempt to accept a
//! connection into what is done next. The sockets and the loop live outside
//! this library.

use vstd::prelude::*;
use crate::pool::ConfigurationError;
use crate::text::{decimal, push_decimal};

verus! {

/// The largest port number.
pub const MAX_PORT: i32 = 65535;

/// Whether a host and a port name an address to listen on: the host is not
/// empty and the port lies between 0 and `MAX_PORT`.
pub open spec fn is_bind_address(host: Seq<char>, port: int) -> bool {
    host.len() > 0 && 0 <= port <= MAX_PORT
}

/// The address in the form that a listener is bound to: the host, a colon,
/// the port.
pub open spec fn bind_address_text(host: Seq<char>, port: int) -> Seq<char> {
    host + seq![':'] + decimal(port as nat)
}

/// The address to listen on, or the reason why there is none.
pub fn bind_address(host: &str, port: i32) -> (res: Result<String, ConfigurationError>)
    ensures
        is_bind_address(host@, port as int) ==> res is Ok && res->Ok_0@ == bind_address_text(
            host@,
            port as int,
        ),
        !is_bind_address(host@, port as int) ==> res == Err::<String, ConfigurationError>(
            ConfigurationError::InvalidBindAddress,
        ),
{
    if host.is_empty() || port < 0 || port > MAX_PORT {
        return Err(ConfigurationError::InvalidBindAddress);
    }
    let mut address = String::from_str(host);
    address.push(':');
    push_decimal(&mut address, port as u64);
    Ok(address)
}

/// Where the dispatcher stands.
#[derive(Debug, Clone, Copy, PartialEq, Eq, Structural)]
pub enum ServerState {
    /// Bound, not yet accepting.
    Listening,
    /// About to look at the shutdown flag and to try to accept.
    Accepting,
    /// Handing an accepted connection to the pool.
    Dispatching,
    /// Waiting for the pool to finish the jobs it has.
    Draining,
    /// Done.
    Stopped,
}

/// What the dispatcher is told.
#[derive(Debug, Clone, Copy, PartialEq, Eq, Structural)]
pub enum ServerEvent {
    /// The pool is up and the listener does not block.
    Started,
    /// The shutdown flag is set.
    ShutdownRequested,
    /// A connection was accepted.
    Accepted,
    /// No connection is waiting.
    WouldBlock,
    /// Accepting failed for another reason.
    AcceptFailed,
    /// The job for the accepted connection is in the queue.
    Submitted,
    /// The pool has shut down: every worker has ended.
    Drained,
}

/// What the dispatcher does next.
#[derive(Debug, Clone, Copy, PartialEq, Eq, Structural)]
pub enum ServerAction {
    /// Look at the shutdown flag; if it is not set, try to accept.
    Poll,
    /// Submit one job for the accepted connection.
    Submit,
    /// Report the failure, then poll again.
    Report,
    /// Shut the pool down and wait for it.
    Drain,
    /// Leave the loop.
    Halt,
    /// The event does not belong to the state: nothing is done.
    Ignore,
}

/// The state and the action that follow an event.
pub open spec fn next_step(state: ServerState, event: ServerEvent) -> (ServerState, ServerAction) {
    match (state, event) {
        (ServerState::Listening, ServerEvent::Started) => (ServerState::Accepting, ServerAction::Poll),
        (ServerState::Accepting, ServerEvent::ShutdownRequested) => (
            ServerState::Draining,
            ServerAction::Drain,
        ),
        (ServerState::Accepting, ServerEvent::Accepted) => (
            ServerState::Dispatching,
            ServerAction::Submit,
        ),
        (ServerState::Accepting, ServerEvent::WouldBlock) => (
            ServerState::Accepting,
            ServerAction::Poll,
        ),
        (ServerState::Accepting, ServerEvent::AcceptFailed) => (
            ServerState::Accepting,
            ServerAction::Report,
        ),
        (ServerState::Dispatching, ServerEvent::Submitted) => (
            ServerState::Accepting,
            ServerAction::Poll,
        ),
        (ServerState::Draining, ServerEvent::Drained) => (ServerState::Stopped, ServerAction::Halt),
        _ => (state, ServerAction::Ignore),
    }
}

/// Decides what the dispatcher does after an event.
pub fn server_step(state: ServerState, event: ServerEvent) -> (step: (ServerState, ServerAction))
    ensures
        step == next_step(state, event),
{
    match (state, event) {
        (ServerState::Listening, ServerEvent::Started) => (ServerState::Accepting, ServerAction::Poll),
        (ServerState::Accepting, ServerEvent::ShutdownRequested) => (
            ServerState::Draining,
            ServerAction::Drain,
        ),
        (ServerState::Accepting, ServerEvent::Accepted) => (
            ServerState::Dispatching,
            ServerAction::Submit,
        ),
        (ServerState::Accepting, ServerEvent::WouldBlock) => (
            ServerState::Accepting,
            ServerAction::Poll,
        ),
        (ServerState::Accepting, ServerEvent::AcceptFailed) => (
            ServerState::Accepting,
            ServerAction::Report,
        ),
        (ServerState::Dispatching, ServerEvent::Submitted) => (
            ServerState::Accepting,
            ServerAction::Poll,
        ),
        (ServerState::Draining, ServerEvent::Drained) => (ServerState::Stopped, ServerAction::Halt),
        _ => (state, ServerAction::Ignore),
    }
}

/// The event that one look at the shutdown flag and one attempt to accept
/// amount to. The flag comes first: once it is set no connection is taken.
pub open spec fn poll_event(shutdown_requested: bool, would_block: bool, failed: bool) -> ServerEvent {
    if shutdown_requested {
        ServerEvent::ShutdownRequested
    } else if would_block {
        ServerEvent::WouldBlock
    } else if failed {
        ServerEvent::AcceptFailed
    } else {
        ServerEvent::Accepted
    }
}

/// Names the event that one look at the shutdown flag and one attempt to
/// accept amount to.
pub fn classify_poll(shutdown_requested: bool, would_block: bool, failed: bool) -> (event: ServerEvent)
    ensures
        event == poll_event(shutdown_requested, would_block, failed),
{
    if shutdown_requested {
        ServerEvent::ShutdownRequested
    } else if would_block {
        ServerEvent::WouldBlock
    } else if failed {
        ServerEvent::AcceptFailed
    } else {
        ServerEvent::Accepted
    }
}

/// A job is submitted for a connection only on the way from `Accepting`
/// through `Accepted`, and the machine then waits for `Submitted` before it
/// polls again: each accepted connection gives exactly one job. Once the
/// machine drains or has stopped, no event makes it submit.
pub proof fn lemma_one_job_per_connection(state: ServerState, event: ServerEvent)
    ensures
        next_step(state, event).1 == ServerAction::Submit <==> state == ServerState::Accepting
            && event == ServerEvent::Accepted,
        next_step(state, event).1 == ServerAction::Submit ==> next_step(state, event).0
            == ServerState::Dispatching,
        state == ServerState::Dispatching ==> next_step(state, event).1 != ServerAction::Submit,
        state == ServerState::Draining || state == ServerState::Stopped ==> next_step(
            state,
            event,
        ).1 != ServerAction::Submit && next_step(state, event).1 != ServerAction::Poll,
        next_step(state, event).0 == ServerState::Stopped ==> state == ServerState::Stopped || (
        state == ServerState::Draining && event == ServerEvent::Drained),
{
}

} // verus!
