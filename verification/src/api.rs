//! Connection-level API: the per-connection protocol state machine,
//! the client session state, and the factory surface through which a
//! server hands one handler implementation per capability to every
//! connection task.

use vstd::prelude::*;
use std::sync::Arc;
use crate::store::MemPortalStore;

verus! {

pub const DEFAULT_NAME: &'static str = "POSTGRESQL_DEFAULT_NAME";

pub const METADATA_USER: &'static str = "user";

pub const METADATA_DATABASE: &'static str = "database";

/// Protocol phase of one client connection.
#[derive(Debug, Clone, Copy, PartialEq, Eq, Structural)]
pub enum PgWireConnectionState {
    AwaitingSslRequest,
    AwaitingStartup,
    AuthenticationInProgress,
    ReadyForQuery,
    QueryInProgress,
    CopyInProgress(bool),
    AwaitingSync,
}

impl Default for PgWireConnectionState {
    /// A fresh connection first answers the client's SSL request.
    fn default() -> (s: PgWireConnectionState)
        ensures
            s == PgWireConnectionState::AwaitingSslRequest,
    {
        PgWireConnectionState::AwaitingSslRequest
    }
}

/// The kind of client message the dispatcher routes.
#[derive(Debug, Clone, Copy, PartialEq, Eq, Structural)]
pub enum ClientMessageKind {
    SslRequest,
    Startup,
    PasswordMessage,
    Query,
    Parse,
    Bind,
    DescribeStatement,
    DescribePortal,
    Execute,
    Close,
    Sync,
    Terminate,
    CopyData,
    CopyDone,
}

/// Where the dispatcher sends a message, or what it does instead.
#[derive(Debug, Clone, Copy, PartialEq, Eq, Structural)]
pub enum DispatchAction {
    RouteToStartup,
    RouteToSimple,
    RouteToExtended,
    RouteToCopy,
    Ignore,
    Disconnect,
    ProtocolError,
}

/// The dispatch rule: startup messages drive the three startup phases;
/// in the ready phase a simple query routes to the simple handler and
/// the extended-protocol messages route to the extended handler, both
/// entering the query-in-progress phase (a sync alone stays ready);
/// while awaiting sync every message except sync and terminate is
/// ignored; terminate always disconnects; a message invalid for the
/// phase is a protocol violation that forces the awaiting-sync phase.
pub open spec fn spec_dispatch(
    state: PgWireConnectionState,
    msg: ClientMessageKind,
) -> (PgWireConnectionState, DispatchAction) {
    if msg == ClientMessageKind::Terminate {
        (state, DispatchAction::Disconnect)
    } else {
        match state {
            PgWireConnectionState::AwaitingSslRequest => if msg == ClientMessageKind::SslRequest {
                (PgWireConnectionState::AwaitingStartup, DispatchAction::RouteToStartup)
            } else {
                (PgWireConnectionState::AwaitingSync, DispatchAction::ProtocolError)
            },
            PgWireConnectionState::AwaitingStartup => if msg == ClientMessageKind::Startup {
                (PgWireConnectionState::AuthenticationInProgress, DispatchAction::RouteToStartup)
            } else {
                (PgWireConnectionState::AwaitingSync, DispatchAction::ProtocolError)
            },
            PgWireConnectionState::AuthenticationInProgress => if msg
                == ClientMessageKind::PasswordMessage {
                (PgWireConnectionState::AuthenticationInProgress, DispatchAction::RouteToStartup)
            } else {
                (PgWireConnectionState::AwaitingSync, DispatchAction::ProtocolError)
            },
            PgWireConnectionState::ReadyForQuery => match msg {
                ClientMessageKind::Query => (
                    PgWireConnectionState::QueryInProgress,
                    DispatchAction::RouteToSimple,
                ),
                ClientMessageKind::Parse | ClientMessageKind::Bind
                | ClientMessageKind::DescribeStatement | ClientMessageKind::DescribePortal
                | ClientMessageKind::Execute | ClientMessageKind::Close => (
                    PgWireConnectionState::QueryInProgress,
                    DispatchAction::RouteToExtended,
                ),
                ClientMessageKind::Sync => (
                    PgWireConnectionState::ReadyForQuery,
                    DispatchAction::RouteToExtended,
                ),
                _ => (PgWireConnectionState::AwaitingSync, DispatchAction::ProtocolError),
            },
            PgWireConnectionState::QueryInProgress => (
                PgWireConnectionState::QueryInProgress,
                DispatchAction::Ignore,
            ),
            PgWireConnectionState::CopyInProgress(b) => match msg {
                ClientMessageKind::CopyData => (
                    PgWireConnectionState::CopyInProgress(b),
                    DispatchAction::RouteToCopy,
                ),
                ClientMessageKind::CopyDone => (
                    PgWireConnectionState::ReadyForQuery,
                    DispatchAction::RouteToCopy,
                ),
                _ => (PgWireConnectionState::AwaitingSync, DispatchAction::ProtocolError),
            },
            PgWireConnectionState::AwaitingSync => if msg == ClientMessageKind::Sync {
                (PgWireConnectionState::ReadyForQuery, DispatchAction::RouteToExtended)
            } else {
                (PgWireConnectionState::AwaitingSync, DispatchAction::Ignore)
            },
        }
    }
}

/// Route one client message according to the connection's phase; see
/// [`spec_dispatch`] for the rule.
pub fn dispatch_message(state: PgWireConnectionState, msg: ClientMessageKind) -> (r: (
    PgWireConnectionState,
    DispatchAction,
))
    ensures
        r == spec_dispatch(state, msg),
        state == PgWireConnectionState::AwaitingSync && msg != ClientMessageKind::Sync && msg
            != ClientMessageKind::Terminate ==> r.1 == DispatchAction::Ignore,
{
    if msg == ClientMessageKind::Terminate {
        (state, DispatchAction::Disconnect)
    } else {
        match state {
            PgWireConnectionState::AwaitingSslRequest => if msg == ClientMessageKind::SslRequest {
                (PgWireConnectionState::AwaitingStartup, DispatchAction::RouteToStartup)
            } else {
                (PgWireConnectionState::AwaitingSync, DispatchAction::ProtocolError)
            },
            PgWireConnectionState::AwaitingStartup => if msg == ClientMessageKind::Startup {
                (PgWireConnectionState::AuthenticationInProgress, DispatchAction::RouteToStartup)
            } else {
                (PgWireConnectionState::AwaitingSync, DispatchAction::ProtocolError)
            },
            PgWireConnectionState::AuthenticationInProgress => if msg
                == ClientMessageKind::PasswordMessage {
                (PgWireConnectionState::AuthenticationInProgress, DispatchAction::RouteToStartup)
            } else {
                (PgWireConnectionState::AwaitingSync, DispatchAction::ProtocolError)
            },
            PgWireConnectionState::ReadyForQuery => match msg {
                ClientMessageKind::Query => (
                    PgWireConnectionState::QueryInProgress,
                    DispatchAction::RouteToSimple,
                ),
                ClientMessageKind::Parse | ClientMessageKind::Bind
                | ClientMessageKind::DescribeStatement | ClientMessageKind::DescribePortal
                | ClientMessageKind::Execute | ClientMessageKind::Close => (
                    PgWireConnectionState::QueryInProgress,
                    DispatchAction::RouteToExtended,
                ),
                ClientMessageKind::Sync => (
                    PgWireConnectionState::ReadyForQuery,
                    DispatchAction::RouteToExtended,
                ),
                _ => (PgWireConnectionState::AwaitingSync, DispatchAction::ProtocolError),
            },
            PgWireConnectionState::QueryInProgress => (
                PgWireConnectionState::QueryInProgress,
                DispatchAction::Ignore,
            ),
            PgWireConnectionState::CopyInProgress(b) => match msg {
                ClientMessageKind::CopyData => (
                    PgWireConnectionState::CopyInProgress(b),
                    DispatchAction::RouteToCopy,
                ),
                ClientMessageKind::CopyDone => (
                    PgWireConnectionState::ReadyForQuery,
                    DispatchAction::RouteToCopy,
                ),
                _ => (PgWireConnectionState::AwaitingSync, DispatchAction::ProtocolError),
            },
            PgWireConnectionState::AwaitingSync => if msg == ClientMessageKind::Sync {
                (PgWireConnectionState::ReadyForQuery, DispatchAction::RouteToExtended)
            } else {
                (PgWireConnectionState::AwaitingSync, DispatchAction::Ignore)
            },
        }
    }
}

/// Leave the query-in-progress phase: back to ready on success, or to
/// awaiting-sync on an error, where the connection stays until the
/// client resynchronizes.
pub fn on_query_complete(ok: bool) -> (s: PgWireConnectionState)
    ensures
        ok ==> s == PgWireConnectionState::ReadyForQuery,
        !ok ==> s == PgWireConnectionState::AwaitingSync,
{
    if ok {
        PgWireConnectionState::ReadyForQuery
    } else {
        PgWireConnectionState::AwaitingSync
    }
}

/// Leave the authentication phase: ready on success, disconnect is the
/// caller's duty on failure.
pub fn on_authentication_complete() -> (s: PgWireConnectionState)
    ensures
        s == PgWireConnectionState::ReadyForQuery,
{
    PgWireConnectionState::ReadyForQuery
}

/// A holder of the per-connection portal store.
pub trait ClientPortalStore {
    type PortalStore;

    fn portal_store(&self) -> &Self::PortalStore;
}

/// Per-connection mutable state: the protocol phase and the portal
/// store. Connection metadata and the socket live with the transport.
pub struct SessionState {
    pub state: PgWireConnectionState,
    pub store: MemPortalStore,
}

impl SessionState {
    /// Fresh state for a newly accepted connection.
    pub fn new() -> (s: SessionState)
        ensures
            s.state == PgWireConnectionState::AwaitingSslRequest,
            s.store.wf(),
            forall|n: Seq<char>| #[trigger] s.store.statement(n) is None,
            forall|n: Seq<char>| #[trigger] s.store.portal(n) is None,
    {
        SessionState { state: PgWireConnectionState::AwaitingSslRequest, store: MemPortalStore::new() }
    }
}

impl ClientPortalStore for SessionState {
    type PortalStore = MemPortalStore;

    fn portal_store(&self) -> &MemPortalStore {
        &self.store
    }
}

/// One handler implementation per capability, chosen when the server
/// is built and shared by every connection task.
pub trait PgWireHandlerFactory {
    type StartupHandler;
    type SimpleQueryHandler;
    type ExtendedQueryHandler;
    type CopyHandler;

    fn simple_query_handler(&self) -> Arc<Self::SimpleQueryHandler>;

    fn extended_query_handler(&self) -> Arc<Self::ExtendedQueryHandler>;

    fn startup_handler(&self) -> Arc<Self::StartupHandler>;

    fn copy_handler(&self) -> Arc<Self::CopyHandler>;
}

/// Relies on Arc::clone: the returned handle refers to the same value
/// as the one cloned.
#[verifier::external_body]
fn clone_arc<H>(a: &Arc<H>) -> (r: Arc<H>)
    ensures
        r == *a,
{
    Arc::clone(a)
}

/// A factory that hands the same shared, read-only handler instance to
/// every connection.
pub struct StatelessMakeHandler<H> {
    handler: Arc<H>,
}

impl<H> StatelessMakeHandler<H> {
    /// The handler instance this factory shares.
    pub closed spec fn spec_handler(&self) -> Arc<H> {
        self.handler
    }

    /// Wrap one handler instance for sharing across connections.
    pub fn new(handler: Arc<H>) -> (s: StatelessMakeHandler<H>)
        ensures
            s.spec_handler() == handler,
    {
        StatelessMakeHandler { handler }
    }

    /// Hand out a handle to the shared handler.
    pub fn make(&self) -> (r: Arc<H>)
        ensures
            r == self.spec_handler(),
    {
        clone_arc(&self.handler)
    }
}

impl<H> PgWireHandlerFactory for StatelessMakeHandler<H> {
    type StartupHandler = H;

    type SimpleQueryHandler = H;

    type ExtendedQueryHandler = H;

    type CopyHandler = H;

    fn simple_query_handler(&self) -> Arc<H> {
        self.make()
    }

    fn extended_query_handler(&self) -> Arc<H> {
        self.make()
    }

    fn startup_handler(&self) -> Arc<H> {
        self.make()
    }

    fn copy_handler(&self) -> Arc<H> {
        self.make()
    }
}

} // verus!
