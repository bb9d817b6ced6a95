//! The session life cycle and command dispatch. A session wraps one
//! transport and one configuration; its states run `Connecting` to `Ready`
//! to `Closed`, with `Executing` held while a query's stream is undrained.
//! One command is in flight at a time — the protocol is not pipelined — so
//! a second command during `Executing` fails with `SessionBusy`.
//!
//! The network itself lives outside: the unverified front end opens the
//! transport, runs the handshake and ferries the server's answers, and
//! every outcome it can hand back is decided here, whatever it is.

use vstd::prelude::*;

use crate::command::spec_validate;
use crate::command::Command;
use crate::config::ConfigModel;
use crate::config::ConnectionConfig;
use crate::errors::SqlError;
use crate::rows::QueryResponse;
use crate::rows::RowStream;

verus! {

/// Where a session stands. A session value not yet constructed is the
/// unconnected state; every constructed session is past it.
#[derive(Clone, Copy, Debug, PartialEq, Eq, Structural)]
pub enum SessionState {
    Connecting,
    Ready,
    Executing,
    Closed,
}

/// How the transport's dial attempt failed.
#[derive(Clone, Copy, Debug, PartialEq, Eq, Structural)]
pub enum TransportFailure {
    /// The resolved address could not be reached.
    Unreachable,
    /// The dial gave up waiting.
    TimedOut,
    /// The browser service knew no instance under the requested name.
    InstanceMissing,
}

/// How the protocol handshake came out.
#[derive(Clone, Copy, Debug, PartialEq, Eq, Structural)]
pub enum HandshakeOutcome {
    Accepted,
    AuthRejected,
    VersionRejected,
}

/// What the server answered to an `execute` submission.
#[derive(Debug, PartialEq, Eq)]
pub enum ExecuteOutcome {
    /// The batch ran; this many rows were affected over all its statements.
    Affected { count: u64 },
    /// The server reported a statement fault.
    ServerFault { code: u32, message: String },
}

/// The model of a session: its state and its configuration.
pub ghost struct SessionModel {
    pub state: SessionState,
    pub config: ConfigModel,
}

/// An authenticated protocol session over one transport. It must be closed
/// explicitly on every exit path; closing twice is a no-op.
pub struct Session {
    state: SessionState,
    config: ConnectionConfig,
}

impl View for Session {
    type V = SessionModel;

    closed spec fn view(&self) -> SessionModel {
        SessionModel { state: self.state, config: self.config@ }
    }
}

impl Session {
    /// Begins connecting to the configured target. The front end then opens
    /// the transport at `config.resolved_address()` and reports back through
    /// `abort_connect` or `complete_handshake`.
    pub fn connect(config: ConnectionConfig) -> (r: Session)
        ensures
            r@.state is Connecting,
            r@.config == config@,
    {
        Session { state: SessionState::Connecting, config }
    }

    /// The state the session is in.
    pub fn state(&self) -> (r: SessionState)
        ensures
            r == self@.state,
    {
        self.state
    }

    /// A borrowed look at the configuration.
    pub fn config(&self) -> (r: &ConnectionConfig)
        ensures
            r@ == self@.config,
    {
        &self.config
    }

    /// Records that the transport could not be opened, closing the session
    /// and naming the error the failure maps to.
    pub fn abort_connect(&mut self, failure: TransportFailure) -> (r: SqlError)
        requires
            old(self)@.state is Connecting,
        ensures
            final(self)@.state is Closed,
            final(self)@.config == old(self)@.config,
            (match failure {
                TransportFailure::Unreachable => r == SqlError::NetworkUnreachable,
                TransportFailure::TimedOut => r == SqlError::ConnectTimeout,
                TransportFailure::InstanceMissing => r == SqlError::InstanceNotFound,
            }),
    {
        self.state = SessionState::Closed;
        match failure {
            TransportFailure::Unreachable => SqlError::NetworkUnreachable,
            TransportFailure::TimedOut => SqlError::ConnectTimeout,
            TransportFailure::InstanceMissing => SqlError::InstanceNotFound,
        }
    }

    /// Settles the handshake with the server's answer: acceptance makes
    /// the session ready; a rejection closes it and names the error.
    pub fn complete_handshake(&mut self, outcome: HandshakeOutcome) -> (r: Result<(), SqlError>)
        requires
            old(self)@.state is Connecting,
        ensures
            final(self)@.config == old(self)@.config,
            (match outcome {
                HandshakeOutcome::Accepted => r == Ok::<(), SqlError>(())
                    && final(self)@.state is Ready,
                HandshakeOutcome::AuthRejected => final(self)@.state is Closed
                    && r == Err::<(), SqlError>(SqlError::AuthenticationFailed),
                HandshakeOutcome::VersionRejected => final(self)@.state is Closed
                    && r == Err::<(), SqlError>(SqlError::ProtocolVersionMismatch),
            }),
    {
        match outcome {
            HandshakeOutcome::Accepted => {
                self.state = SessionState::Ready;
                Ok(())
            },
            HandshakeOutcome::AuthRejected => {
                self.state = SessionState::Closed;
                Err(SqlError::AuthenticationFailed)
            },
            HandshakeOutcome::VersionRejected => {
                self.state = SessionState::Closed;
                Err(SqlError::ProtocolVersionMismatch)
            },
        }
    }

    /// Runs a statement that returns no row data, yielding the count of
    /// rows affected across the batch. A busy session refuses; a command
    /// that fails validation is rejected before anything is submitted,
    /// whatever the outcome argument holds; otherwise the server's answer
    /// decides, and the session stays ready — no stream comes into being.
    pub fn execute(&mut self, cmd: &Command, outcome: ExecuteOutcome) -> (r: Result<u64, SqlError>)
        requires
            old(self)@.state is Ready || old(self)@.state is Executing,
        ensures
            final(self)@.config == old(self)@.config,
            old(self)@.state is Executing ==> r == Err::<u64, SqlError>(SqlError::SessionBusy)
                && final(self)@ == old(self)@,
            old(self)@.state is Ready ==> (match spec_validate(cmd.text@, cmd.params@) {
                Some(e) => r == Err::<u64, SqlError>(e) && final(self)@ == old(self)@,
                None => final(self)@.state is Ready && (match outcome {
                    ExecuteOutcome::Affected { count } => r == Ok::<u64, SqlError>(count),
                    ExecuteOutcome::ServerFault { code, message } => (r matches Err(e2)
                        && e2 matches SqlError::ServerError { code: c, message: m } && c == code
                        && m@ == message@),
                }),
            }),
    {
        if matches!(self.state, SessionState::Executing) {
            return Err(SqlError::SessionBusy);
        }
        match cmd.validate() {
            Err(e) => {
                return Err(e);
            },
            Ok(_) => {},
        }
        match outcome {
            ExecuteOutcome::Affected { count } => Ok(count),
            ExecuteOutcome::ServerFault { code, message } => Err(
                SqlError::ServerError { code, message },
            ),
        }
    }

    /// Submits a statement that returns row data. A busy session refuses
    /// with `SessionBusy` while the previous stream is undrained; a command
    /// that fails validation is rejected before anything is submitted,
    /// whatever the response argument holds. On success the session holds
    /// `Executing` until `finish` takes the stream back; a server fault
    /// leaves it ready with no stream.
    pub fn query(&mut self, cmd: &Command, response: QueryResponse) -> (r: Result<
        RowStream,
        SqlError,
    >)
        requires
            old(self)@.state is Ready || old(self)@.state is Executing,
        ensures
            final(self)@.config == old(self)@.config,
            old(self)@.state is Executing ==> (r matches Err(e) && e == SqlError::SessionBusy
                && final(self)@ == old(self)@),
            old(self)@.state is Ready ==> (match spec_validate(cmd.text@, cmd.params@) {
                Some(e) => (r matches Err(e2) && e2 == e) && final(self)@ == old(self)@,
                None => (match response {
                    QueryResponse::ResultData { items } => (r matches Ok(st) && st@ == items@)
                        && final(self)@.state is Executing,
                    QueryResponse::ServerFault { code, message } => (r matches Err(e2)
                        && e2 matches SqlError::ServerError { code: c, message: m } && c == code
                        && m@ == message@) && final(self)@.state is Ready,
                }),
            }),
    {
        if matches!(self.state, SessionState::Executing) {
            return Err(SqlError::SessionBusy);
        }
        match cmd.validate() {
            Err(e) => {
                return Err(e);
            },
            Ok(_) => {},
        }
        match response {
            QueryResponse::ResultData { items } => {
                self.state = SessionState::Executing;
                Ok(RowStream::from_items(items))
            },
            QueryResponse::ServerFault { code, message } => Err(
                SqlError::ServerError { code, message },
            ),
        }
    }

    /// Takes the stream of the command in flight back — drained or
    /// abandoned, any remaining frames are discarded — and makes the
    /// session ready for its next command.
    pub fn finish(&mut self, stream: RowStream)
        requires
            old(self)@.state is Executing,
        ensures
            final(self)@.state is Ready,
            final(self)@.config == old(self)@.config,
    {
        let _ = stream;
        self.state = SessionState::Ready;
    }

    /// Closes the session, aborting any command in flight and releasing
    /// the transport. Closing an already closed session is a no-op.
    pub fn close(&mut self)
        ensures
            final(self)@.state is Closed,
            final(self)@.config == old(self)@.config,
    {
        self.state = SessionState::Closed;
    }
}

} // verus!
