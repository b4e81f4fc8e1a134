//! Bringing up a session with the remote host: transport, handshake,
//! authentication by identity file with the agent as a fallback, and the
//! SFTP channel.
//!
//! The steps are decided here; whoever drives a [`Session`] performs each
//! action that `step` hands out and reports what came of it.

use vstd::prelude::*;
use vstd::string::*;
use crate::error::Error;
use crate::path::join;
use crate::path::path_join;

verus! {

/// How long the remote side may take to answer, in milliseconds.
pub const TIMEOUT_MS: u32 = 8000;

/// What a session was doing when it failed.
#[derive(Clone, Copy, Debug, PartialEq, Eq, Structural)]
pub enum Stage {
    /// Creating the session.
    Create,
    /// Connecting to the destination.
    Connect,
    /// The handshake of the protocol.
    Handshake,
    /// Authenticating the user.
    Authenticate,
    /// Opening the SFTP channel.
    Sftp,
}

/// How far a session has come.
#[derive(Debug, PartialEq, Eq)]
pub enum SessionState {
    /// Nothing has been asked for yet.
    Idle,
    /// The session is being created.
    Creating,
    /// The transport is being connected.
    Connecting,
    /// The handshake is under way.
    Handshaking,
    /// Authentication by identity file is under way.
    KeyAuth,
    /// Authentication by the agent is under way.
    AgentAuth,
    /// The SFTP channel is being opened.
    OpeningSftp,
    /// The session is ready for use.
    Ready,
    /// The session could not be set up: where it failed, and why.
    Failed(Stage, Error),
}

/// What came of the action that was asked for last.
#[derive(Debug, PartialEq, Eq)]
pub enum SessionEvent {
    /// The session is to be set up.
    Begin,
    /// The action went through.
    Done,
    /// The action failed.
    Failed(Error),
}

/// What is to be done next.
#[derive(Debug, PartialEq, Eq)]
pub enum SessionAction {
    /// Create a session with these settings.
    Create { compress: bool, blocking: bool, timeout_ms: u32 },
    /// Connect the transport to this host and port.
    Connect { destination: String },
    /// Perform the handshake.
    Handshake,
    /// Authenticate the user with the identity file, which has no pass-phrase.
    AuthKey { username: String, key_file: String },
    /// Authenticate the user through the running agent.
    AuthAgent { username: String },
    /// Open the SFTP channel.
    OpenSftp,
    /// Nothing more: the state holds the outcome.
    Finish,
}

/// A session with the remote host, as far as it has come.
pub struct Session {
    /// Destination host:port
    pub destination: String,
    /// User name
    pub username: String,
    /// How far the session has come.
    pub state: SessionState,
}

/// The identity file of a user: `id_rsa` in `.ssh` in the user's directory
/// under `/home`.
pub open spec fn key_file_of(username: Seq<char>) -> Seq<char> {
    join(join(join("/home"@, username), ".ssh"@), "id_rsa"@)
}

/// Whether a session has ended.
pub open spec fn is_settled(state: SessionState) -> bool {
    state is Ready || state is Failed
}

/// The action that asks for authentication by identity file.
pub open spec fn key_auth(username: String, action: SessionAction) -> bool {
    action matches SessionAction::AuthKey { username: u, key_file } && u == username && key_file@
        == key_file_of(username@)
}

/// The state that follows `state` on `event`, and whether `action` is the
/// one to take.
pub open spec fn follows(
    destination: String,
    username: String,
    state: SessionState,
    event: SessionEvent,
    after: SessionState,
    action: SessionAction,
) -> bool {
    if is_settled(state) {
        after == state && action == SessionAction::Finish
    } else {
        match (state, event) {
            (SessionState::Idle, SessionEvent::Begin) => after == SessionState::Creating && action
                == (SessionAction::Create {
                compress: true,
                blocking: true,
                timeout_ms: TIMEOUT_MS,
            }),
            (SessionState::Creating, SessionEvent::Done) => after == SessionState::Connecting
                && action == (SessionAction::Connect { destination }),
            (SessionState::Connecting, SessionEvent::Done) => after == SessionState::Handshaking
                && action == SessionAction::Handshake,
            (SessionState::Handshaking, SessionEvent::Done) => after == SessionState::KeyAuth
                && key_auth(username, action),
            (SessionState::KeyAuth, SessionEvent::Done) => after == SessionState::OpeningSftp
                && action == SessionAction::OpenSftp,
            (SessionState::KeyAuth, SessionEvent::Failed(_)) => after == SessionState::AgentAuth
                && action == (SessionAction::AuthAgent { username }),
            (SessionState::AgentAuth, SessionEvent::Done) => after == SessionState::OpeningSftp
                && action == SessionAction::OpenSftp,
            (SessionState::OpeningSftp, SessionEvent::Done) => after == SessionState::Ready
                && action == SessionAction::Finish,
            (_, SessionEvent::Failed(e)) => after == SessionState::Failed(stage_of(state), e)
                && action == SessionAction::Finish,
            _ => after == SessionState::Failed(stage_of(state), Error::InvalidArgs) && action
                == SessionAction::Finish,
        }
    }
}

/// The stage that a state belongs to.
pub open spec fn stage_of(state: SessionState) -> Stage {
    match state {
        SessionState::Idle => Stage::Create,
        SessionState::Creating => Stage::Create,
        SessionState::Connecting => Stage::Connect,
        SessionState::Handshaking => Stage::Handshake,
        SessionState::KeyAuth => Stage::Authenticate,
        SessionState::AgentAuth => Stage::Authenticate,
        SessionState::OpeningSftp => Stage::Sftp,
        SessionState::Ready => Stage::Sftp,
        SessionState::Failed(stage, _) => stage,
    }
}

/// Authenticate an SSH session using public key: the action that asks for
/// it, with the user's identity file.
pub fn authenticate_pubkey(username: &String) -> (action: SessionAction)
    ensures
        key_auth(*username, action),
{
    let home = path_join("", "/home");
    let user = path_join(home.as_str(), username.as_str());
    let ssh = path_join(user.as_str(), ".ssh");
    let key_file = path_join(ssh.as_str(), "id_rsa");
    proof {
        reveal_strlit("");
        reveal_strlit("/home");
        assert(home@ =~= "/home"@);
    }
    SessionAction::AuthKey { username: username.clone(), key_file }
}

/// Authenticate an SSH session using agent: the action that asks for it.
pub fn authenticate_agent(username: &String) -> (action: SessionAction)
    ensures
        action == (SessionAction::AuthAgent { username: *username }),
{
    SessionAction::AuthAgent { username: username.clone() }
}

impl Session {
    /// A session to `destination` for `username` that has not started.
    pub fn new(destination: String, username: String) -> (s: Session)
        ensures
            s.destination == destination,
            s.username == username,
            s.state == SessionState::Idle,
    {
        Session { destination, username, state: SessionState::Idle }
    }

    /// Whether the session has ended, ready or failed.
    pub fn settled(&self) -> (b: bool)
        ensures
            b == is_settled(self.state),
    {
        match self.state {
            SessionState::Ready => true,
            SessionState::Failed(_, _) => true,
            _ => false,
        }
    }

    /// The stage that the session is in.
    pub fn stage(&self) -> (stage: Stage)
        ensures
            stage == stage_of(self.state),
    {
        match &self.state {
            SessionState::Idle => Stage::Create,
            SessionState::Creating => Stage::Create,
            SessionState::Connecting => Stage::Connect,
            SessionState::Handshaking => Stage::Handshake,
            SessionState::KeyAuth => Stage::Authenticate,
            SessionState::AgentAuth => Stage::Authenticate,
            SessionState::OpeningSftp => Stage::Sftp,
            SessionState::Ready => Stage::Sftp,
            SessionState::Failed(stage, _) => *stage,
        }
    }

    /// Gives the session up with the error of the stage it is in.
    fn fail(&mut self, e: Error) -> (action: SessionAction)
        ensures
            final(self).destination == old(self).destination,
            final(self).username == old(self).username,
            final(self).state == SessionState::Failed(stage_of(old(self).state), e),
            action == SessionAction::Finish,
    {
        let stage = self.stage();
        self.state = SessionState::Failed(stage, e);
        SessionAction::Finish
    }

    /// Create a new SSH session: the steps up to the handshake. The session
    /// compresses, blocks, and gives the remote side eight seconds.
    pub fn create_session(&mut self, event: SessionEvent) -> (action: SessionAction)
        requires
            old(self).state is Idle || old(self).state is Creating || old(self).state
                is Connecting || old(self).state is Handshaking,
        ensures
            final(self).destination == old(self).destination,
            final(self).username == old(self).username,
            follows(
                old(self).destination,
                old(self).username,
                old(self).state,
                event,
                final(self).state,
                action,
            ),
    {
        match event {
            SessionEvent::Begin => match self.state {
                SessionState::Idle => {
                    self.state = SessionState::Creating;
                    SessionAction::Create { compress: true, blocking: true, timeout_ms: TIMEOUT_MS }
                },
                _ => self.fail(Error::InvalidArgs),
            },
            SessionEvent::Done => match self.state {
                SessionState::Creating => {
                    self.state = SessionState::Connecting;
                    SessionAction::Connect { destination: self.destination.clone() }
                },
                SessionState::Connecting => {
                    self.state = SessionState::Handshaking;
                    SessionAction::Handshake
                },
                SessionState::Handshaking => {
                    self.state = SessionState::KeyAuth;
                    authenticate_pubkey(&self.username)
                },
                _ => self.fail(Error::InvalidArgs),
            },
            SessionEvent::Failed(e) => self.fail(e),
        }
    }

    /// Authenticate an SSH session.
    ///
    /// First, the key with no pass-phrase is tried. Only if that does not
    /// work, the agent is tried: maybe we're running interactively. Where
    /// both fail, the session fails with what the agent gave as the reason.
    pub fn authenticate_session(&mut self, event: SessionEvent) -> (action: SessionAction)
        requires
            old(self).state is KeyAuth || old(self).state is AgentAuth,
        ensures
            final(self).destination == old(self).destination,
            final(self).username == old(self).username,
            follows(
                old(self).destination,
                old(self).username,
                old(self).state,
                event,
                final(self).state,
                action,
            ),
    {
        match event {
            SessionEvent::Done => {
                self.state = SessionState::OpeningSftp;
                SessionAction::OpenSftp
            },
            SessionEvent::Failed(e) => match self.state {
                SessionState::KeyAuth => {
                    self.state = SessionState::AgentAuth;
                    authenticate_agent(&self.username)
                },
                _ => self.fail(e),
            },
            SessionEvent::Begin => self.fail(Error::InvalidArgs),
        }
    }

    /// Takes what came of the last action and decides the next one: create
    /// the session, connect, shake hands, authenticate, open the SFTP
    /// channel. A failure of any action but the first authentication ends
    /// the session with that error and the stage it happened in; an event
    /// that answers no action that was asked for ends it with `InvalidArgs`.
    pub fn step(&mut self, event: SessionEvent) -> (action: SessionAction)
        ensures
            final(self).destination == old(self).destination,
            final(self).username == old(self).username,
            follows(
                old(self).destination,
                old(self).username,
                old(self).state,
                event,
                final(self).state,
                action,
            ),
    {
        match self.state {
            SessionState::Ready => SessionAction::Finish,
            SessionState::Failed(_, _) => SessionAction::Finish,
            SessionState::KeyAuth => self.authenticate_session(event),
            SessionState::AgentAuth => self.authenticate_session(event),
            SessionState::OpeningSftp => match event {
                SessionEvent::Done => {
                    self.state = SessionState::Ready;
                    SessionAction::Finish
                },
                SessionEvent::Failed(e) => self.fail(e),
                SessionEvent::Begin => self.fail(Error::InvalidArgs),
            },
            _ => self.create_session(event),
        }
    }
}

/// Authentication fallback: where the identity file is refused the agent is
/// asked; where the agent lets the user in the session goes on to its SFTP
/// channel, and where the agent refuses too the session has failed in
/// authentication with the agent's error.
pub proof fn lemma_authentication_fallback(
    destination: String,
    username: String,
    refused: Error,
    cause: Error,
    after: SessionState,
    action: SessionAction,
)
    ensures
        follows(
            destination,
            username,
            SessionState::KeyAuth,
            SessionEvent::Failed(refused),
            after,
            action,
        ) <==> after == SessionState::AgentAuth && action == (SessionAction::AuthAgent {
            username,
        }),
        follows(destination, username, SessionState::AgentAuth, SessionEvent::Done, after, action)
            <==> after == SessionState::OpeningSftp && action == SessionAction::OpenSftp,
        follows(
            destination,
            username,
            SessionState::AgentAuth,
            SessionEvent::Failed(cause),
            after,
            action,
        ) <==> after == SessionState::Failed(Stage::Authenticate, cause) && action
            == SessionAction::Finish,
{
}

/// The agent is asked only after the identity file was refused.
pub proof fn lemma_agent_only_after_key(
    destination: String,
    username: String,
    state: SessionState,
    event: SessionEvent,
    after: SessionState,
    action: SessionAction,
)
    requires
        follows(destination, username, state, event, after, action),
        action is AuthAgent,
    ensures
        state is KeyAuth,
        event is Failed,
{
}

} // verus!
