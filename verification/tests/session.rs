use mere::error::Error;
use mere::error::SshCode;
use mere::session::authenticate_agent;
use mere::session::authenticate_pubkey;
use mere::session::Session;
use mere::session::SessionAction;
use mere::session::SessionEvent;
use mere::session::SessionState;
use mere::session::Stage;
use mere::session::TIMEOUT_MS;

fn refused(text: &str) -> Error {
    Error::Ssh(SshCode::Session(-18), text.to_string())
}

fn at_key_auth() -> Session {
    let mut s = Session::new("backup.example.org:22".to_string(), "alice".to_string());
    s.step(SessionEvent::Begin);
    s.step(SessionEvent::Done);
    s.step(SessionEvent::Done);
    s.step(SessionEvent::Done);
    s
}

#[test]
fn session_is_set_up_step_by_step() {
    let mut s = Session::new("backup.example.org:22".to_string(), "alice".to_string());
    assert_eq!(
        s.step(SessionEvent::Begin),
        SessionAction::Create { compress: true, blocking: true, timeout_ms: 8000 }
    );
    assert_eq!(
        s.step(SessionEvent::Done),
        SessionAction::Connect { destination: "backup.example.org:22".to_string() }
    );
    assert_eq!(s.step(SessionEvent::Done), SessionAction::Handshake);
    assert_eq!(
        s.step(SessionEvent::Done),
        SessionAction::AuthKey {
            username: "alice".to_string(),
            key_file: "/home/alice/.ssh/id_rsa".to_string()
        }
    );
    assert_eq!(s.step(SessionEvent::Done), SessionAction::OpenSftp);
    assert_eq!(s.step(SessionEvent::Done), SessionAction::Finish);
    assert_eq!(s.state, SessionState::Ready);
    assert!(s.settled());
}

#[test]
fn timeout_is_eight_seconds() {
    assert_eq!(TIMEOUT_MS, 8000);
}

#[test]
fn agent_lets_in_after_the_key_was_refused() {
    let mut s = at_key_auth();
    assert_eq!(s.state, SessionState::KeyAuth);
    assert_eq!(
        s.step(SessionEvent::Failed(refused("key"))),
        SessionAction::AuthAgent { username: "alice".to_string() }
    );
    assert_eq!(s.state, SessionState::AgentAuth);
    assert_eq!(s.step(SessionEvent::Done), SessionAction::OpenSftp);
    assert_eq!(s.step(SessionEvent::Done), SessionAction::Finish);
    assert_eq!(s.state, SessionState::Ready);
}

#[test]
fn both_refusals_report_the_agent() {
    let mut s = at_key_auth();
    s.step(SessionEvent::Failed(refused("key")));
    assert_eq!(s.step(SessionEvent::Failed(refused("agent"))), SessionAction::Finish);
    assert_eq!(s.state, SessionState::Failed(Stage::Authenticate, refused("agent")));
    assert!(s.settled());
}

#[test]
fn agent_is_not_asked_where_the_key_works() {
    let mut s = at_key_auth();
    assert_eq!(s.step(SessionEvent::Done), SessionAction::OpenSftp);
    assert_eq!(s.state, SessionState::OpeningSftp);
}

#[test]
fn failures_carry_their_stage() {
    let cause = Error::Io("connection refused".to_string());
    let mut s = Session::new("h:22".to_string(), "u".to_string());
    s.step(SessionEvent::Begin);
    s.step(SessionEvent::Failed(cause.duplicate()));
    assert_eq!(s.state, SessionState::Failed(Stage::Create, cause.duplicate()));

    let mut s = Session::new("h:22".to_string(), "u".to_string());
    s.step(SessionEvent::Begin);
    s.step(SessionEvent::Done);
    s.step(SessionEvent::Failed(cause.duplicate()));
    assert_eq!(s.state, SessionState::Failed(Stage::Connect, cause.duplicate()));

    let mut s = Session::new("h:22".to_string(), "u".to_string());
    s.step(SessionEvent::Begin);
    s.step(SessionEvent::Done);
    s.step(SessionEvent::Done);
    s.step(SessionEvent::Failed(cause.duplicate()));
    assert_eq!(s.state, SessionState::Failed(Stage::Handshake, cause.duplicate()));

    let mut s = at_key_auth();
    s.step(SessionEvent::Done);
    s.step(SessionEvent::Failed(cause.duplicate()));
    assert_eq!(s.state, SessionState::Failed(Stage::Sftp, cause));
}

#[test]
fn settled_session_takes_nothing_more() {
    let mut s = at_key_auth();
    s.step(SessionEvent::Done);
    s.step(SessionEvent::Done);
    assert_eq!(s.step(SessionEvent::Begin), SessionAction::Finish);
    assert_eq!(s.step(SessionEvent::Failed(Error::InvalidArgs)), SessionAction::Finish);
    assert_eq!(s.state, SessionState::Ready);
}

#[test]
fn session_event_out_of_turn() {
    let mut s = Session::new("h:22".to_string(), "u".to_string());
    assert_eq!(s.step(SessionEvent::Done), SessionAction::Finish);
    assert_eq!(s.state, SessionState::Failed(Stage::Create, Error::InvalidArgs));
    let mut s = at_key_auth();
    assert_eq!(s.step(SessionEvent::Begin), SessionAction::Finish);
    assert_eq!(s.state, SessionState::Failed(Stage::Authenticate, Error::InvalidArgs));
}

#[test]
fn identity_file_is_derived_from_the_user() {
    assert_eq!(
        authenticate_pubkey(&"bob".to_string()),
        SessionAction::AuthKey {
            username: "bob".to_string(),
            key_file: "/home/bob/.ssh/id_rsa".to_string()
        }
    );
    assert_eq!(
        authenticate_agent(&"bob".to_string()),
        SessionAction::AuthAgent { username: "bob".to_string() }
    );
}

#[test]
fn stage_of_each_state() {
    let mut s = Session::new("h:22".to_string(), "u".to_string());
    assert_eq!(s.stage(), Stage::Create);
    s.step(SessionEvent::Begin);
    assert_eq!(s.stage(), Stage::Create);
    s.step(SessionEvent::Done);
    assert_eq!(s.stage(), Stage::Connect);
    s.step(SessionEvent::Done);
    assert_eq!(s.stage(), Stage::Handshake);
    s.step(SessionEvent::Done);
    assert_eq!(s.stage(), Stage::Authenticate);
    s.step(SessionEvent::Done);
    assert_eq!(s.stage(), Stage::Sftp);
}
