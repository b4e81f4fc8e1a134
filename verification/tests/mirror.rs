use mere::error::Error;
use mere::error::SshCode;
use mere::mirror::LocalKind;
use mere::mirror::Mirror;
use mere::mirror::SyncAction;
use mere::mirror::SyncEvent;
use mere::mirror::BACKOFF_MS;

fn mirror_of(paths: &[&str]) -> Mirror {
    let mut mirror = Mirror::with_username("backup.example.org:22", "alice".to_string());
    for p in paths {
        assert!(mirror.add_path(p.to_string(), None));
    }
    mirror
}

fn connect() -> SyncAction {
    SyncAction::Connect {
        destination: "backup.example.org:22".to_string(),
        username: "alice".to_string(),
    }
}

fn lost() -> Error {
    Error::Ssh(SshCode::Session(-13), "socket disconnect".to_string())
}

fn denied() -> Error {
    Error::Ssh(SshCode::Sftp(3), "permission denied".to_string())
}

#[test]
fn new_mirror_is_for_the_current_user() {
    let mirror = Mirror::new("backup.example.org:22");
    assert_eq!(mirror.destination(), "backup.example.org:22");
    assert_eq!(mirror.username(), &whoami::username());
    assert!(!mirror.username().is_empty());
    assert!(mirror.is_empty());
    assert!(!mirror.is_busy());
}

#[test]
fn mirror_for_a_given_user() {
    let mirror = Mirror::with_username("h:2222", "bob".to_string());
    assert_eq!(mirror.destination(), "h:2222");
    assert_eq!(mirror.username(), "bob");
    assert_eq!(mirror.len(), 0);
    assert_eq!(mirror.paths(), Vec::<String>::new());
}

#[test]
fn add_path_takes_valid_paths_only() {
    let mut mirror = Mirror::with_username("h:22", "u".to_string());
    assert!(mirror.add_path("/data/a".to_string(), None));
    assert!(!mirror.add_path("data/a".to_string(), None));
    assert!(!mirror.add_path("/data/.a".to_string(), None));
    assert!(!mirror.add_path("/data/4913".to_string(), None));
    assert!(!mirror.add_path("/data/a~".to_string(), None));
    assert_eq!(mirror.paths(), vec!["/data/a".to_string()]);
}

#[test]
fn three_notifications_of_one_path_wait_once() {
    let mut mirror = Mirror::with_username("h:22", "u".to_string());
    assert!(mirror.add_path("/data/a".to_string(), None));
    assert!(mirror.add_path("/data/a".to_string(), None));
    assert!(mirror.add_path("/data/a".to_string(), None));
    assert_eq!(mirror.len(), 1);
    assert_eq!(mirror.paths(), vec!["/data/a".to_string()]);
}

#[test]
fn canonical_form_is_what_waits() {
    let mut mirror = Mirror::with_username("h:22", "u".to_string());
    assert!(mirror.add_path("/data/link/a".to_string(), Some("/data/real/a".to_string())));
    assert!(mirror.add_path("/data/real/a".to_string(), None));
    assert_eq!(mirror.paths(), vec!["/data/real/a".to_string()]);
    // the path as it was given decides whether it is valid
    assert!(!mirror.add_path("/data/.link".to_string(), Some("/data/real/b".to_string())));
    assert!(mirror.add_path("/data/link2".to_string(), Some("/data/.real".to_string())));
    assert_eq!(mirror.len(), 2);
}

#[test]
fn pass_without_paths_ends_at_once() {
    let mut mirror = mirror_of(&[]);
    assert_eq!(mirror.copy_all(SyncEvent::Begin), SyncAction::Finish);
    assert!(!mirror.is_busy());
}

#[test]
fn pass_drops_paths_that_became_invalid() {
    let mut mirror = Mirror::with_username("h:22", "u".to_string());
    assert!(mirror.add_path("/data/link".to_string(), Some("/data/.real".to_string())));
    assert_eq!(mirror.len(), 1);
    assert_eq!(mirror.copy_all(SyncEvent::Begin), SyncAction::Finish);
    assert!(mirror.is_empty());
}

#[test]
fn pass_applies_each_path_by_its_kind() {
    let mut mirror = mirror_of(&["/data/dir", "/data/file", "/data/gone", "/data/socket"]);
    assert_eq!(mirror.copy_all(SyncEvent::Begin), connect());
    assert_eq!(mirror.copy_all(SyncEvent::Connected), SyncAction::Stat("/data/dir".to_string()));
    assert_eq!(
        mirror.copy_all(SyncEvent::Found(LocalKind::Directory)),
        SyncAction::SyncDirectory("/data/dir".to_string())
    );
    assert_eq!(mirror.copy_all(SyncEvent::Applied), SyncAction::Stat("/data/file".to_string()));
    assert_eq!(
        mirror.copy_all(SyncEvent::Found(LocalKind::File)),
        SyncAction::CopyFile("/data/file".to_string())
    );
    assert_eq!(mirror.copy_all(SyncEvent::Applied), SyncAction::Stat("/data/gone".to_string()));
    assert_eq!(
        mirror.copy_all(SyncEvent::Found(LocalKind::Missing)),
        SyncAction::Remove("/data/gone".to_string())
    );
    assert_eq!(mirror.copy_all(SyncEvent::Applied), SyncAction::Stat("/data/socket".to_string()));
    assert_eq!(mirror.copy_all(SyncEvent::Found(LocalKind::Other)), SyncAction::Finish);
    assert!(mirror.is_empty());
    assert!(!mirror.is_busy());
}

#[test]
fn failed_connection_backs_off_and_keeps_the_paths() {
    let mut mirror = mirror_of(&["/data/a", "/data/b"]);
    assert_eq!(mirror.copy_all(SyncEvent::Begin), connect());
    assert_eq!(
        mirror.copy_all(SyncEvent::Failed(lost())),
        SyncAction::Sleep { millis: 10000 }
    );
    assert_eq!(mirror.paths(), vec!["/data/a".to_string(), "/data/b".to_string()]);
    assert_eq!(mirror.copy_all(SyncEvent::Woke), connect());
    assert_eq!(mirror.copy_all(SyncEvent::Failed(lost())), SyncAction::Sleep { millis: BACKOFF_MS });
    assert_eq!(mirror.copy_all(SyncEvent::Woke), connect());
    assert_eq!(mirror.copy_all(SyncEvent::Connected), SyncAction::Stat("/data/a".to_string()));
}

#[test]
fn no_connection_before_the_wait_is_over() {
    let mut mirror = mirror_of(&["/data/a"]);
    mirror.copy_all(SyncEvent::Begin);
    mirror.copy_all(SyncEvent::Failed(lost()));
    for event in [
        SyncEvent::Begin,
        SyncEvent::Connected,
        SyncEvent::Applied,
        SyncEvent::Found(LocalKind::File),
        SyncEvent::Failed(lost()),
    ] {
        assert_eq!(mirror.copy_all(event), SyncAction::Sleep { millis: 10000 });
    }
    assert_eq!(mirror.len(), 1);
    assert_eq!(mirror.copy_all(SyncEvent::Woke), connect());
}

#[test]
fn failed_file_is_dropped_and_the_pass_goes_on() {
    let mut mirror = mirror_of(&["/data/a", "/data/b"]);
    mirror.copy_all(SyncEvent::Begin);
    mirror.copy_all(SyncEvent::Connected);
    mirror.copy_all(SyncEvent::Found(LocalKind::File));
    assert_eq!(
        mirror.copy_all(SyncEvent::Failed(denied())),
        SyncAction::Stat("/data/b".to_string())
    );
    mirror.copy_all(SyncEvent::Found(LocalKind::File));
    assert_eq!(mirror.copy_all(SyncEvent::Failed(Error::CopyLength(1, 2))), SyncAction::Finish);
    assert!(mirror.is_empty());
}

#[test]
fn lost_session_keeps_the_path_and_backs_off() {
    let mut mirror = mirror_of(&["/data/a", "/data/b"]);
    mirror.copy_all(SyncEvent::Begin);
    mirror.copy_all(SyncEvent::Connected);
    mirror.copy_all(SyncEvent::Found(LocalKind::File));
    assert_eq!(mirror.copy_all(SyncEvent::Failed(lost())), SyncAction::Sleep { millis: 10000 });
    assert_eq!(mirror.paths(), vec!["/data/a".to_string(), "/data/b".to_string()]);
    assert_eq!(mirror.copy_all(SyncEvent::Woke), connect());
    assert_eq!(mirror.copy_all(SyncEvent::Connected), SyncAction::Stat("/data/a".to_string()));
}

#[test]
fn sync_event_out_of_turn_ends_the_pass() {
    let mut mirror = mirror_of(&["/data/a", "/data/b"]);
    assert_eq!(mirror.copy_all(SyncEvent::Connected), SyncAction::Finish);
    assert_eq!(mirror.len(), 2);
    mirror.copy_all(SyncEvent::Begin);
    mirror.copy_all(SyncEvent::Connected);
    assert_eq!(mirror.copy_all(SyncEvent::Woke), SyncAction::Finish);
    assert!(!mirror.is_busy());
    assert_eq!(mirror.paths(), vec!["/data/a".to_string(), "/data/b".to_string()]);
}
