use mere::error::Error;
use mere::service::mirror_files;
use mere::service::socket_addr;
use mere::service::with_default_port;
use mere::service::ServiceAction;
use mere::service::ServiceEvent;
use mere::service::Stage;

#[test]
fn destination_with_a_port_stands() {
    assert_eq!(socket_addr("host:2222", true, false), Ok("host:2222".to_string()));
    assert_eq!(socket_addr("host:2222", true, true), Ok("host:2222".to_string()));
}

#[test]
fn destination_without_a_port_gets_22() {
    assert_eq!(socket_addr("host", false, true), Ok("host:22".to_string()));
    assert_eq!(with_default_port("192.168.1.9"), "192.168.1.9:22");
}

#[test]
fn destination_that_names_no_host_is_refused() {
    assert_eq!(socket_addr("not a host", false, false), Err(Error::InvalidArgs));
}

#[test]
fn without_watching_there_is_one_pass() {
    let (stage, action) = mirror_files(false, Stage::Start, ServiceEvent::Begin);
    assert_eq!((stage, action), (Stage::Passing, ServiceAction::Pass));
    let (stage, action) = mirror_files(false, stage, ServiceEvent::Done);
    assert_eq!((stage, action), (Stage::Stopped, ServiceAction::Exit(Ok(()))));
}

#[test]
fn with_watching_passes_and_waits_alternate() {
    let (stage, action) = mirror_files(true, Stage::Start, ServiceEvent::Begin);
    assert_eq!((stage, action), (Stage::Registering, ServiceAction::Register));
    let (stage, action) = mirror_files(true, stage, ServiceEvent::Done);
    assert_eq!((stage, action), (Stage::Passing, ServiceAction::Pass));
    let (stage, action) = mirror_files(true, stage, ServiceEvent::Done);
    assert_eq!((stage, action), (Stage::Waiting, ServiceAction::Wait));
    let (stage, action) = mirror_files(true, stage, ServiceEvent::Done);
    assert_eq!((stage, action), (Stage::Passing, ServiceAction::Pass));
    let (stage, action) = mirror_files(true, stage, ServiceEvent::Done);
    assert_eq!((stage, action), (Stage::Waiting, ServiceAction::Wait));
}

#[test]
fn failure_ends_the_service() {
    let broken = Error::Io("inotify".to_string());
    for stage in [Stage::Registering, Stage::Passing, Stage::Waiting] {
        assert_eq!(
            mirror_files(true, stage, ServiceEvent::Failed(broken.duplicate())),
            (Stage::Stopped, ServiceAction::Exit(Err(broken.duplicate())))
        );
    }
}

#[test]
fn service_event_out_of_turn() {
    assert_eq!(
        mirror_files(true, Stage::Start, ServiceEvent::Done),
        (Stage::Stopped, ServiceAction::Exit(Err(Error::InvalidArgs)))
    );
    assert_eq!(
        mirror_files(true, Stage::Waiting, ServiceEvent::Begin),
        (Stage::Stopped, ServiceAction::Exit(Err(Error::InvalidArgs)))
    );
    assert_eq!(
        mirror_files(false, Stage::Stopped, ServiceEvent::Done),
        (Stage::Stopped, ServiceAction::Exit(Err(Error::InvalidArgs)))
    );
}
