use mere::error::Error;
use mere::mirror::Mirror;
use mere::watch::RawEvent;
use mere::watch::Watch;
use mere::watch::WatchAction;
use mere::watch::WatchEvent;
use mere::watch::WatchPhase;
use mere::watch::Watcher;
use mere::watch::SETTLE_MS;

fn watcher() -> Watcher {
    Watcher {
        watches: vec![
            Watch { wd: 1, root: "/data/in".to_string() },
            Watch { wd: 2, root: "/data/out/".to_string() },
        ],
        phase: WatchPhase::Idle,
    }
}

fn named(wd: i32, name: &str) -> RawEvent {
    RawEvent { wd, name: Some(name.to_string()), canonical: None }
}

fn empty_mirror() -> Mirror {
    Mirror::with_username("h:22", "u".to_string())
}

#[test]
fn watcher_pairs_paths_with_handles() {
    let mut mirror = empty_mirror();
    mirror.add_path("/data/in".to_string(), None);
    mirror.add_path("/data/out".to_string(), None);
    let w = Watcher::new(&mirror, &vec![Ok(7), Ok(9)]).unwrap();
    assert_eq!(
        w.watches,
        vec![
            Watch { wd: 7, root: "/data/in".to_string() },
            Watch { wd: 9, root: "/data/out".to_string() }
        ]
    );
    assert_eq!(w.phase, WatchPhase::Idle);
}

#[test]
fn watcher_needs_every_watch() {
    let mut mirror = empty_mirror();
    mirror.add_path("/data/in".to_string(), None);
    mirror.add_path("/data/out".to_string(), None);
    mirror.add_path("/data/more".to_string(), None);
    let missing = Error::Io("No such file or directory".to_string());
    let denied = Error::Io("Permission denied".to_string());
    let r = Watcher::new(&mirror, &vec![Ok(1), Err(missing.duplicate()), Err(denied)]);
    assert_eq!(r.err(), Some(missing));
}

#[test]
fn first_failed_watch_decides_whatever_follows() {
    let mut mirror = empty_mirror();
    mirror.add_path("/data/in".to_string(), None);
    mirror.add_path("/data/out".to_string(), None);
    mirror.add_path("/data/more".to_string(), None);
    let missing = Error::Io("No such file or directory".to_string());
    // the watches after the first that failed were never asked for
    let r = Watcher::new(&mirror, &vec![Ok(1), Err(missing.duplicate())]);
    assert_eq!(r.err(), Some(missing.duplicate()));
    let r = Watcher::new(&mirror, &vec![Err(missing.duplicate())]);
    assert_eq!(r.err(), Some(missing));
}

#[test]
fn watcher_needs_one_handle_for_each_path() {
    let mut mirror = empty_mirror();
    mirror.add_path("/data/in".to_string(), None);
    assert_eq!(Watcher::new(&mirror, &vec![]).err(), Some(Error::InvalidArgs));
    assert_eq!(Watcher::new(&mirror, &vec![Ok(1), Ok(2)]).err(), Some(Error::InvalidArgs));
    assert!(Watcher::new(&empty_mirror(), &vec![]).is_ok());
}

#[test]
fn event_path_is_root_and_name() {
    let w = watcher();
    assert_eq!(w.event_path(&named(1, "a.txt")), Some("/data/in/a.txt".to_string()));
    assert_eq!(w.event_path(&named(2, "a.txt")), Some("/data/out/a.txt".to_string()));
    assert_eq!(w.event_path(&named(3, "a.txt")), None);
    assert_eq!(w.event_path(&RawEvent { wd: 1, name: None, canonical: None }), None);
}

#[test]
fn later_watch_of_a_handle_counts() {
    let mut w = watcher();
    w.watches.push(Watch { wd: 1, root: "/data/new".to_string() });
    assert_eq!(w.event_path(&named(1, "a")), Some("/data/new/a".to_string()));
}

#[test]
fn wait_blocks_until_a_path_waits() {
    let mut w = watcher();
    let mut mirror = empty_mirror();
    assert_eq!(w.wait_events(&mut mirror, WatchEvent::Begin), WatchAction::ReadBlocking);
    assert_eq!(
        w.wait_events(&mut mirror, WatchEvent::Batch(vec![named(1, ".swp"), named(5, "a")])),
        WatchAction::ReadBlocking
    );
    assert!(mirror.is_empty());
    assert_eq!(
        w.wait_events(&mut mirror, WatchEvent::Batch(vec![named(1, "a")])),
        WatchAction::Sleep { millis: 50 }
    );
    assert_eq!(mirror.paths(), vec!["/data/in/a".to_string()]);
}

#[test]
fn wait_settles_until_nothing_new_comes() {
    let mut w = watcher();
    let mut mirror = empty_mirror();
    w.wait_events(&mut mirror, WatchEvent::Begin);
    w.wait_events(&mut mirror, WatchEvent::Batch(vec![named(1, "a")]));
    assert_eq!(w.wait_events(&mut mirror, WatchEvent::Woke), WatchAction::ReadNonBlocking);
    assert_eq!(
        w.wait_events(&mut mirror, WatchEvent::Batch(vec![named(1, "b")])),
        WatchAction::Sleep { millis: SETTLE_MS }
    );
    assert_eq!(w.wait_events(&mut mirror, WatchEvent::Woke), WatchAction::ReadNonBlocking);
    assert_eq!(w.wait_events(&mut mirror, WatchEvent::WouldBlock), WatchAction::Finish(Ok(())));
    assert_eq!(w.phase, WatchPhase::Idle);
    assert_eq!(mirror.paths(), vec!["/data/in/a".to_string(), "/data/in/b".to_string()]);
}

#[test]
fn burst_for_one_path_is_one_entry() {
    let mut w = watcher();
    let mut mirror = empty_mirror();
    w.wait_events(&mut mirror, WatchEvent::Begin);
    w.wait_events(
        &mut mirror,
        WatchEvent::Batch(vec![named(1, "a"), named(1, "a"), named(1, "a")]),
    );
    assert_eq!(mirror.len(), 1);
    w.wait_events(&mut mirror, WatchEvent::Woke);
    // a valid path that waits already still counts as news
    assert_eq!(
        w.wait_events(&mut mirror, WatchEvent::Batch(vec![named(1, "a")])),
        WatchAction::Sleep { millis: 50 }
    );
    assert_eq!(mirror.paths(), vec!["/data/in/a".to_string()]);
}

#[test]
fn rename_gives_both_names() {
    let mut w = watcher();
    let mut mirror = empty_mirror();
    w.wait_events(&mut mirror, WatchEvent::Begin);
    w.wait_events(&mut mirror, WatchEvent::Batch(vec![named(1, "old"), named(1, "new")]));
    assert_eq!(mirror.paths(), vec!["/data/in/old".to_string(), "/data/in/new".to_string()]);
}

#[test]
fn poll_with_nothing_valid_ends_the_wait() {
    let mut w = watcher();
    let mut mirror = empty_mirror();
    mirror.add_path("/data/in/a".to_string(), None);
    assert_eq!(w.wait_events(&mut mirror, WatchEvent::Begin), WatchAction::Sleep { millis: 50 });
    w.wait_events(&mut mirror, WatchEvent::Woke);
    assert_eq!(
        w.wait_events(&mut mirror, WatchEvent::Batch(vec![named(1, "x~"), named(1, "4913")])),
        WatchAction::Finish(Ok(()))
    );
    assert_eq!(mirror.len(), 1);
}

#[test]
fn read_failure_ends_the_wait() {
    let broken = Error::Io("Bad file descriptor".to_string());
    let mut w = watcher();
    let mut mirror = empty_mirror();
    w.wait_events(&mut mirror, WatchEvent::Begin);
    assert_eq!(
        w.wait_events(&mut mirror, WatchEvent::Failed(broken.duplicate())),
        WatchAction::Finish(Err(broken.duplicate()))
    );
    assert_eq!(w.phase, WatchPhase::Idle);

    let mut w = watcher();
    mirror.add_path("/data/in/a".to_string(), None);
    w.wait_events(&mut mirror, WatchEvent::Begin);
    w.wait_events(&mut mirror, WatchEvent::Woke);
    assert_eq!(
        w.wait_events(&mut mirror, WatchEvent::Failed(broken.duplicate())),
        WatchAction::Finish(Err(broken))
    );
}

#[test]
fn watch_event_out_of_turn_ends_the_wait() {
    let mut w = watcher();
    let mut mirror = empty_mirror();
    assert_eq!(
        w.wait_events(&mut mirror, WatchEvent::Woke),
        WatchAction::Finish(Err(Error::InvalidArgs))
    );
    w.wait_events(&mut mirror, WatchEvent::Begin);
    assert_eq!(
        w.wait_events(&mut mirror, WatchEvent::WouldBlock),
        WatchAction::Finish(Err(Error::InvalidArgs))
    );
}

#[test]
fn canonical_form_of_an_event_is_what_waits() {
    let mut w = watcher();
    let mut mirror = empty_mirror();
    w.wait_events(&mut mirror, WatchEvent::Begin);
    let event = RawEvent {
        wd: 1,
        name: Some("a".to_string()),
        canonical: Some("/mnt/disk/in/a".to_string()),
    };
    w.wait_events(&mut mirror, WatchEvent::Batch(vec![event]));
    assert_eq!(mirror.paths(), vec!["/mnt/disk/in/a".to_string()]);
}

#[test]
fn check_more_events_tells_news() {
    let w = watcher();
    let mut mirror = empty_mirror();
    assert_eq!(w.check_more_events(&mut mirror, WatchEvent::WouldBlock), Ok(false));
    assert_eq!(w.check_more_events(&mut mirror, WatchEvent::Batch(vec![])), Ok(false));
    assert_eq!(
        w.check_more_events(&mut mirror, WatchEvent::Batch(vec![named(1, ".x"), named(2, "y")])),
        Ok(true)
    );
    assert_eq!(mirror.paths(), vec!["/data/out/y".to_string()]);
    assert_eq!(
        w.check_more_events(&mut mirror, WatchEvent::Failed(Error::Io("x".to_string()))),
        Err(Error::Io("x".to_string()))
    );
    assert_eq!(w.check_more_events(&mut mirror, WatchEvent::Begin), Err(Error::InvalidArgs));
}
