//! Turning change notifications into paths that wait to be mirrored.
//!
//! A notification names a watch and, below a watched directory, a file. The
//! watcher knows the root of each watch and so the path that is meant. It
//! gathers notifications until they stop coming: one wait is decided here
//! step by step, and whoever drives a [`Watcher`] performs each action that
//! `wait_events` hands out and reports what came of it.

use vstd::prelude::*;
use vstd::string::*;
use crate::error::Error;
use crate::mirror::added_view;
use crate::mirror::lemma_added_view;
use crate::mirror::views;
use crate::mirror::Mirror;
use crate::path::is_valid;
use crate::path::join;
use crate::path::path_join;

verus! {

/// How long to wait for more notifications after some came, in
/// milliseconds.
pub const SETTLE_MS: u64 = 50;

/// A watch: the handle that notifications carry, and the root it stands for.
#[derive(Debug, PartialEq, Eq)]
pub struct Watch {
    /// The watch descriptor.
    pub wd: i32,
    /// The watched path.
    pub root: String,
}

/// A notification.
#[derive(Debug, PartialEq, Eq)]
pub struct RawEvent {
    /// The watch that the notification comes from.
    pub wd: i32,
    /// The name of the file below the watched directory; none where the
    /// watched path itself is meant.
    pub name: Option<String>,
    /// The canonical form of the path that is meant, where the file system
    /// gave one.
    pub canonical: Option<String>,
}

/// Where a wait stands.
#[derive(Clone, Copy, Debug, PartialEq, Eq, Structural)]
pub enum WatchPhase {
    /// No wait is under way.
    Idle,
    /// The watcher waits for the first notifications.
    Blocking,
    /// Notifications came; the watcher pauses before it looks for more.
    Sleeping,
    /// The watcher looks for more notifications without waiting.
    Polling,
}

/// What came of the action that was asked for last.
#[derive(Debug, PartialEq, Eq)]
pub enum WatchEvent {
    /// A wait is to start.
    Begin,
    /// Notifications were read.
    Batch(Vec<RawEvent>),
    /// There was nothing to read.
    WouldBlock,
    /// The pause is over.
    Woke,
    /// Reading failed.
    Failed(Error),
}

/// What is to be done next.
#[derive(Debug, PartialEq, Eq)]
pub enum WatchAction {
    /// Read notifications, waiting until some come.
    ReadBlocking,
    /// Pause this long.
    Sleep { millis: u64 },
    /// Read the notifications that are there, without waiting.
    ReadNonBlocking,
    /// Nothing more: the wait is over, well or not.
    Finish(Result<(), Error>),
}

/// Watcher for mirroring
pub struct Watcher {
    /// The watches; of two with the same handle the later one counts.
    pub watches: Vec<Watch>,
    /// Where the wait stands.
    pub phase: WatchPhase,
}

/// The root of the watch with this handle: that of the last such watch.
pub open spec fn root_of(watches: Seq<Watch>, wd: i32) -> Option<String>
    decreases watches.len(),
{
    if watches.len() == 0 {
        None
    } else if watches.last().wd == wd {
        Some(watches.last().root)
    } else {
        root_of(watches.drop_last(), wd)
    }
}

/// The path that a notification means: the root of its watch extended by
/// its name. None where the watch is unknown or no name came.
pub open spec fn candidate(watches: Seq<Watch>, event: RawEvent) -> Option<Seq<char>> {
    match (root_of(watches, event.wd), event.name) {
        (Some(root), Some(name)) => Some(join(root@, name@)),
        _ => None,
    }
}

/// Whether a notification means a path that is mirrored.
pub open spec fn is_change(watches: Seq<Watch>, event: RawEvent) -> bool {
    candidate(watches, event) matches Some(path) && is_valid(path)
}

/// What a notification adds to the paths that wait: the canonical form of
/// its path where one came, and the path itself otherwise.
pub open spec fn change_of(watches: Seq<Watch>, event: RawEvent) -> Seq<char> {
    match event.canonical {
        Some(c) => c@,
        None => candidate(watches, event).unwrap(),
    }
}

/// The paths that wait once the first `n` of `events` were taken in, each
/// change at the end unless it waited already.
pub open spec fn noted(
    watches: Seq<Watch>,
    pending: Seq<Seq<char>>,
    events: Seq<RawEvent>,
    n: nat,
) -> Seq<Seq<char>>
    decreases n,
{
    if n == 0 {
        pending
    } else {
        let before = noted(watches, pending, events, (n - 1) as nat);
        if is_change(watches, events[n - 1]) {
            added_view(before, change_of(watches, events[n - 1]))
        } else {
            before
        }
    }
}

/// Whether one of the first `n` of `events` means a path that is mirrored.
pub open spec fn any_change(watches: Seq<Watch>, events: Seq<RawEvent>, n: nat) -> bool
    decreases n,
{
    n > 0 && (any_change(watches, events, (n - 1) as nat) || is_change(watches, events[n - 1]))
}

/// What a wait is left with.
pub struct Waited {
    /// What the paths that wait read.
    pub pending: Seq<Seq<char>>,
    /// Where the wait stands.
    pub phase: WatchPhase,
    /// What is to be done next.
    pub action: WatchAction,
}

/// The wait pauses before it looks for more notifications.
pub open spec fn settle(pending: Seq<Seq<char>>) -> Waited {
    Waited {
        pending,
        phase: WatchPhase::Sleeping,
        action: WatchAction::Sleep { millis: SETTLE_MS },
    }
}

/// The wait goes on until the first path waits.
pub open spec fn await_first(pending: Seq<Seq<char>>) -> Waited {
    if pending.len() == 0 {
        Waited { pending, phase: WatchPhase::Blocking, action: WatchAction::ReadBlocking }
    } else {
        settle(pending)
    }
}

/// The wait is over.
pub open spec fn finish(pending: Seq<Seq<char>>, result: Result<(), Error>) -> Waited {
    Waited { pending, phase: WatchPhase::Idle, action: WatchAction::Finish(result) }
}

/// What a wait in `phase` is left with on `event`, where `pending` is what
/// the paths that wait read.
///
/// A wait reads notifications until a path waits. It then pauses for
/// `SETTLE_MS` and looks for more, again and again, until a look finds
/// nothing to read or nothing that is mirrored. A failure to read ends the
/// wait with that error, and an event that answers no action that was asked
/// for ends it with `InvalidArgs`.
pub open spec fn wait_next(
    watches: Seq<Watch>,
    phase: WatchPhase,
    pending: Seq<Seq<char>>,
    event: WatchEvent,
) -> Waited {
    match (phase, event) {
        (WatchPhase::Idle, WatchEvent::Begin) => await_first(pending),
        (WatchPhase::Blocking, WatchEvent::Batch(events)) => await_first(
            noted(watches, pending, events@, events@.len()),
        ),
        (WatchPhase::Sleeping, WatchEvent::Woke) => Waited {
            pending,
            phase: WatchPhase::Polling,
            action: WatchAction::ReadNonBlocking,
        },
        (WatchPhase::Polling, WatchEvent::WouldBlock) => finish(pending, Ok(())),
        (WatchPhase::Polling, WatchEvent::Batch(events)) => {
            let after = noted(watches, pending, events@, events@.len());
            if any_change(watches, events@, events@.len()) {
                settle(after)
            } else {
                finish(after, Ok(()))
            }
        },
        (_, WatchEvent::Failed(e)) => finish(pending, Err(e)),
        _ => finish(pending, Err(Error::InvalidArgs)),
    }
}

/// The watches that the first `n` roots got, in their order.
pub open spec fn watches_of(roots: Seq<String>, handles: Seq<Result<i32, Error>>, n: nat) -> Seq<
    Watch,
>
    decreases n,
{
    if n == 0 {
        Seq::empty()
    } else {
        watches_of(roots, handles, (n - 1) as nat).push(
            Watch { wd: handles[n - 1].unwrap(), root: roots[n - 1] },
        )
    }
}

/// Whether `i` is the first root whose watch could not be set up.
pub open spec fn first_failure(handles: Seq<Result<i32, Error>>, i: int) -> bool {
    &&& 0 <= i < handles.len()
    &&& handles[i] is Err
    &&& forall|k: int| 0 <= k < i ==> (#[trigger] handles[k]) is Ok
}

impl Watcher {
    /// Create a new watcher.
    ///
    /// `handles` holds, for the paths of the mirror in their order, the
    /// handle of the watch that was set up for each, or why none could be.
    /// The watcher comes about only if every path got its watch. Where a
    /// watch could not be set up the error of the first such is returned,
    /// whatever follows it or is missing after it. Where all that are given
    /// were set up but their number is not that of the paths, `InvalidArgs`
    /// is returned.
    pub fn new(mirror: &Mirror, handles: &Vec<Result<i32, Error>>) -> (r: Result<Watcher, Error>)
        ensures
            match r {
                Ok(watcher) => {
                    &&& handles@.len() == mirror.pending().len()
                    &&& forall|k: int| 0 <= k < handles@.len() ==> (#[trigger] handles@[k]) is Ok
                    &&& watcher.watches@ == watches_of(
                        mirror.pending(),
                        handles@,
                        handles@.len(),
                    )
                    &&& watcher.phase == WatchPhase::Idle
                },
                Err(e) => if forall|k: int|
                    0 <= k < handles@.len() ==> (#[trigger] handles@[k]) is Ok {
                    handles@.len() != mirror.pending().len() && e == Error::InvalidArgs
                } else {
                    exists|i: int| #[trigger] first_failure(handles@, i) && handles@[i] == Err::<
                        i32,
                        Error,
                    >(e)
                },
            },
    {
        for i in 0..handles.len()
            invariant
                forall|k: int| 0 <= k < i ==> (#[trigger] handles@[k]) is Ok,
        {
            match &handles[i] {
                Ok(_) => {},
                Err(e) => {
                    assert(first_failure(handles@, i as int));
                    return Err(e.duplicate());
                },
            }
        }
        let roots = mirror.paths();
        if handles.len() != roots.len() {
            return Err(Error::InvalidArgs);
        }
        let mut watches: Vec<Watch> = Vec::new();
        for i in 0..roots.len()
            invariant
                roots@ == mirror.pending(),
                handles@.len() == roots@.len(),
                forall|k: int| 0 <= k < handles@.len() ==> (#[trigger] handles@[k]) is Ok,
                watches@ == watches_of(roots@, handles@, i as nat),
        {
            if let Ok(wd) = &handles[i] {
                watches.push(Watch { wd: *wd, root: roots[i].clone() });
            }
        }
        Ok(Watcher { watches, phase: WatchPhase::Idle })
    }

    /// The root of the watch with this handle.
    fn root(&self, wd: i32) -> (root: Option<&String>)
        ensures
            match root {
                Some(r) => root_of(self.watches@, wd) == Some(*r),
                None => root_of(self.watches@, wd) is None,
            },
    {
        let mut i: usize = self.watches.len();
        assert(self.watches@.take(i as int) =~= self.watches@);
        while i > 0
            invariant
                i <= self.watches.len(),
                root_of(self.watches@, wd) == root_of(self.watches@.take(i as int), wd),
            decreases i,
        {
            assert(self.watches@.take(i as int).drop_last() =~= self.watches@.take(i - 1));
            if self.watches[i - 1].wd == wd {
                return Some(&self.watches[i - 1].root);
            }
            i = i - 1;
        }
        None
    }

    /// Get path from an inotify event: the root of its watch extended by the
    /// name it carries.
    pub fn event_path(&self, event: &RawEvent) -> (path: Option<String>)
        ensures
            match path {
                Some(p) => candidate(self.watches@, *event) == Some(p@),
                None => candidate(self.watches@, *event) is None,
            },
    {
        match (self.root(event.wd), &event.name) {
            (Some(root), Some(name)) => Some(path_join(root.as_str(), name.as_str())),
            _ => None,
        }
    }

    /// Takes notifications in: each that means a path that is mirrored makes
    /// that path wait. Tells whether there was one.
    fn note(&self, mirror: &mut Mirror, events: &Vec<RawEvent>) -> (more: bool)
        ensures
            more == any_change(self.watches@, events@, events@.len()),
            views(final(mirror).pending()) == noted(
                self.watches@,
                views(old(mirror).pending()),
                events@,
                events@.len(),
            ),
            final(mirror).destination_of() == old(mirror).destination_of(),
            final(mirror).username_of() == old(mirror).username_of(),
            final(mirror).phase_of() == old(mirror).phase_of(),
    {
        let mut more = false;
        let ghost start = views(mirror.pending());
        for i in 0..events.len()
            invariant
                more == any_change(self.watches@, events@, i as nat),
                views(mirror.pending()) == noted(self.watches@, start, events@, i as nat),
                mirror.destination_of() == old(mirror).destination_of(),
                mirror.username_of() == old(mirror).username_of(),
                mirror.phase_of() == old(mirror).phase_of(),
        {
            if let Some(path) = self.event_path(&events[i]) {
                let canonical = match &events[i].canonical {
                    Some(c) => Some(c.clone()),
                    None => None,
                };
                proof {
                    lemma_added_view(
                        mirror.pending(),
                        if canonical is Some {
                            canonical->0
                        } else {
                            path
                        },
                    );
                }
                let valid = mirror.add_path(path, canonical);
                more = more || valid;
            }
        }
        more
    }

    /// Check for more watch events: takes what a look for notifications
    /// found, and tells whether it held a path that is mirrored.
    pub fn check_more_events(&self, mirror: &mut Mirror, event: WatchEvent) -> (r: Result<
        bool,
        Error,
    >)
        ensures
            final(mirror).destination_of() == old(mirror).destination_of(),
            final(mirror).username_of() == old(mirror).username_of(),
            final(mirror).phase_of() == old(mirror).phase_of(),
            match event {
                WatchEvent::Batch(events) => r == Ok::<bool, Error>(
                    any_change(self.watches@, events@, events@.len()),
                ) && views(final(mirror).pending()) == noted(
                    self.watches@,
                    views(old(mirror).pending()),
                    events@,
                    events@.len(),
                ),
                WatchEvent::WouldBlock => r == Ok::<bool, Error>(false) && final(mirror).pending()
                    == old(mirror).pending(),
                WatchEvent::Failed(e) => r == Err::<bool, Error>(e) && final(mirror).pending()
                    == old(mirror).pending(),
                _ => r == Err::<bool, Error>(Error::InvalidArgs) && final(mirror).pending() == old(
                    mirror,
                ).pending(),
            },
    {
        match event {
            WatchEvent::Batch(events) => Ok(self.note(mirror, &events)),
            WatchEvent::WouldBlock => Ok(false),
            WatchEvent::Failed(e) => Err(e),
            _ => Err(Error::InvalidArgs),
        }
    }

    /// Ends the wait.
    fn finish(&mut self, result: Result<(), Error>) -> (action: WatchAction)
        ensures
            final(self).watches == old(self).watches,
            final(self).phase == WatchPhase::Idle,
            action == WatchAction::Finish(result),
    {
        self.phase = WatchPhase::Idle;
        WatchAction::Finish(result)
    }

    /// Pauses before the next look.
    fn settle(&mut self) -> (action: WatchAction)
        ensures
            final(self).watches == old(self).watches,
            final(self).phase == WatchPhase::Sleeping,
            action == (WatchAction::Sleep { millis: SETTLE_MS }),
    {
        self.phase = WatchPhase::Sleeping;
        WatchAction::Sleep { millis: SETTLE_MS }
    }

    /// Goes on waiting until the first path waits.
    fn await_first(&mut self, mirror: &Mirror) -> (action: WatchAction)
        ensures
            final(self).watches == old(self).watches,
            (Waited { pending: views(mirror.pending()), phase: final(self).phase, action })
                == await_first(views(mirror.pending())),
    {
        if mirror.is_empty() {
            self.phase = WatchPhase::Blocking;
            WatchAction::ReadBlocking
        } else {
            self.settle()
        }
    }

    /// Wait for watch events: takes what came of the last action of the wait
    /// and decides the next one.
    pub fn wait_events(&mut self, mirror: &mut Mirror, event: WatchEvent) -> (action: WatchAction)
        ensures
            final(self).watches == old(self).watches,
            final(mirror).destination_of() == old(mirror).destination_of(),
            final(mirror).username_of() == old(mirror).username_of(),
            final(mirror).phase_of() == old(mirror).phase_of(),
            (Waited { pending: views(final(mirror).pending()), phase: final(self).phase, action })
                == wait_next(
                old(self).watches@,
                old(self).phase,
                views(old(mirror).pending()),
                event,
            ),
    {
        match self.phase {
            WatchPhase::Idle => match event {
                WatchEvent::Begin => self.await_first(mirror),
                WatchEvent::Failed(e) => self.finish(Err(e)),
                _ => self.finish(Err(Error::InvalidArgs)),
            },
            WatchPhase::Blocking => match event {
                WatchEvent::Batch(events) => {
                    self.note(mirror, &events);
                    self.await_first(mirror)
                },
                WatchEvent::Failed(e) => self.finish(Err(e)),
                _ => self.finish(Err(Error::InvalidArgs)),
            },
            WatchPhase::Sleeping => match event {
                WatchEvent::Woke => {
                    self.phase = WatchPhase::Polling;
                    WatchAction::ReadNonBlocking
                },
                WatchEvent::Failed(e) => self.finish(Err(e)),
                _ => self.finish(Err(Error::InvalidArgs)),
            },
            WatchPhase::Polling => match event {
                WatchEvent::Begin => self.finish(Err(Error::InvalidArgs)),
                WatchEvent::Woke => self.finish(Err(Error::InvalidArgs)),
                _ => match self.check_more_events(mirror, event) {
                    Ok(true) => self.settle(),
                    Ok(false) => self.finish(Ok(())),
                    Err(e) => self.finish(Err(e)),
                },
            },
        }
    }
}

/// Debounce: a notification that comes again right after itself changes
/// nothing: the paths that wait are the same as after the first.
pub proof fn lemma_repeat_is_noted_once(
    watches: Seq<Watch>,
    pending: Seq<Seq<char>>,
    events: Seq<RawEvent>,
    n: nat,
)
    requires
        0 < n < events.len(),
        events[n as int] == events[n - 1],
    ensures
        noted(watches, pending, events, n + 1) == noted(watches, pending, events, n),
{
    let event = events[n as int];
    let before = noted(watches, pending, events, (n - 1) as nat);
    if is_change(watches, event) {
        let path = change_of(watches, event);
        let once = added_view(before, path);
        assert(noted(watches, pending, events, n) == once);
        if before.contains(path) {
        } else {
            assert(once[before.len() as int] == path);
        }
        assert(once.contains(path));
        assert(noted(watches, pending, events, n + 1) == added_view(once, path));
    }
}

/// Taking notifications in never makes a path stop waiting, and where one
/// of them means a path that is mirrored, a path waits afterwards.
pub proof fn lemma_noted_grows(
    watches: Seq<Watch>,
    pending: Seq<Seq<char>>,
    events: Seq<RawEvent>,
    n: nat,
)
    ensures
        noted(watches, pending, events, n).len() >= pending.len(),
        any_change(watches, events, n) ==> noted(watches, pending, events, n).len() > 0,
    decreases n,
{
    if n > 0 {
        lemma_noted_grows(watches, pending, events, (n - 1) as nat);
        let before = noted(watches, pending, events, (n - 1) as nat);
        if is_change(watches, events[n - 1]) {
            let path = change_of(watches, events[n - 1]);
            if before.contains(path) {
                let i = choose|i: int| 0 <= i < before.len() && before[i] == path;
                assert(before.len() > 0);
            }
        }
    }
}

/// Whether a wait in `phase` has what it needs: once it pauses or looks for
/// more, a path waits.
pub open spec fn has_work(phase: WatchPhase, pending: Seq<Seq<char>>) -> bool {
    phase is Sleeping || phase is Polling ==> pending.len() > 0
}

/// A wait ends well only with a path waiting: each step keeps `has_work`,
/// which holds before a wait starts, and the step that ends the wait well
/// leaves a path waiting.
pub proof fn lemma_wait_ends_with_work(
    watches: Seq<Watch>,
    phase: WatchPhase,
    pending: Seq<Seq<char>>,
    event: WatchEvent,
)
    requires
        has_work(phase, pending),
    ensures
        has_work(
            wait_next(watches, phase, pending, event).phase,
            wait_next(watches, phase, pending, event).pending,
        ),
        wait_next(watches, phase, pending, event).action == WatchAction::Finish(Ok(()))
            ==> wait_next(watches, phase, pending, event).pending.len() > 0,
{
    match event {
        WatchEvent::Batch(events) => {
            lemma_noted_grows(watches, pending, events@, events@.len());
        },
        _ => {},
    }
}

} // verus!
