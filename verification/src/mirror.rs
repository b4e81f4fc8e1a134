//! The paths that wait to be mirrored, and the pass that brings them to the
//! remote host.
//!
//! A pass is decided here step by step; whoever drives a [`Mirror`] performs
//! each action that `copy_all` hands out and reports what came of it.

use vstd::prelude::*;
use vstd::string::*;
use crate::error::loses_session;
use crate::error::Error;
use crate::path::is_path_valid;
use crate::path::is_valid;

verus! {

/// How long to wait after a failed connection before the next, in
/// milliseconds.
pub const BACKOFF_MS: u64 = 10000;

/// What a pending path is on the local side.
#[derive(Clone, Copy, Debug, PartialEq, Eq, Structural)]
pub enum LocalKind {
    /// A directory.
    Directory,
    /// A regular file.
    File,
    /// Something else, which is not mirrored.
    Other,
    /// Nothing whose metadata can be read: the path is gone.
    Missing,
}

/// Where a pass stands.
#[derive(Debug, PartialEq, Eq)]
pub enum Phase {
    /// No pass is under way.
    Idle,
    /// A connection to the destination is being set up.
    Connecting,
    /// The last connection failed; the pass waits before the next.
    Backoff,
    /// The local side of this path is being looked at.
    Probing(String),
    /// This path is being brought to the remote side.
    Applying(String),
}

/// What came of the action that was asked for last.
#[derive(Debug, PartialEq, Eq)]
pub enum SyncEvent {
    /// A pass is to start.
    Begin,
    /// The session is ready.
    Connected,
    /// The wait is over.
    Woke,
    /// What the path is on the local side.
    Found(LocalKind),
    /// The path was brought to the remote side.
    Applied,
    /// The action failed.
    Failed(Error),
}

/// What is to be done next.
#[derive(Debug, PartialEq, Eq)]
pub enum SyncAction {
    /// Set up a session with the destination for this user.
    Connect { destination: String, username: String },
    /// Wait this long.
    Sleep { millis: u64 },
    /// Read the local metadata of this path.
    Stat(String),
    /// Mirror the directory of this path.
    SyncDirectory(String),
    /// Copy the file of this path.
    CopyFile(String),
    /// Remove the remote file of this path.
    Remove(String),
    /// Nothing more: the pass is over.
    Finish,
}

/// Mirror paths to destination
pub struct Mirror {
    /// Destination host:port
    destination: String,
    /// Paths to mirror, none of them twice
    paths: Vec<String>,
    /// User name
    username: String,
    /// Where the pass stands
    phase: Phase,
}

/// Whether one of `paths` reads `path`.
pub open spec fn lists(paths: Seq<String>, path: Seq<char>) -> bool {
    exists|i: int| 0 <= i < paths.len() && (#[trigger] paths[i])@ == path
}

/// No path occurs twice.
pub open spec fn no_duplicates(paths: Seq<String>) -> bool {
    forall|i: int, j: int|
        0 <= i < paths.len() && 0 <= j < paths.len() && i != j ==> (#[trigger] paths[i])@ != (
        #[trigger] paths[j])@
}

/// `paths` with `path` at its end, unless it is among them already.
pub open spec fn added(paths: Seq<String>, path: String) -> Seq<String> {
    if lists(paths, path@) {
        paths
    } else {
        paths.push(path)
    }
}

/// `paths` with `path` at its front, unless it is among them already.
pub open spec fn put_back(paths: Seq<String>, path: String) -> Seq<String> {
    if lists(paths, path@) {
        paths
    } else {
        seq![path] + paths
    }
}

/// What the paths read, in their order.
pub open spec fn views(paths: Seq<String>) -> Seq<Seq<char>> {
    paths.map_values(|p: String| p@)
}

/// `paths` with `path` at its end, unless it is among them already.
pub open spec fn added_view(paths: Seq<Seq<char>>, path: Seq<char>) -> Seq<Seq<char>> {
    if paths.contains(path) {
        paths
    } else {
        paths.push(path)
    }
}

/// The valid ones among `paths`, in their order.
pub open spec fn pruned(paths: Seq<String>) -> Seq<String> {
    paths.filter(|p: String| is_valid(p@))
}

/// The paths as a set of character strings.
pub open spec fn as_set(paths: Seq<String>) -> Set<Seq<char>> {
    Set::new(|path: Seq<char>| lists(paths, path))
}

/// What a pass is left with.
pub struct Outcome {
    /// The paths that still wait.
    pub paths: Seq<String>,
    /// Where the pass stands.
    pub phase: Phase,
    /// What is to be done next.
    pub action: SyncAction,
}

/// The pass turns to the next path that waits, or ends where none does.
pub open spec fn advance(paths: Seq<String>) -> Outcome {
    if paths.len() == 0 {
        Outcome { paths, phase: Phase::Idle, action: SyncAction::Finish }
    } else {
        Outcome {
            paths: paths.drop_first(),
            phase: Phase::Probing(paths[0]),
            action: SyncAction::Stat(paths[0]),
        }
    }
}

/// The pass asks for a connection.
pub open spec fn connect(destination: String, username: String, paths: Seq<String>) -> Outcome {
    Outcome {
        paths,
        phase: Phase::Connecting,
        action: SyncAction::Connect { destination, username },
    }
}

/// The pass waits before it asks for a connection again.
pub open spec fn back_off(paths: Seq<String>) -> Outcome {
    Outcome { paths, phase: Phase::Backoff, action: SyncAction::Sleep { millis: BACKOFF_MS } }
}

/// The pass is given up.
pub open spec fn abandon(paths: Seq<String>) -> Outcome {
    Outcome { paths, phase: Phase::Idle, action: SyncAction::Finish }
}

/// What a pass over `paths` in `phase` is left with on `event`.
///
/// A pass starts by dropping the paths that are not valid, and ends at once
/// where none is left. A connection that fails is followed by a wait of
/// `BACKOFF_MS` and another attempt; the paths stay. Once connected, each
/// path is looked at in turn: a directory is mirrored, a file copied, a path
/// that is gone removed on the remote side, anything else skipped. A path
/// whose work fails is dropped, unless the failure tells that the session
/// is lost: the path then waits again and the pass backs off. An event that
/// answers no action that was asked for ends the pass, the path at hand
/// waiting again; during a wait such an event starts the wait anew.
pub open spec fn sync_next(
    destination: String,
    username: String,
    paths: Seq<String>,
    phase: Phase,
    event: SyncEvent,
) -> Outcome {
    match (phase, event) {
        (Phase::Idle, SyncEvent::Begin) => {
            let kept = pruned(paths);
            if kept.len() == 0 {
                abandon(kept)
            } else {
                connect(destination, username, kept)
            }
        },
        (Phase::Connecting, SyncEvent::Connected) => advance(paths),
        (Phase::Connecting, SyncEvent::Failed(_)) => back_off(paths),
        (Phase::Backoff, SyncEvent::Woke) => connect(destination, username, paths),
        (Phase::Backoff, _) => back_off(paths),
        (Phase::Probing(p), SyncEvent::Found(kind)) => match kind {
            LocalKind::Directory => Outcome {
                paths,
                phase: Phase::Applying(p),
                action: SyncAction::SyncDirectory(p),
            },
            LocalKind::File => Outcome {
                paths,
                phase: Phase::Applying(p),
                action: SyncAction::CopyFile(p),
            },
            LocalKind::Missing => Outcome {
                paths,
                phase: Phase::Applying(p),
                action: SyncAction::Remove(p),
            },
            LocalKind::Other => advance(paths),
        },
        (Phase::Applying(p), SyncEvent::Applied) => advance(paths),
        (Phase::Applying(p), SyncEvent::Failed(e)) => if loses_session(e) {
            back_off(put_back(paths, p))
        } else {
            advance(paths)
        },
        (Phase::Probing(p), _) => abandon(put_back(paths, p)),
        (Phase::Applying(p), _) => abandon(put_back(paths, p)),
        _ => abandon(paths),
    }
}

/// The name of the user that runs the process: calls `whoami::username`,
/// which asks the operating system. Nothing is claimed of the result.
#[verifier::external_body]
fn current_username() -> (name: String) {
    whoami::username()
}

/// Whether one of `paths` reads as `path` does.
fn contains(paths: &Vec<String>, path: &String) -> (found: bool)
    ensures
        found == lists(paths@, path@),
{
    for i in 0..paths.len()
        invariant
            forall|k: int| 0 <= k < i ==> (#[trigger] paths@[k])@ != path@,
    {
        if paths[i] == *path {
            return true;
        }
    }
    false
}

/// The valid ones among `paths`, in their order.
fn prune(paths: &Vec<String>) -> (kept: Vec<String>)
    requires
        no_duplicates(paths@),
    ensures
        kept@ == pruned(paths@),
        no_duplicates(kept@),
{
    let mut kept: Vec<String> = Vec::new();
    let ghost keep = |p: String| is_valid(p@);
    let ghost mut from: Seq<int> = Seq::empty();
    proof {
        reveal(Seq::filter);
        assert(paths@.take(0) =~= Seq::empty());
    }
    for i in 0..paths.len()
        invariant
            keep == (|p: String| is_valid(p@)),
            no_duplicates(paths@),
            kept@ == paths@.take(i as int).filter(keep),
            from.len() == kept.len(),
            forall|a: int| 0 <= a < from.len() ==> 0 <= #[trigger] from[a] < i,
            forall|a: int| 0 <= a < from.len() ==> paths@[#[trigger] from[a]] == kept@[a],
            forall|a: int, b: int| 0 <= a < b < from.len() ==> #[trigger] from[a] < #[trigger] from[b],
    {
        proof {
            assert(paths@.take(i + 1) =~= paths@.take(i as int).push(paths@[i as int]));
            paths@.take(i as int).lemma_filter_push(paths@[i as int], keep);
        }
        if is_path_valid(paths[i].as_str()) {
            kept.push(paths[i].clone());
            proof {
                from = from.push(i as int);
            }
        }
    }
    proof {
        assert(paths@.take(paths.len() as int) =~= paths@);
        assert forall|a: int, b: int|
            0 <= a < kept.len() && 0 <= b < kept.len() && a != b implies (#[trigger] kept@[a])@ != (
        #[trigger] kept@[b])@ by {
            assert(paths@[from[a]] == kept@[a]);
            assert(paths@[from[b]] == kept@[b]);
            if a < b {
                assert(from[a] < from[b]);
            } else {
                assert(from[b] < from[a]);
            }
        }
    }
    kept
}

impl Mirror {
    /// What the type keeps: no path waits twice.
    #[verifier::type_invariant]
    spec fn inv(self) -> bool {
        no_duplicates(self.paths@)
    }

    /// The destination, as host and port.
    pub closed spec fn destination_of(self) -> String {
        self.destination
    }

    /// The name of the user on the remote side.
    pub closed spec fn username_of(self) -> String {
        self.username
    }

    /// The paths that wait, in the order in which they are taken up.
    pub closed spec fn pending(self) -> Seq<String> {
        self.paths@
    }

    /// Where the pass stands.
    pub closed spec fn phase_of(self) -> Phase {
        self.phase
    }

    /// Create a new mirror for the user that runs the process.
    ///
    /// * `destination` Destination host and port.
    pub fn new(destination: &str) -> (mirror: Mirror)
        ensures
            mirror.destination_of()@ == destination@,
            mirror.pending() == Seq::<String>::empty(),
            mirror.phase_of() == Phase::Idle,
    {
        Mirror::with_username(destination, current_username())
    }

    /// Create a new mirror for a given user.
    ///
    /// * `destination` Destination host and port.
    /// * `username` Name of the user on the remote side.
    pub fn with_username(destination: &str, username: String) -> (mirror: Mirror)
        ensures
            mirror.destination_of()@ == destination@,
            mirror.username_of() == username,
            mirror.pending() == Seq::<String>::empty(),
            mirror.phase_of() == Phase::Idle,
    {
        Mirror {
            destination: String::from_str(destination),
            paths: Vec::new(),
            username,
            phase: Phase::Idle,
        }
    }

    /// The destination, as host and port.
    pub fn destination(&self) -> (destination: &String)
        ensures
            *destination == self.destination_of(),
    {
        &self.destination
    }

    /// The name of the user on the remote side.
    pub fn username(&self) -> (username: &String)
        ensures
            *username == self.username_of(),
    {
        &self.username
    }

    /// Number of paths that wait.
    pub fn len(&self) -> (n: usize)
        ensures
            n == self.pending().len(),
    {
        self.paths.len()
    }

    /// Whether no path waits.
    pub fn is_empty(&self) -> (empty: bool)
        ensures
            empty == (self.pending().len() == 0),
    {
        self.paths.len() == 0
    }

    /// Whether a pass is under way.
    pub fn is_busy(&self) -> (busy: bool)
        ensures
            busy == !(self.phase_of() is Idle),
    {
        match self.phase {
            Phase::Idle => false,
            _ => true,
        }
    }

    /// The paths that wait, in the order in which they are taken up.
    pub fn paths(&self) -> (paths: Vec<String>)
        ensures
            paths@ == self.pending(),
            no_duplicates(paths@),
    {
        proof {
            use_type_invariant(self);
        }
        let mut paths: Vec<String> = Vec::new();
        for i in 0..self.paths.len()
            invariant
                paths@ == self.paths@.take(i as int),
        {
            paths.push(self.paths[i].clone());
            assert(self.paths@.take(i + 1) =~= self.paths@.take(i as int).push(self.paths@[i as int]));
        }
        assert(self.paths@.take(self.paths.len() as int) =~= self.paths@);
        paths
    }

    /// Add a path to be mirrored
    ///
    /// A path that is not valid is ignored, and `false` returned. A valid one
    /// waits from now on, under its canonical form where the file system
    /// gave one, unless it waits already.
    pub fn add_path(&mut self, path: String, canonical: Option<String>) -> (valid: bool)
        ensures
            valid == is_valid(path@),
            final(self).destination_of() == old(self).destination_of(),
            final(self).username_of() == old(self).username_of(),
            final(self).phase_of() == old(self).phase_of(),
            final(self).pending() == if valid {
                added(
                    old(self).pending(),
                    match canonical {
                        Some(c) => c,
                        None => path,
                    },
                )
            } else {
                old(self).pending()
            },
    {
        proof {
            use_type_invariant(&*self);
        }
        if is_path_valid(path.as_str()) {
            let path = match canonical {
                Some(c) => c,
                None => path,
            };
            if !contains(&self.paths, &path) {
                let mut paths = self.take_paths();
                paths.push(path);
                self.paths = paths;
            }
            true
        } else {
            false
        }
    }

    /// Hands out the paths that wait, leaving none.
    fn take_paths(&mut self) -> (paths: Vec<String>)
        ensures
            paths@ == old(self).pending(),
            no_duplicates(paths@),
            final(self).destination_of() == old(self).destination_of(),
            final(self).username_of() == old(self).username_of(),
            final(self).phase_of() == old(self).phase_of(),
            final(self).pending() == Seq::<String>::empty(),
    {
        proof {
            use_type_invariant(&*self);
        }
        let mut paths: Vec<String> = Vec::new();
        core::mem::swap(&mut self.paths, &mut paths);
        paths
    }

    /// Makes `path` wait again, ahead of the others.
    fn put_back(&mut self, path: String)
        ensures
            final(self).destination_of() == old(self).destination_of(),
            final(self).username_of() == old(self).username_of(),
            final(self).phase_of() == old(self).phase_of(),
            final(self).pending() == put_back(old(self).pending(), path),
    {
        proof {
            use_type_invariant(&*self);
        }
        if !contains(&self.paths, &path) {
            let mut paths = self.take_paths();
            let ghost before = paths@;
            paths.insert(0, path);
            assert(paths@ =~= seq![path] + before);
            self.paths = paths;
        }
    }

    /// Turns to the next path that waits, or ends the pass.
    fn advance(&mut self) -> (action: SyncAction)
        ensures
            final(self).destination_of() == old(self).destination_of(),
            final(self).username_of() == old(self).username_of(),
            (Outcome { paths: final(self).pending(), phase: final(self).phase_of(), action })
                == advance(old(self).pending()),
    {
        proof {
            use_type_invariant(&*self);
        }
        if self.paths.len() == 0 {
            self.phase = Phase::Idle;
            SyncAction::Finish
        } else {
            let mut paths = self.take_paths();
            let ghost before = paths@;
            let path = paths.remove(0);
            assert(paths@ =~= before.drop_first());
            self.paths = paths;
            self.phase = Phase::Probing(path.clone());
            SyncAction::Stat(path)
        }
    }

    /// Asks for a connection.
    fn connect(&mut self) -> (action: SyncAction)
        ensures
            final(self).destination_of() == old(self).destination_of(),
            final(self).username_of() == old(self).username_of(),
            (Outcome { paths: final(self).pending(), phase: final(self).phase_of(), action })
                == connect(
                old(self).destination_of(),
                old(self).username_of(),
                old(self).pending(),
            ),
    {
        proof {
            use_type_invariant(&*self);
        }
        self.phase = Phase::Connecting;
        SyncAction::Connect {
            destination: self.destination.clone(),
            username: self.username.clone(),
        }
    }

    /// Starts the wait before the next connection.
    fn back_off(&mut self) -> (action: SyncAction)
        ensures
            final(self).destination_of() == old(self).destination_of(),
            final(self).username_of() == old(self).username_of(),
            (Outcome { paths: final(self).pending(), phase: final(self).phase_of(), action })
                == back_off(old(self).pending()),
    {
        proof {
            use_type_invariant(&*self);
        }
        self.phase = Phase::Backoff;
        SyncAction::Sleep { millis: BACKOFF_MS }
    }

    /// Gives the pass up.
    fn abandon(&mut self) -> (action: SyncAction)
        ensures
            final(self).destination_of() == old(self).destination_of(),
            final(self).username_of() == old(self).username_of(),
            (Outcome { paths: final(self).pending(), phase: final(self).phase_of(), action })
                == abandon(old(self).pending()),
    {
        proof {
            use_type_invariant(&*self);
        }
        self.phase = Phase::Idle;
        SyncAction::Finish
    }

    /// The path at hand, where the pass has one.
    fn path_at_hand(&self) -> (path: Option<String>)
        ensures
            path == match self.phase_of() {
                Phase::Probing(p) => Some(p),
                Phase::Applying(p) => Some(p),
                _ => None,
            },
    {
        match &self.phase {
            Phase::Probing(p) => Some(p.clone()),
            Phase::Applying(p) => Some(p.clone()),
            _ => None,
        }
    }

    /// Decides what follows while a path is being looked at.
    fn probe(&mut self, path: String, event: SyncEvent) -> (action: SyncAction)
        requires
            old(self).phase_of() == Phase::Probing(path),
        ensures
            final(self).destination_of() == old(self).destination_of(),
            final(self).username_of() == old(self).username_of(),
            (Outcome { paths: final(self).pending(), phase: final(self).phase_of(), action })
                == sync_next(
                old(self).destination_of(),
                old(self).username_of(),
                old(self).pending(),
                old(self).phase_of(),
                event,
            ),
    {
        proof {
            use_type_invariant(&*self);
        }
        match event {
            SyncEvent::Found(LocalKind::Directory) => {
                self.phase = Phase::Applying(path.clone());
                SyncAction::SyncDirectory(path)
            },
            SyncEvent::Found(LocalKind::File) => {
                self.phase = Phase::Applying(path.clone());
                SyncAction::CopyFile(path)
            },
            SyncEvent::Found(LocalKind::Missing) => {
                self.phase = Phase::Applying(path.clone());
                SyncAction::Remove(path)
            },
            SyncEvent::Found(LocalKind::Other) => self.advance(),
            _ => {
                self.put_back(path);
                self.abandon()
            },
        }
    }

    /// Decides what follows while a path is being brought over.
    fn apply(&mut self, path: String, event: SyncEvent) -> (action: SyncAction)
        requires
            old(self).phase_of() == Phase::Applying(path),
        ensures
            final(self).destination_of() == old(self).destination_of(),
            final(self).username_of() == old(self).username_of(),
            (Outcome { paths: final(self).pending(), phase: final(self).phase_of(), action })
                == sync_next(
                old(self).destination_of(),
                old(self).username_of(),
                old(self).pending(),
                old(self).phase_of(),
                event,
            ),
    {
        match event {
            SyncEvent::Applied => self.advance(),
            SyncEvent::Failed(e) => {
                if e.is_session_failure() {
                    self.put_back(path);
                    self.back_off()
                } else {
                    self.advance()
                }
            },
            _ => {
                self.put_back(path);
                self.abandon()
            },
        }
    }

    /// Decides what follows while no path is at hand.
    fn settle(&mut self, event: SyncEvent) -> (action: SyncAction)
        requires
            old(self).phase_of() is Idle || old(self).phase_of() is Connecting || old(
                self,
            ).phase_of() is Backoff,
        ensures
            final(self).destination_of() == old(self).destination_of(),
            final(self).username_of() == old(self).username_of(),
            (Outcome { paths: final(self).pending(), phase: final(self).phase_of(), action })
                == sync_next(
                old(self).destination_of(),
                old(self).username_of(),
                old(self).pending(),
                old(self).phase_of(),
                event,
            ),
    {
        proof {
            use_type_invariant(&*self);
        }
        let connecting = match self.phase {
            Phase::Connecting => true,
            _ => false,
        };
        let waiting = match self.phase {
            Phase::Backoff => true,
            _ => false,
        };
        if waiting {
            match event {
                SyncEvent::Woke => self.connect(),
                _ => self.back_off(),
            }
        } else if connecting {
            match event {
                SyncEvent::Connected => self.advance(),
                SyncEvent::Failed(_) => self.back_off(),
                _ => self.abandon(),
            }
        } else {
            match event {
                SyncEvent::Begin => {
                    self.paths = prune(&self.paths);
                    if self.paths.len() == 0 {
                        self.abandon()
                    } else {
                        self.connect()
                    }
                },
                _ => self.abandon(),
            }
        }
    }

    /// Copy all paths: takes what came of the last action of the pass and
    /// decides the next one.
    pub fn copy_all(&mut self, event: SyncEvent) -> (action: SyncAction)
        ensures
            final(self).destination_of() == old(self).destination_of(),
            final(self).username_of() == old(self).username_of(),
            (Outcome { paths: final(self).pending(), phase: final(self).phase_of(), action })
                == sync_next(
                old(self).destination_of(),
                old(self).username_of(),
                old(self).pending(),
                old(self).phase_of(),
                event,
            ),
    {
        proof {
            use_type_invariant(&*self);
        }
        let applying = match self.phase {
            Phase::Applying(_) => true,
            _ => false,
        };
        match self.path_at_hand() {
            Some(path) => {
                if applying {
                    self.apply(path, event)
                } else {
                    self.probe(path, event)
                }
            },
            None => self.settle(event),
        }
    }
}

/// What the paths read after one was added is what they read before, with
/// what the new one reads at the end unless it was there.
pub proof fn lemma_added_view(paths: Seq<String>, path: String)
    ensures
        lists(paths, path@) <==> views(paths).contains(path@),
        views(added(paths, path)) == added_view(views(paths), path@),
{
    let read = views(paths);
    if lists(paths, path@) {
        let i = choose|i: int| 0 <= i < paths.len() && (#[trigger] paths[i])@ == path@;
        assert(read[i] == path@);
    }
    if read.contains(path@) {
        let i = choose|i: int| 0 <= i < read.len() && read[i] == path@;
        assert(paths[i]@ == path@);
    }
    assert(views(added(paths, path)) =~= added_view(read, path@));
}

/// Debounce: a path that is added again, however often, waits once. Adding
/// it a second time changes nothing, it is among the paths afterwards, and
/// no path is there twice.
pub proof fn lemma_add_collapses(paths: Seq<String>, path: String, again: String)
    requires
        no_duplicates(paths),
        again@ == path@,
    ensures
        added(added(paths, path), again) == added(paths, path),
        lists(added(paths, path), path@),
        no_duplicates(added(paths, path)),
        as_set(added(paths, path)) == as_set(paths).insert(path@),
{
    let after = added(paths, path);
    if !lists(paths, path@) {
        assert(after[paths.len() as int] == path);
        assert forall|i: int, j: int|
            0 <= i < after.len() && 0 <= j < after.len() && i != j implies (#[trigger] after[i])@
            != (#[trigger] after[j])@ by {
            if i < paths.len() {
                assert(paths[i] == after[i]);
            }
            if j < paths.len() {
                assert(paths[j] == after[j]);
            }
        }
    }
    assert(lists(after, path@));
    assert forall|p: Seq<char>| as_set(after).contains(p) <==> as_set(paths).insert(
        path@,
    ).contains(p) by {
        if lists(after, p) {
            let i = choose|i: int| 0 <= i < after.len() && (#[trigger] after[i])@ == p;
            if i < paths.len() {
                assert(paths[i]@ == p);
            }
        }
        if lists(paths, p) {
            let i = choose|i: int| 0 <= i < paths.len() && (#[trigger] paths[i])@ == p;
            assert(after[i]@ == p);
        }
    }
    assert(as_set(after) =~= as_set(paths).insert(path@));
}

/// A pass that finds nothing waiting ends at once: no connection is asked
/// for and nothing is copied or removed. So it is with the pass that
/// follows one that ran to its end, unless a change came in between.
pub proof fn lemma_pass_over_nothing(destination: String, username: String)
    ensures
        sync_next(destination, username, Seq::empty(), Phase::Idle, SyncEvent::Begin) == (Outcome {
            paths: Seq::empty(),
            phase: Phase::Idle,
            action: SyncAction::Finish,
        }),
{
    reveal(Seq::filter);
    assert(pruned(Seq::<String>::empty()) =~= Seq::<String>::empty());
}

/// Reconnect backoff: a connection that fails is followed by a wait of
/// `BACKOFF_MS`, with every path still waiting; and while the pass waits,
/// a connection is asked for only once the wait is over: any other event
/// starts the wait anew.
pub proof fn lemma_reconnect_backoff(
    destination: String,
    username: String,
    paths: Seq<String>,
    cause: Error,
    event: SyncEvent,
)
    ensures
        sync_next(destination, username, paths, Phase::Connecting, SyncEvent::Failed(cause))
            == (Outcome {
            paths,
            phase: Phase::Backoff,
            action: SyncAction::Sleep { millis: BACKOFF_MS },
        }),
        sync_next(destination, username, paths, Phase::Backoff, event).action is Connect
            <==> event is Woke,
        !(event is Woke) ==> sync_next(destination, username, paths, Phase::Backoff, event)
            == (Outcome {
            paths,
            phase: Phase::Backoff,
            action: SyncAction::Sleep { millis: BACKOFF_MS },
        }),
{
}

} // verus!
