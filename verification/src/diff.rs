//! Bringing a remote directory in line with a local one: which files are to
//! be copied and which remote files are to be removed. A file's size alone
//! tells whether the remote copy is current.

use vstd::prelude::*;
use vstd::string::*;
use crate::error::loses_session;
use crate::error::Error;
use crate::path::is_path_valid;
use crate::path::is_valid;

verus! {

/// `ssh2::FileStat`: the metadata of a remote file, each field there only
/// where the remote side gave it.
#[verifier::external_type_specification]
pub struct ExFileStat(ssh2::FileStat);

/// The bits of a mode that tell the type of a file.
pub const MODE_TYPE_MASK: u32 = 0o170000;

/// The type bits of a regular file.
pub const MODE_REGULAR: u32 = 0o100000;

/// A row of a remote directory listing.
#[derive(Debug, PartialEq, Eq)]
pub struct RemoteEntry {
    /// Path of the entry.
    pub path: String,
    /// Whether the entry is a regular file.
    pub is_file: bool,
    /// Size in bytes, where the remote side reported one.
    pub size: Option<u64>,
}

/// An entry of a local directory.
#[derive(Debug, PartialEq, Eq)]
pub enum LocalEntry {
    /// The entry or its metadata could not be read.
    Unreadable,
    /// An entry with readable metadata.
    Found { path: String, is_file: bool, len: u64 },
}

/// One step that brings the remote side closer to the local one.
#[derive(Debug, PartialEq, Eq)]
pub enum SyncOp {
    /// Copy the local file of this path to the remote side.
    Copy(String),
    /// Remove the remote file of this path.
    Remove(String),
}

/// Whether the mode of a remote file is that of a regular file. A file
/// whose mode is unknown is none.
pub open spec fn is_regular(perm: Option<u32>) -> bool {
    match perm {
        Some(mode) => mode & MODE_TYPE_MASK == MODE_REGULAR,
        None => false,
    }
}

/// The path and length of a local entry that is a readable regular file.
pub open spec fn file_of(entry: LocalEntry) -> Option<(String, u64)> {
    match entry {
        LocalEntry::Found { path, is_file, len } => if is_file {
            Some((path, len))
        } else {
            None
        },
        LocalEntry::Unreadable => None,
    }
}

/// The size that a remote entry counts with: zero where none was reported.
pub open spec fn size_of(entry: RemoteEntry) -> u64 {
    match entry.size {
        Some(size) => size,
        None => 0,
    }
}

/// The regular files of a remote listing, in its order.
pub open spec fn regular(listing: Seq<RemoteEntry>) -> Seq<RemoteEntry> {
    listing.filter(|e: RemoteEntry| e.is_file)
}

/// Index of the first entry at or after `from` with this path, or the
/// length of `remote` where there is none.
pub open spec fn first_match(remote: Seq<RemoteEntry>, path: Seq<char>, from: int) -> int
    decreases remote.len() - from,
{
    if from >= remote.len() {
        remote.len() as int
    } else if remote[from].path@ == path {
        from
    } else {
        first_match(remote, path, from + 1)
    }
}

/// `remote` without its entry at `i`, whose place the last entry takes.
pub open spec fn without(remote: Seq<RemoteEntry>, i: int) -> Seq<RemoteEntry> {
    remote.update(i, remote.last()).drop_last()
}

/// `remote` without the first entry that has this path, if there is one.
pub open spec fn unmatch(remote: Seq<RemoteEntry>, path: Seq<char>) -> Seq<RemoteEntry> {
    let i = first_match(remote, path, 0);
    if i < remote.len() {
        without(remote, i)
    } else {
        remote
    }
}

/// Whether a local file of this path and length is out of date on the remote
/// side: no entry of `remote` has its path, or the first that does has
/// another size.
pub open spec fn is_stale(remote: Seq<RemoteEntry>, path: Seq<char>, len: u64) -> bool {
    let i = first_match(remote, path, 0);
    i == remote.len() || size_of(remote[i]) != len
}

/// The remote entries that the first `n` local entries have not claimed.
/// Each local file claims the first remaining entry of its path.
pub open spec fn unmatched(local: Seq<LocalEntry>, remote: Seq<RemoteEntry>, n: nat) -> Seq<
    RemoteEntry,
>
    decreases n,
{
    if n == 0 {
        remote
    } else {
        let rest = unmatched(local, remote, (n - 1) as nat);
        match file_of(local[n - 1]) {
            Some((path, len)) => unmatch(rest, path@),
            None => rest,
        }
    }
}

/// The copies that the first `n` local entries call for, in their order:
/// one for each regular file with a valid path that is stale among the
/// remote entries still unclaimed when its turn comes.
pub open spec fn copy_ops(local: Seq<LocalEntry>, remote: Seq<RemoteEntry>, n: nat) -> Seq<SyncOp>
    decreases n,
{
    if n == 0 {
        Seq::empty()
    } else {
        let before = copy_ops(local, remote, (n - 1) as nat);
        let rest = unmatched(local, remote, (n - 1) as nat);
        match file_of(local[n - 1]) {
            Some((path, len)) => if is_valid(path@) && is_stale(rest, path@, len) {
                before.push(SyncOp::Copy(path))
            } else {
                before
            },
            None => before,
        }
    }
}

/// The removals that a sequence of unclaimed remote entries calls for: one
/// for each with a valid path, in their order.
pub open spec fn remove_ops(rest: Seq<RemoteEntry>) -> Seq<SyncOp> {
    rest.filter(|e: RemoteEntry| is_valid(e.path@)).map_values(
        |e: RemoteEntry| SyncOp::Remove(e.path),
    )
}

/// What brings the remote directory of `listing` in line with the local
/// entries: the copies, then the removals.
pub open spec fn plan(local: Seq<LocalEntry>, listing: Seq<RemoteEntry>) -> Seq<SyncOp> {
    let remote = regular(listing);
    copy_ops(local, remote, local.len()) + remove_ops(unmatched(local, remote, local.len()))
}

/// `ssh2::FileStat::is_file`: whether the metadata is for a regular file.
/// It is where the type bits of the mode are those of a regular file; a
/// mode that is missing counts as zero, which they are not.
#[verifier::external_body]
fn stat_is_file(stat: &ssh2::FileStat) -> (regular: bool)
    ensures
        regular == is_regular(stat.perm),
{
    stat.is_file()
}

impl RemoteEntry {
    /// The row for a path and the metadata that the remote side gave for it.
    pub fn from_stat(path: String, stat: &ssh2::FileStat) -> (entry: RemoteEntry)
        ensures
            entry == (RemoteEntry { path, is_file: is_regular(stat.perm), size: stat.size }),
    {
        RemoteEntry { path, is_file: stat_is_file(stat), size: stat.size }
    }

    /// A copy of the entry.
    pub fn duplicate(&self) -> (copy: RemoteEntry)
        ensures
            copy == *self,
    {
        RemoteEntry { path: self.path.clone(), is_file: self.is_file, size: self.size }
    }
}

/// Read remote directory with sftp: keeps the regular files of a listing.
pub fn sftp_read_dir(listing: &Vec<RemoteEntry>) -> (remote: Vec<RemoteEntry>)
    ensures
        remote@ == regular(listing@),
{
    let mut remote: Vec<RemoteEntry> = Vec::new();
    let ghost pred = |e: RemoteEntry| e.is_file;
    proof {
        reveal(Seq::filter);
        assert(listing@.take(0) =~= Seq::empty());
    }
    for i in 0..listing.len()
        invariant
            pred == (|e: RemoteEntry| e.is_file),
            remote@ == listing@.take(i as int).filter(pred),
    {
        proof {
            assert(listing@.take(i + 1) =~= listing@.take(i as int).push(listing@[i as int]));
            listing@.take(i as int).lemma_filter_push(listing@[i as int], pred);
        }
        if listing[i].is_file {
            remote.push(listing[i].duplicate());
        }
    }
    assert(listing@.take(listing.len() as int) =~= listing@);
    remote
}

/// Get the path and length of a directory entry file.
pub fn path_len(entry: &LocalEntry) -> (r: Option<(String, u64)>)
    ensures
        r == file_of(*entry),
{
    match entry {
        LocalEntry::Found { path, is_file, len } => {
            if *is_file {
                Some((path.clone(), *len))
            } else {
                None
            }
        },
        LocalEntry::Unreadable => None,
    }
}

/// Check if a file should be mirrored: it has no remote entry, or one of
/// another size.
pub fn should_mirror(rfile: Option<RemoteEntry>, len: u64) -> (stale: bool)
    ensures
        stale == match rfile {
            None => true,
            Some(entry) => size_of(entry) != len,
        },
{
    match rfile {
        None => true,
        Some(entry) => {
            let rlen: u64 = match entry.size {
                Some(size) => size,
                None => 0,
            };
            len != rlen
        },
    }
}

/// Position of the first entry with this path.
fn position(remote: &Vec<RemoteEntry>, path: &String) -> (pos: Option<usize>)
    ensures
        match pos {
            Some(i) => i < remote.len() && i == first_match(remote@, path@, 0),
            None => first_match(remote@, path@, 0) == remote.len(),
        },
{
    let mut i: usize = 0;
    while i < remote.len()
        invariant
            i <= remote.len(),
            first_match(remote@, path@, 0) == first_match(remote@, path@, i as int),
        decreases remote.len() - i,
    {
        if remote[i].path == *path {
            return Some(i);
        }
        i = i + 1;
    }
    None
}

/// Mirror one directory to destination host: plans what there is to do.
///
/// Of the remote listing only the regular files count. Each local entry
/// that is a readable regular file claims the first remote entry of its
/// path that is still unclaimed, and is copied where its path is valid and
/// it found no such entry or one of another size. The copies come first, in
/// the order of the local entries. The remote files that no local file
/// claimed are then removed, where their path is valid.
pub fn mirror_directory(local: &Vec<LocalEntry>, listing: &Vec<RemoteEntry>) -> (ops: Vec<SyncOp>)
    ensures
        ops@ == plan(local@, listing@),
{
    let mut remote = sftp_read_dir(listing);
    let mut ops: Vec<SyncOp> = Vec::new();
    for n in 0..local.len()
        invariant
            remote@ == unmatched(local@, regular(listing@), n as nat),
            ops@ == copy_ops(local@, regular(listing@), n as nat),
    {
        if let Some((path, len)) = path_len(&local[n]) {
            let pos = position(&remote, &path);
            let rfile = match pos {
                Some(i) => Some(remote.swap_remove(i)),
                None => None,
            };
            if is_path_valid(path.as_str()) && should_mirror(rfile, len) {
                ops.push(SyncOp::Copy(path));
            }
        }
    }
    // remove files which are not in the local directory
    let ghost copies = ops@;
    let ghost keep = |e: RemoteEntry| is_valid(e.path@);
    let ghost removal = |e: RemoteEntry| SyncOp::Remove(e.path);
    proof {
        reveal(Seq::filter);
        assert(remote@.take(0) =~= Seq::empty());
        assert(ops@ =~= copies + remote@.take(0).filter(keep).map_values(removal));
    }
    for i in 0..remote.len()
        invariant
            keep == (|e: RemoteEntry| is_valid(e.path@)),
            removal == (|e: RemoteEntry| SyncOp::Remove(e.path)),
            ops@ == copies + remote@.take(i as int).filter(keep).map_values(removal),
    {
        proof {
            let seen = remote@.take(i as int);
            assert(remote@.take(i + 1) =~= seen.push(remote@[i as int]));
            seen.lemma_filter_push(remote@[i as int], keep);
            if keep(remote@[i as int]) {
                assert(seen.filter(keep).push(remote@[i as int]).map_values(removal)
                    =~= seen.filter(keep).map_values(removal).push(removal(remote@[i as int])));
            }
        }
        if is_path_valid(remote[i].path.as_str()) {
            ops.push(SyncOp::Remove(remote[i].path.clone()));
        }
    }
    assert(remote@.take(remote.len() as int) =~= remote@);
    ops
}

/// What came of the step that was asked for last.
#[derive(Debug, PartialEq, Eq)]
pub enum OpEvent {
    /// The steps are to start.
    Begin,
    /// The step went through.
    Applied,
    /// The step failed.
    Failed(Error),
}

/// What is to be done next.
#[derive(Debug, PartialEq, Eq)]
pub enum OpAction {
    /// Carry this step out.
    Apply(SyncOp),
    /// Nothing more: the directory is done, well or not.
    Finish(Result<(), Error>),
}

/// The plan of a directory, as far as it has been carried out.
pub struct DirectorySync {
    /// The steps of the plan.
    pub ops: Vec<SyncOp>,
    /// The step that is being carried out: none before the first was asked
    /// for, and the number of steps once no more will be.
    pub cursor: Option<usize>,
}

/// The action for the step at `i`: to carry it out, or to finish where the
/// plan has no such step.
pub open spec fn step_at(ops: Seq<SyncOp>, i: int) -> OpAction {
    if 0 <= i < ops.len() {
        OpAction::Apply(ops[i])
    } else {
        OpAction::Finish(Ok(()))
    }
}

/// The cursor that follows `cursor` on `event`, and the action to take.
///
/// The steps are asked for one after the other. A step that fails is passed
/// over, unless the failure tells that the session is lost: the directory
/// then ends with that error. Once the last step is through the directory
/// is done. An event that answers no step that was asked for ends it with
/// `InvalidArgs`.
pub open spec fn sync_step(ops: Seq<SyncOp>, cursor: Option<usize>, event: OpEvent) -> (
    Option<usize>,
    OpAction,
) {
    let end = Some(ops.len() as usize);
    match (cursor, event) {
        (None, OpEvent::Begin) => (Some(0), step_at(ops, 0)),
        (Some(i), OpEvent::Applied) => if i < ops.len() {
            (Some((i + 1) as usize), step_at(ops, i + 1))
        } else {
            (end, OpAction::Finish(Ok(())))
        },
        (Some(i), OpEvent::Failed(e)) => if i < ops.len() {
            if loses_session(e) {
                (end, OpAction::Finish(Err(e)))
            } else {
                (Some((i + 1) as usize), step_at(ops, i + 1))
            }
        } else {
            (end, OpAction::Finish(Ok(())))
        },
        (Some(i), OpEvent::Begin) => if i < ops.len() {
            (end, OpAction::Finish(Err(Error::InvalidArgs)))
        } else {
            (end, OpAction::Finish(Ok(())))
        },
        (None, _) => (end, OpAction::Finish(Err(Error::InvalidArgs))),
    }
}

impl SyncOp {
    /// A copy of the step.
    pub fn duplicate(&self) -> (copy: SyncOp)
        ensures
            copy == *self,
    {
        match self {
            SyncOp::Copy(path) => SyncOp::Copy(path.clone()),
            SyncOp::Remove(path) => SyncOp::Remove(path.clone()),
        }
    }
}

impl DirectorySync {
    /// The plan for a directory, of which nothing is carried out yet.
    pub fn new(local: &Vec<LocalEntry>, listing: &Vec<RemoteEntry>) -> (sync: DirectorySync)
        ensures
            sync.ops@ == plan(local@, listing@),
            sync.cursor is None,
    {
        DirectorySync { ops: mirror_directory(local, listing), cursor: None }
    }

    /// The action for the step at `i`.
    fn at(&self, i: usize) -> (action: OpAction)
        ensures
            action == step_at(self.ops@, i as int),
    {
        if i < self.ops.len() {
            OpAction::Apply(self.ops[i].duplicate())
        } else {
            OpAction::Finish(Ok(()))
        }
    }

    /// Ends the directory.
    fn end(&mut self, result: Result<(), Error>) -> (action: OpAction)
        ensures
            final(self).ops == old(self).ops,
            final(self).cursor == Some(old(self).ops@.len() as usize),
            action == OpAction::Finish(result),
    {
        self.cursor = Some(self.ops.len());
        OpAction::Finish(result)
    }

    /// Takes what came of the last step and decides the next one.
    pub fn step(&mut self, event: OpEvent) -> (action: OpAction)
        ensures
            final(self).ops == old(self).ops,
            (final(self).cursor, action) == sync_step(old(self).ops@, old(self).cursor, event),
    {
        match self.cursor {
            None => match event {
                OpEvent::Begin => {
                    self.cursor = Some(0);
                    self.at(0)
                },
                _ => self.end(Err(Error::InvalidArgs)),
            },
            Some(i) => {
                if i >= self.ops.len() {
                    return self.end(Ok(()));
                }
                match event {
                    OpEvent::Applied => {
                        self.cursor = Some(i + 1);
                        self.at(i + 1)
                    },
                    OpEvent::Failed(e) => {
                        if e.is_session_failure() {
                            self.end(Err(e))
                        } else {
                            self.cursor = Some(i + 1);
                            self.at(i + 1)
                        }
                    },
                    OpEvent::Begin => self.end(Err(Error::InvalidArgs)),
                }
            },
        }
    }
}

} // verus!
