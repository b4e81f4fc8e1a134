//! Copying one file to the remote host so that its final name never shows a
//! part of it: the content goes to a temporary name first and is renamed
//! once all of it has arrived.
//!
//! The steps are decided here; whoever drives a [`Transfer`] performs each
//! action that `copy_file` hands out and reports what came of it.

use vstd::prelude::*;
use vstd::string::*;
use crate::error::Error;
use crate::error::SshCode;
use crate::flags::open_bits;
use crate::flags::open_flags;
use crate::flags::open_request;
use crate::flags::rename_bits;
use crate::flags::rename_flags;
use crate::flags::rename_request;
use crate::path::backup_file;
use crate::path::backup_name;
use crate::path::join;
use crate::path::parent;

verus! {

/// Use 64 KB buffers
pub const CAPACITY: usize = 65536;

/// The permission bits that are handed on: the low twelve.
pub const MODE_MASK: u32 = 0o7777;

/// SFTP status: the operation failed, with no reason given.
pub const SFTP_FAILURE: i32 = 4;

/// SFTP status: the file exists already.
pub const SFTP_FILE_ALREADY_EXISTS: i32 = 11;

/// SFTP status that some servers give where the destination exists.
pub const SFTP_DESTINATION_EXISTS: i32 = 31;

/// How far a transfer has come.
#[derive(Debug, PartialEq, Eq)]
pub enum TransferState {
    /// Nothing has been asked for yet.
    Idle,
    /// The local file is being opened.
    OpeningSource,
    /// The temporary file is being opened; `len` is the source's length.
    OpeningTemp { len: u64 },
    /// The content is being copied.
    Copying { len: u64 },
    /// The temporary file is being closed after `copied` bytes were written.
    Closing { len: u64, copied: u64 },
    /// The temporary file is being renamed; `retried` once the destination
    /// was removed for it.
    Renaming { retried: bool },
    /// The destination that stood in the way of the rename is being removed.
    Removing,
    /// The file has arrived under its final name.
    Done,
    /// The transfer was given up.
    Failed(Error),
}

/// What came of the action that was asked for last.
#[derive(Debug, PartialEq, Eq)]
pub enum TransferEvent {
    /// The transfer is to start.
    Begin,
    /// The local file is open; its length and its mode bits.
    SourceOpened { len: u64, mode: u32 },
    /// The temporary file is open.
    TempOpened,
    /// The copy has ended after writing `bytes` bytes.
    Copied { bytes: u64 },
    /// The temporary file is closed.
    TempClosed,
    /// The rename went through.
    Renamed,
    /// The destination was removed.
    Removed,
    /// The action failed.
    Failed(Error),
}

/// What is to be done next.
#[derive(Debug, PartialEq, Eq)]
pub enum TransferAction {
    /// Open the local file and read its length and mode.
    OpenSource { path: String },
    /// Open the remote temporary file with these flags and these permission
    /// bits.
    OpenTemp { path: String, open_flags: ssh2::OpenFlags, mode: i32 },
    /// Copy the content through buffers of `capacity` bytes on both sides.
    Copy { capacity: usize },
    /// Close the temporary file.
    CloseTemp,
    /// Rename the temporary file onto the final name, with these flags.
    Rename { from: String, to: String, rename_flags: Option<ssh2::RenameFlags> },
    /// Remove the remote file.
    Remove { path: String },
    /// Nothing more: the state holds the outcome.
    Finish,
}

/// What is to be done next, with each set of flags told by its bits.
pub enum Step {
    /// Open the local file and read its length and mode.
    OpenSource { path: String },
    /// Open the remote temporary file with these flags and these permission
    /// bits.
    OpenTemp { path: String, open_flags: Set<int>, mode: i32 },
    /// Copy the content through buffers of `capacity` bytes on both sides.
    Copy { capacity: usize },
    /// Close the temporary file.
    CloseTemp,
    /// Rename the temporary file onto the final name, with these flags.
    Rename { from: String, to: String, rename_flags: Option<Set<int>> },
    /// Remove the remote file.
    Remove { path: String },
    /// Nothing more: the state holds the outcome.
    Finish,
}

impl View for TransferAction {
    type V = Step;

    open spec fn view(&self) -> Step {
        match *self {
            TransferAction::OpenSource { path } => Step::OpenSource { path },
            TransferAction::OpenTemp { path, open_flags, mode } => Step::OpenTemp {
                path,
                open_flags: open_bits(open_flags),
                mode,
            },
            TransferAction::Copy { capacity } => Step::Copy { capacity },
            TransferAction::CloseTemp => Step::CloseTemp,
            TransferAction::Rename { from, to, rename_flags } => Step::Rename {
                from,
                to,
                rename_flags: match rename_flags {
                    Some(f) => Some(rename_bits(f)),
                    None => None,
                },
            },
            TransferAction::Remove { path } => Step::Remove { path },
            TransferAction::Finish => Step::Finish,
        }
    }
}

/// The transfer of one file.
pub struct Transfer {
    /// The file, which has the same name on both sides.
    pub path: String,
    /// The temporary name on the remote side.
    pub backup: String,
    /// How far the transfer has come.
    pub state: TransferState,
}

/// Whether an error says that a rename found its destination in place.
pub open spec fn is_conflict(e: Error) -> bool {
    e matches Error::Ssh(SshCode::Sftp(c), _) && (c == SFTP_FAILURE || c
        == SFTP_FILE_ALREADY_EXISTS || c == SFTP_DESTINATION_EXISTS)
}

/// The permission bits that a temporary file is opened with.
pub open spec fn masked_mode(mode: u32) -> i32 {
    (mode & MODE_MASK) as i32
}

/// Whether a transfer has ended.
pub open spec fn is_finished(state: TransferState) -> bool {
    state is Done || state is Failed
}

/// The state that follows `state` on `event`, and the action to take.
///
/// The temporary file is opened for writing, created if there is none and
/// truncated if there is one. Each rename asks to overwrite, to be atomic
/// and to use the native system calls.
pub open spec fn next(path: String, backup: String, state: TransferState, event: TransferEvent) -> (
    TransferState,
    Step,
) {
    if is_finished(state) {
        (state, Step::Finish)
    } else {
        match (state, event) {
            (TransferState::Idle, TransferEvent::Begin) => (
                TransferState::OpeningSource,
                Step::OpenSource { path },
            ),
            (TransferState::OpeningSource, TransferEvent::SourceOpened { len, mode }) => (
                TransferState::OpeningTemp { len },
                Step::OpenTemp {
                    path: backup,
                    open_flags: open_request(),
                    mode: masked_mode(mode),
                },
            ),
            (TransferState::OpeningTemp { len }, TransferEvent::TempOpened) => (
                TransferState::Copying { len },
                Step::Copy { capacity: CAPACITY },
            ),
            (TransferState::Copying { len }, TransferEvent::Copied { bytes }) => (
                TransferState::Closing { len, copied: bytes },
                Step::CloseTemp,
            ),
            (TransferState::Closing { len, copied }, TransferEvent::TempClosed) => if copied
                == len {
                (
                    TransferState::Renaming { retried: false },
                    Step::Rename {
                        from: backup,
                        to: path,
                        rename_flags: Some(rename_request()),
                    },
                )
            } else {
                (TransferState::Failed(Error::CopyLength(copied, len)), Step::Finish)
            },
            (TransferState::Renaming { retried }, TransferEvent::Renamed) => (
                TransferState::Done,
                Step::Finish,
            ),
            (TransferState::Renaming { retried }, TransferEvent::Failed(e)) => if !retried
                && is_conflict(e) {
                (TransferState::Removing, Step::Remove { path })
            } else {
                (TransferState::Failed(e), Step::Finish)
            },
            (TransferState::Removing, TransferEvent::Removed) => (
                TransferState::Renaming { retried: true },
                Step::Rename {
                    from: backup,
                    to: path,
                    rename_flags: Some(rename_request()),
                },
            ),
            (_, TransferEvent::Failed(e)) => (TransferState::Failed(e), Step::Finish),
            _ => (TransferState::Failed(Error::InvalidArgs), Step::Finish),
        }
    }
}

/// Checks whether an error says that a rename found its destination in
/// place: an SFTP status of 4, 11 or 31.
pub fn is_rename_conflict(e: &Error) -> (conflict: bool)
    ensures
        conflict == is_conflict(*e),
{
    match e {
        Error::Ssh(SshCode::Sftp(c), _) => *c == SFTP_FAILURE || *c == SFTP_FILE_ALREADY_EXISTS
            || *c == SFTP_DESTINATION_EXISTS,
        _ => false,
    }
}

/// Masks off the higher mode bits, which the remote side would refuse.
pub fn transfer_mode(mode: u32) -> (masked: i32)
    ensures
        masked == masked_mode(mode),
        0 <= masked <= 0o7777,
{
    let low: u32 = mode & MODE_MASK;
    assert(low <= 0o7777) by (bit_vector)
        requires
            low == mode & 0o7777u32,
    ;
    low as i32
}

impl Transfer {
    /// A transfer of `path` that has not started. Its temporary name is
    /// `.mere~` in the directory of `path`.
    pub fn new(path: String) -> (t: Transfer)
        requires
            parent(path@) is Some,
        ensures
            t.path == path,
            t.backup@ == join(parent(path@).unwrap(), backup_name()),
            t.state == TransferState::Idle,
    {
        let backup = backup_file(path.as_str());
        Transfer { path, backup, state: TransferState::Idle }
    }

    /// Whether the transfer has ended, well or not.
    pub fn finished(&self) -> (b: bool)
        ensures
            b == is_finished(self.state),
    {
        match self.state {
            TransferState::Done => true,
            TransferState::Failed(_) => true,
            _ => false,
        }
    }

    /// Gives the transfer up.
    fn fail(&mut self, e: Error) -> (action: TransferAction)
        ensures
            final(self).path == old(self).path,
            final(self).backup == old(self).backup,
            final(self).state == TransferState::Failed(e),
            action@ == Step::Finish,
    {
        self.state = TransferState::Failed(e);
        TransferAction::Finish
    }

    /// Asks for the rename of the temporary file onto the final name.
    fn rename(&mut self, retried: bool) -> (action: TransferAction)
        ensures
            final(self).path == old(self).path,
            final(self).backup == old(self).backup,
            final(self).state == (TransferState::Renaming { retried }),
            action@ == (Step::Rename {
                from: old(self).backup,
                to: old(self).path,
                rename_flags: Some(rename_request()),
            }),
    {
        self.state = TransferState::Renaming { retried };
        TransferAction::Rename {
            from: self.backup.clone(),
            to: self.path.clone(),
            rename_flags: rename_flags(),
        }
    }

    /// Rename a remote sftp file: takes what came of a rename and decides
    /// what follows. Where the rename was refused because the destination
    /// exists, the destination is removed and the rename tried once more.
    pub fn rename_file(&mut self, retried: bool, event: TransferEvent) -> (action: TransferAction)
        requires
            old(self).state == (TransferState::Renaming { retried }),
        ensures
            final(self).path == old(self).path,
            final(self).backup == old(self).backup,
            (final(self).state, action@) == next(
                old(self).path,
                old(self).backup,
                old(self).state,
                event,
            ),
    {
        match event {
            TransferEvent::Renamed => {
                self.state = TransferState::Done;
                TransferAction::Finish
            },
            TransferEvent::Failed(e) => {
                if !retried && is_rename_conflict(&e) {
                    self.state = TransferState::Removing;
                    TransferAction::Remove { path: self.path.clone() }
                } else {
                    self.fail(e)
                }
            },
            _ => self.fail(Error::InvalidArgs),
        }
    }

    /// Copy one file with sftp: takes what came of the last action and
    /// decides the next one.
    ///
    /// The source is opened first, then the temporary file with the source's
    /// low twelve mode bits. The content is copied and the temporary file
    /// closed. Only where as many bytes were written as the source holds is
    /// it renamed onto the final name; otherwise the transfer fails with
    /// `CopyLength` and the temporary file stays. A failure of any action
    /// ends the transfer with that error, and so does an event that answers
    /// no action that was asked for, with `InvalidArgs`.
    pub fn copy_file(&mut self, event: TransferEvent) -> (action: TransferAction)
        ensures
            final(self).path == old(self).path,
            final(self).backup == old(self).backup,
            (final(self).state, action@) == next(
                old(self).path,
                old(self).backup,
                old(self).state,
                event,
            ),
    {
        if self.finished() {
            return TransferAction::Finish;
        }
        match self.state {
            TransferState::Renaming { retried } => {
                return self.rename_file(retried, event);
            },
            _ => {},
        }
        match event {
            TransferEvent::Begin => match self.state {
                TransferState::Idle => {
                    self.state = TransferState::OpeningSource;
                    TransferAction::OpenSource { path: self.path.clone() }
                },
                _ => self.fail(Error::InvalidArgs),
            },
            TransferEvent::SourceOpened { len, mode } => match self.state {
                TransferState::OpeningSource => {
                    self.state = TransferState::OpeningTemp { len };
                    TransferAction::OpenTemp {
                        path: self.backup.clone(),
                        open_flags: open_flags(),
                        mode: transfer_mode(mode),
                    }
                },
                _ => self.fail(Error::InvalidArgs),
            },
            TransferEvent::TempOpened => match self.state {
                TransferState::OpeningTemp { len } => {
                    self.state = TransferState::Copying { len };
                    TransferAction::Copy { capacity: CAPACITY }
                },
                _ => self.fail(Error::InvalidArgs),
            },
            TransferEvent::Copied { bytes } => match self.state {
                TransferState::Copying { len } => {
                    self.state = TransferState::Closing { len, copied: bytes };
                    TransferAction::CloseTemp
                },
                _ => self.fail(Error::InvalidArgs),
            },
            TransferEvent::TempClosed => match self.state {
                TransferState::Closing { len, copied } => {
                    if copied == len {
                        self.rename(false)
                    } else {
                        self.fail(Error::CopyLength(copied, len))
                    }
                },
                _ => self.fail(Error::InvalidArgs),
            },
            TransferEvent::Removed => match self.state {
                TransferState::Removing => self.rename(true),
                _ => self.fail(Error::InvalidArgs),
            },
            TransferEvent::Failed(e) => self.fail(e),
            TransferEvent::Renamed => self.fail(Error::InvalidArgs),
        }
    }
}

/// The state of a transfer that started idle, after the first `n` of `events`.
pub open spec fn state_at(path: String, backup: String, events: Seq<TransferEvent>, n: nat)
    -> TransferState
    decreases n,
{
    if n == 0 {
        TransferState::Idle
    } else {
        next(path, backup, state_at(path, backup, events, (n - 1) as nat), events[n - 1]).0
    }
}

/// The action that answers the `n`-th of `events`, counted from one.
pub open spec fn action_at(path: String, backup: String, events: Seq<TransferEvent>, n: nat)
    -> Step {
    next(path, backup, state_at(path, backup, events, (n - 1) as nat), events[n - 1]).1
}

/// Whether a transfer has not yet compared what was copied with the length
/// of the source.
pub open spec fn is_unchecked(state: TransferState) -> bool {
    state is Idle || state is OpeningSource || state is OpeningTemp || state is Copying
        || state is Closing
}

/// While a transfer has not compared the lengths, no rename has been asked
/// for.
pub proof fn lemma_no_rename_before_check(
    path: String,
    backup: String,
    events: Seq<TransferEvent>,
    n: nat,
)
    requires
        n <= events.len(),
        is_unchecked(state_at(path, backup, events, n)),
    ensures
        forall|j: nat| 0 < j <= n ==> !(#[trigger] action_at(path, backup, events, j) is Rename),
    decreases n,
{
    if n > 0 {
        let before = state_at(path, backup, events, (n - 1) as nat);
        assert(is_unchecked(before));
        lemma_no_rename_before_check(path, backup, events, (n - 1) as nat);
        assert(!(action_at(path, backup, events, n) is Rename));
    }
}

/// A transfer that has failed stays failed with the same error, and asks for
/// nothing more.
pub proof fn lemma_failed_stays(
    path: String,
    backup: String,
    events: Seq<TransferEvent>,
    n: nat,
    m: nat,
)
    requires
        n <= m <= events.len(),
        state_at(path, backup, events, n) is Failed,
    ensures
        state_at(path, backup, events, m) == state_at(path, backup, events, n),
        n < m ==> action_at(path, backup, events, m) == Step::Finish,
    decreases m,
{
    if n < m {
        lemma_failed_stays(path, backup, events, n, (m - 1) as nat);
    }
}

/// Atomic transfer: where the copy wrote another number of bytes than the
/// source holds, no rename is asked for at any point of the transfer, and
/// once the temporary file is closed the transfer has failed with
/// `CopyLength` and stays so.
pub proof fn lemma_short_copy_is_never_renamed(
    path: String,
    backup: String,
    events: Seq<TransferEvent>,
    n: nat,
    len: u64,
    copied: u64,
)
    requires
        n < events.len(),
        state_at(path, backup, events, n) == (TransferState::Closing { len, copied }),
        copied != len,
        events[n as int] == TransferEvent::TempClosed,
    ensures
        forall|j: nat|
            0 < j <= events.len() ==> !(#[trigger] action_at(path, backup, events, j) is Rename),
        forall|j: nat|
            n < j <= events.len() ==> #[trigger] state_at(path, backup, events, j)
                == TransferState::Failed(Error::CopyLength(copied, len)),
{
    lemma_no_rename_before_check(path, backup, events, n);
    let failed = TransferState::Failed(Error::CopyLength(copied, len));
    assert(state_at(path, backup, events, n + 1) == failed);
    assert(action_at(path, backup, events, n + 1) == Step::Finish);
    assert forall|j: nat| n < j <= events.len() implies #[trigger] state_at(
        path,
        backup,
        events,
        j,
    ) == failed && !(action_at(path, backup, events, j) is Rename) by {
        lemma_failed_stays(path, backup, events, n + 1, j);
    }
    assert forall|j: nat| 0 < j <= events.len() implies !(#[trigger] action_at(
        path,
        backup,
        events,
        j,
    ) is Rename) by {
        if j > n {
            assert(state_at(path, backup, events, j) == failed);
        }
    }
}

/// Rename-conflict recovery: a first rename that is refused because the
/// destination exists is followed by the removal of the destination and one
/// more rename. Where that one goes through the transfer is done; where it
/// fails, for whatever reason, the transfer has failed with that error.
pub proof fn lemma_rename_conflict_recovery(path: String, backup: String, e: Error, again: Error)
    requires
        is_conflict(e),
    ensures
        next(path, backup, TransferState::Renaming { retried: false }, TransferEvent::Failed(e))
            == (TransferState::Removing, Step::Remove { path }),
        next(path, backup, TransferState::Removing, TransferEvent::Removed) == (
            TransferState::Renaming { retried: true },
            Step::Rename { from: backup, to: path, rename_flags: Some(rename_request()) },
        ),
        next(path, backup, TransferState::Renaming { retried: true }, TransferEvent::Renamed) == (
            TransferState::Done,
            Step::Finish,
        ),
        next(
            path,
            backup,
            TransferState::Renaming { retried: true },
            TransferEvent::Failed(again),
        ) == (TransferState::Failed(again), Step::Finish),
{
}

} // verus!
