//! The flag sets that the mirroring service hands to the ssh and inotify
//! libraries. A flag set is told by the bits that are set in it, each given
//! by its value.

use vstd::prelude::*;

verus! {

/// `ssh2::RenameFlags`: the options of a rename, a set of flags.
#[verifier::external_type_specification]
#[verifier::external_body]
pub struct ExRenameFlags(ssh2::RenameFlags);

/// `ssh2::OpenFlags`: the options for opening a remote file, a set of
/// flags.
#[verifier::external_type_specification]
#[verifier::external_body]
pub struct ExOpenFlags(ssh2::OpenFlags);

/// `inotify::WatchMask`: the events that a watch is set up for, a set of
/// flags.
#[verifier::external_type_specification]
#[verifier::external_body]
pub struct ExWatchMask(inotify::WatchMask);

/// The bits that are set in rename flags, each by its value.
pub uninterp spec fn rename_bits(flags: ssh2::RenameFlags) -> Set<int>;

/// The bits that are set in open flags, each by its value.
pub uninterp spec fn open_bits(flags: ssh2::OpenFlags) -> Set<int>;

/// The bits that are set in a watch mask, each by its value.
pub uninterp spec fn watch_bits(mask: inotify::WatchMask) -> Set<int>;

/// Bit of rename flags: overwrite the destination if it exists.
pub const RENAME_OVERWRITE: u32 = 0x1;

/// Bit of rename flags: an atomic rename is wanted.
pub const RENAME_ATOMIC: u32 = 0x2;

/// Bit of rename flags: the native system calls are to be used.
pub const RENAME_NATIVE: u32 = 0x4;

/// Bit of open flags: open for writing.
pub const OPEN_WRITE: u32 = 0x2;

/// Bit of open flags: create the file if there is none.
pub const OPEN_CREATE: u32 = 0x8;

/// Bit of open flags: truncate a file that exists.
pub const OPEN_TRUNCATE: u32 = 0x10;

/// Bit of a watch mask: a file opened for writing was closed.
pub const WATCH_CLOSE_WRITE: u32 = 0x8;

/// Bit of a watch mask: a file was moved out of the watched directory.
pub const WATCH_MOVED_FROM: u32 = 0x40;

/// Bit of a watch mask: a file was moved into the watched directory.
pub const WATCH_MOVED_TO: u32 = 0x80;

/// Bit of a watch mask: a file was created in the watched directory.
pub const WATCH_CREATE: u32 = 0x100;

/// Bit of a watch mask: a file was deleted from the watched directory.
pub const WATCH_DELETE: u32 = 0x200;

/// The bits of a rename that overwrites, is atomic and uses the native
/// system calls.
pub open spec fn rename_request() -> Set<int> {
    set![RENAME_OVERWRITE as int, RENAME_ATOMIC as int, RENAME_NATIVE as int]
}

/// The bits for opening a file for writing, created if there is none and
/// truncated if there is one.
pub open spec fn open_request() -> Set<int> {
    set![OPEN_WRITE as int, OPEN_CREATE as int, OPEN_TRUNCATE as int]
}

/// `ssh2::RenameFlags::empty()`: the flags with no bit set.
#[verifier::external_body]
fn rename_empty() -> (flags: ssh2::RenameFlags)
    ensures
        rename_bits(flags) == Set::<int>::empty(),
{
    ssh2::RenameFlags::empty()
}

/// `ssh2::RenameFlags::OVERWRITE`, which is `LIBSSH2_SFTP_RENAME_OVERWRITE`,
/// the bit 0x1.
#[verifier::external_body]
fn rename_overwrite() -> (flags: ssh2::RenameFlags)
    ensures
        rename_bits(flags) == set![0x1int],
{
    ssh2::RenameFlags::OVERWRITE
}

/// `ssh2::RenameFlags::ATOMIC`, which is `LIBSSH2_SFTP_RENAME_ATOMIC`, the
/// bit 0x2.
#[verifier::external_body]
fn rename_atomic() -> (flags: ssh2::RenameFlags)
    ensures
        rename_bits(flags) == set![0x2int],
{
    ssh2::RenameFlags::ATOMIC
}

/// `ssh2::RenameFlags::NATIVE`, which is `LIBSSH2_SFTP_RENAME_NATIVE`, the
/// bit 0x4.
#[verifier::external_body]
fn rename_native() -> (flags: ssh2::RenameFlags)
    ensures
        rename_bits(flags) == set![0x4int],
{
    ssh2::RenameFlags::NATIVE
}

/// `ssh2::RenameFlags::insert`: afterwards the bits of both are set.
#[verifier::external_body]
fn rename_insert(flags: &mut ssh2::RenameFlags, other: ssh2::RenameFlags)
    ensures
        rename_bits(*final(flags)) == rename_bits(*old(flags)).union(rename_bits(other)),
{
    flags.insert(other)
}

/// `ssh2::OpenFlags::WRITE`, which is `LIBSSH2_FXF_WRITE`, the bit 0x2.
#[verifier::external_body]
fn open_write() -> (flags: ssh2::OpenFlags)
    ensures
        open_bits(flags) == set![0x2int],
{
    ssh2::OpenFlags::WRITE
}

/// `ssh2::OpenFlags::TRUNCATE`, which is `LIBSSH2_FXF_TRUNC` together with
/// `LIBSSH2_FXF_CREAT`, the bits 0x10 and 0x8.
#[verifier::external_body]
fn open_truncate() -> (flags: ssh2::OpenFlags)
    ensures
        open_bits(flags) == set![0x10int, 0x8int],
{
    ssh2::OpenFlags::TRUNCATE
}

/// The `|` of `ssh2::OpenFlags`: the flags with the bits of both.
#[verifier::external_body]
fn open_union(a: ssh2::OpenFlags, b: ssh2::OpenFlags) -> (flags: ssh2::OpenFlags)
    ensures
        open_bits(flags) == open_bits(a).union(open_bits(b)),
{
    a | b
}

/// `inotify::WatchMask::CLOSE_WRITE`, which is `IN_CLOSE_WRITE`, the bit 0x8.
#[verifier::external_body]
fn watch_close_write() -> (mask: inotify::WatchMask)
    ensures
        watch_bits(mask) == set![0x8int],
{
    inotify::WatchMask::CLOSE_WRITE
}

/// `inotify::WatchMask::CREATE`, which is `IN_CREATE`, the bit 0x100.
#[verifier::external_body]
fn watch_create() -> (mask: inotify::WatchMask)
    ensures
        watch_bits(mask) == set![0x100int],
{
    inotify::WatchMask::CREATE
}

/// `inotify::WatchMask::DELETE`, which is `IN_DELETE`, the bit 0x200.
#[verifier::external_body]
fn watch_delete() -> (mask: inotify::WatchMask)
    ensures
        watch_bits(mask) == set![0x200int],
{
    inotify::WatchMask::DELETE
}

/// `inotify::WatchMask::MOVE`, which is `IN_MOVE`: `IN_MOVED_FROM` together
/// with `IN_MOVED_TO`, the bits 0x40 and 0x80.
#[verifier::external_body]
fn watch_move() -> (mask: inotify::WatchMask)
    ensures
        watch_bits(mask) == set![0x40int, 0x80int],
{
    inotify::WatchMask::MOVE
}

/// `inotify::WatchMask::insert`: afterwards the bits of both are set.
#[verifier::external_body]
fn watch_insert(mask: &mut inotify::WatchMask, other: inotify::WatchMask)
    ensures
        watch_bits(*final(mask)) == watch_bits(*old(mask)).union(watch_bits(other)),
{
    mask.insert(other)
}

/// Get sftp rename flags: overwrite, atomic and native.
pub fn rename_flags() -> (flags: Option<ssh2::RenameFlags>)
    ensures
        flags matches Some(f) && rename_bits(f) == rename_request(),
{
    let mut flags = rename_empty();
    rename_insert(&mut flags, rename_overwrite());
    rename_insert(&mut flags, rename_atomic());
    rename_insert(&mut flags, rename_native());
    assert(rename_bits(flags) =~= set![0x1int, 0x2int, 0x4int]);
    Some(flags)
}

/// The flags that the temporary file of a transfer is opened with: for
/// writing, created if there is none and truncated if there is one.
pub fn open_flags() -> (flags: ssh2::OpenFlags)
    ensures
        open_bits(flags) == open_request(),
{
    let flags = open_union(open_write(), open_truncate());
    assert(open_bits(flags) =~= set![0x2int, 0x8int, 0x10int]);
    flags
}

/// Get the inotify watch mask: files created, closed after writing,
/// deleted, moved out and moved in.
pub fn watch_mask() -> (mask: inotify::WatchMask)
    ensures
        watch_bits(mask) == set![
            WATCH_CREATE as int,
            WATCH_CLOSE_WRITE as int,
            WATCH_DELETE as int,
            WATCH_MOVED_FROM as int,
            WATCH_MOVED_TO as int,
        ],
{
    let mut mask = watch_create();
    watch_insert(&mut mask, watch_close_write());
    watch_insert(&mut mask, watch_delete());
    watch_insert(&mut mask, watch_move());
    assert(watch_bits(mask) =~= set![0x100int, 0x8int, 0x200int, 0x40int, 0x80int]);
    mask
}

} // verus!
