use mere::flags::open_flags;
use mere::flags::rename_flags;
use mere::flags::watch_mask;
use mere::flags::OPEN_CREATE;
use mere::flags::OPEN_TRUNCATE;
use mere::flags::OPEN_WRITE;
use mere::flags::RENAME_ATOMIC;
use mere::flags::RENAME_NATIVE;
use mere::flags::RENAME_OVERWRITE;
use mere::flags::WATCH_CLOSE_WRITE;
use mere::flags::WATCH_CREATE;
use mere::flags::WATCH_DELETE;
use mere::flags::WATCH_MOVED_FROM;
use mere::flags::WATCH_MOVED_TO;

#[test]
fn rename_asks_for_overwrite_atomic_native() {
    let flags = rename_flags().unwrap();
    assert_eq!(
        flags,
        ssh2::RenameFlags::OVERWRITE | ssh2::RenameFlags::ATOMIC | ssh2::RenameFlags::NATIVE
    );
    assert_eq!(flags.bits() as u32, RENAME_OVERWRITE | RENAME_ATOMIC | RENAME_NATIVE);
    assert_eq!(flags.bits(), 7);
}

#[test]
fn temporary_file_is_opened_for_writing_and_truncated() {
    let flags = open_flags();
    assert_eq!(flags, ssh2::OpenFlags::WRITE | ssh2::OpenFlags::TRUNCATE);
    assert_eq!(flags.bits() as u32, OPEN_WRITE | OPEN_CREATE | OPEN_TRUNCATE);
    assert!(flags.contains(ssh2::OpenFlags::CREATE));
    assert!(!flags.contains(ssh2::OpenFlags::READ));
}

#[test]
fn watch_covers_create_close_write_delete_and_moves() {
    let mask = watch_mask();
    assert_eq!(
        mask,
        inotify::WatchMask::CREATE
            | inotify::WatchMask::CLOSE_WRITE
            | inotify::WatchMask::DELETE
            | inotify::WatchMask::MOVE
    );
    assert_eq!(
        mask.bits(),
        WATCH_CREATE | WATCH_CLOSE_WRITE | WATCH_DELETE | WATCH_MOVED_FROM | WATCH_MOVED_TO
    );
    assert_eq!(mask.bits(), 0x3c8);
    assert!(mask.contains(inotify::WatchMask::MOVED_FROM));
    assert!(mask.contains(inotify::WatchMask::MOVED_TO));
    assert!(!mask.contains(inotify::WatchMask::MODIFY));
    assert!(!mask.contains(inotify::WatchMask::OPEN));
}
