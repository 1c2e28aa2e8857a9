use std::path::PathBuf;
use std::sync::Arc;

use eccfs_epm::error::{
    eccfs_err_to_occlum, eccfs_error_to_rcore_fs_error, eccfs_try, io_try, EccFsError, VfsError,
    EHWPOISON, EINVAL, EIO,
};
use eccfs_epm::fs::{EccFS, MountEvent, MountStep};
use eccfs_epm::storage::{locked_io, write_offset, EccFSDevice};
use eccfs_epm::types::{now, EccFsInfo, VfsFsInfo};

#[test]
fn errors_of_the_engine() {
    let pairs = [
        (EccFsError::IOError, VfsError::Busy),
        (EccFsError::DirectoryNotEmpty, VfsError::DirNotEmpty),
        (EccFsError::InvalidData, VfsError::InvalidParam),
        (EccFsError::InvalidParameter, VfsError::InvalidParam),
        (EccFsError::NotFound, VfsError::EntryNotFound),
        (EccFsError::NotADirectory, VfsError::NotDir),
        (EccFsError::IsADirectory, VfsError::IsDir),
        (EccFsError::AlreadyExists, VfsError::EntryExist),
        (EccFsError::PermissionDenied, VfsError::PermError),
        (EccFsError::UnexpectedEof, VfsError::InvalidParam),
        (EccFsError::NotSupported, VfsError::NotSupported),
        (EccFsError::CryptoError, VfsError::InvalidParam),
        (EccFsError::IntegrityCheckError, VfsError::WrongFs),
        (EccFsError::CacheIsFull, VfsError::Busy),
        (EccFsError::RwLockError, VfsError::Busy),
        (EccFsError::MutexError, VfsError::Busy),
        (EccFsError::CacheNeedHint, VfsError::NotSupported),
        (EccFsError::IncompatibleMetadata, VfsError::WrongFs),
        (EccFsError::SuperBlockCheckFailed, VfsError::WrongFs),
        (EccFsError::UnknownError, VfsError::NotSupported),
    ];
    for (from, to) in pairs {
        assert_eq!(eccfs_error_to_rcore_fs_error(from), to);
        assert_eq!(eccfs_try::<u8>(Err(from)), Err(to));
    }
    assert_eq!(eccfs_try(Ok::<u8, EccFsError>(3)), Ok(3));
}

#[test]
fn failed_input_is_an_io_error() {
    assert_eq!(io_try(Ok::<u8, ()>(1)), Ok(1));
    assert_eq!(io_try::<u8>(Err(())), Err(EccFsError::IOError));
    assert_eq!(locked_io(Some(Ok::<u8, ()>(1))), Ok(1));
    assert_eq!(locked_io::<u8>(Some(Err(()))), Err(EccFsError::IOError));
    assert_eq!(locked_io::<u8>(None), Err(EccFsError::MutexError));
}

#[test]
fn errnos_are_the_system_s() {
    assert_eq!(EINVAL as i32, libc::EINVAL);
    assert_eq!(EIO as i32, libc::EIO);
    assert_eq!(EHWPOISON as i32, libc::EHWPOISON);
}

#[test]
fn mount_errnos() {
    for errno in 0..=133i32 {
        assert_eq!(eccfs_err_to_occlum(errno), errno as u32);
    }
    assert_eq!(eccfs_err_to_occlum(134), EINVAL);
    assert_eq!(eccfs_err_to_occlum(255), EINVAL);
    assert_eq!(eccfs_err_to_occlum(256 + 5), 5);
    assert_eq!(eccfs_err_to_occlum(-1), EINVAL);
    assert_eq!(eccfs_err_to_occlum(-255), 1);
}

#[test]
fn seconds_keep_their_low_half() {
    assert_eq!(now(0), 0);
    assert_eq!(now(1_700_000_000), 1_700_000_000);
    assert_eq!(now(0x1_0000_0007), 7);
    assert_eq!(now(-1), u32::MAX);
}

type Step = MountStep<&'static str, u8>;

fn mount(path: &str, writable: bool, size: Option<u64>, event: MountEvent<&'static str, u8>) -> Step {
    EccFS::new(path.as_bytes(), writable, size, event)
}

#[test]
fn writable_mount() {
    match mount("/data/fs", true, Some(7), MountEvent::Asked { mode: "plain" }) {
        MountStep::StartReadWrite { first, mode, third, fourth, device } => {
            assert_eq!((first, mode, third, fourth), (false, "plain", None, 0));
            assert_eq!(device.dir, b"/data/fs");
        }
        step => panic!("{:?}", step),
    }
    match mount("/data/fs", true, Some(7), MountEvent::Started { engine: Ok(9) }) {
        MountStep::Mounted { fs } => {
            assert_eq!(*fs.fs, 9);
            assert!(fs.writable);
        }
        step => panic!("{:?}", step),
    }
}

#[test]
fn read_only_mount() {
    match mount("/data/image", false, None, MountEvent::Asked { mode: "sealed" }) {
        MountStep::OpenImage { mode, path } => {
            assert_eq!(mode, "sealed");
            assert_eq!(path, b"/data/image");
        }
        step => panic!("{:?}", step),
    }
    let opened = || MountEvent::Image { mode: "sealed", opened: true };
    assert!(matches!(
        mount("/data/image", false, None, opened()),
        MountStep::StartReadOnly { mode: "sealed", cache_size: 0, third: Some(0), fourth: 0 }
    ));
    assert!(matches!(
        mount("/data/image", false, Some(64), opened()),
        MountStep::StartReadOnly { mode: "sealed", cache_size: 64, third: Some(0), fourth: 0 }
    ));
    match mount("/data/image", false, Some(64), MountEvent::Started { engine: Ok(5) }) {
        MountStep::Mounted { fs } => {
            assert_eq!(*fs.fs, 5);
            assert!(!fs.writable);
        }
        step => panic!("{:?}", step),
    }
}

#[test]
fn failed_mount() {
    assert!(matches!(
        mount("/data/image", false, None, MountEvent::Image { mode: "sealed", opened: false }),
        MountStep::Failed { errno: 5 }
    ));
    assert!(matches!(
        mount("/data/fs", true, None, MountEvent::Started { engine: Err(13) }),
        MountStep::Failed { errno: 13 }
    ));
    assert!(matches!(
        mount("/data/image", false, None, MountEvent::Started { engine: Err(200) }),
        MountStep::Failed { errno: 22 }
    ));
}

fn outcome(writable: bool, opened: bool, engine: Result<u8, i32>) -> Step {
    let mut event = MountEvent::Asked { mode: "sealed" };
    loop {
        event = match mount("/data", writable, None, event) {
            MountStep::StartReadWrite { .. } | MountStep::StartReadOnly { .. } => {
                MountEvent::Started { engine }
            }
            MountStep::OpenImage { mode, .. } => MountEvent::Image { mode, opened },
            last => return last,
        };
    }
}

#[test]
fn mounts_run_to_their_end() {
    for (writable, opened) in [(true, true), (true, false), (false, true)] {
        match outcome(writable, opened, Ok(3)) {
            MountStep::Mounted { fs } => assert_eq!((*fs.fs, fs.writable), (3, writable)),
            step => panic!("{:?}", step),
        }
        assert!(matches!(outcome(writable, opened, Err(2)), MountStep::Failed { errno: 2 }));
    }
    assert!(matches!(outcome(false, false, Ok(3)), MountStep::Failed { errno: 5 }));
}

#[test]
fn info_is_shown_unchanged() {
    let fs = EccFS { fs: Arc::new(()), writable: false };
    let i = EccFsInfo {
        magic: 1,
        bsize: 2,
        frsize: 3,
        blocks: 4,
        bfree: 5,
        bavail: 6,
        files: 7,
        ffree: 8,
        namemax: 9,
    };
    assert_eq!(
        fs.info(i),
        VfsFsInfo {
            magic: 1,
            bsize: 2,
            frsize: 3,
            blocks: 4,
            bfree: 5,
            bavail: 6,
            files: 7,
            ffree: 8,
            namemax: 9,
        }
    );
}

#[test]
fn storage_paths_are_joined_paths() {
    for dir in ["/data/fs", "/data/fs/", "", "/", "rel"] {
        for name in ["meta", "", "a/b", "/abs", "00ff"] {
            let device = EccFSDevice { dir: dir.as_bytes().to_vec() };
            let mut p = PathBuf::from(dir);
            p.push(name);
            let full = device.storage_path(name.as_bytes());
            assert_eq!(String::from_utf8(full).unwrap(), p.to_str().unwrap());
        }
    }
    let device = EccFSDevice { dir: b"/data".to_vec() };
    assert_eq!(device.storage_path(b"x"), b"/data/x".to_vec());
    assert_ne!(device.storage_path(b"x"), device.storage_path(b"y"));
}

#[test]
fn storages_of_a_directory_are_counted() {
    let device = EccFSDevice { dir: b"/data".to_vec() };
    assert_eq!(device.nr_storage(Ok(true)), Ok(()));
    assert_eq!(device.nr_storage(Ok(false)), Err(EccFsError::NotADirectory));
    assert_eq!(device.nr_storage(Err(())), Err(EccFsError::IOError));
}

#[test]
fn blocks_are_written_within_the_file() {
    assert_eq!(write_offset(Ok(8192), 4096), Ok(4096));
    assert_eq!(write_offset(Err(EccFsError::MutexError), 0), Err(EccFsError::MutexError));
}
