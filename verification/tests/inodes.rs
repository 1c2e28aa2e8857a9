use std::sync::Arc;

use eccfs_epm::error::{EccFsError, VfsError};
use eccfs_epm::fs::EccFS;
use eccfs_epm::inode::{EccInode, ListEvent, ListStep};
use eccfs_epm::queue::{CallQueue, FsCall};
use eccfs_epm::types::{
    eccfs_tp_to_rcore_fs_tp, rcore_fs_tp_to_eccfs_tp, DirEntry, EccFallocateMode, EccFileType,
    EccMetadata, SetMetadata, Timespec, VfsFallocateMode, VfsFileType, VfsMetadata,
};

fn mount() -> Arc<EccFS<&'static str>> {
    Arc::new(EccFS { fs: Arc::new("engine"), writable: true })
}

fn inode() -> Arc<EccInode<&'static str>> {
    mount().new_inode(9)
}

fn all_calls(mut queue: CallQueue) -> Vec<FsCall> {
    let mut calls = Vec::new();
    while let Some(call) = queue.next() {
        calls.push(call);
        assert_eq!(queue.reply(Ok(())), Ok(()));
    }
    calls
}

fn meta() -> EccMetadata {
    EccMetadata {
        size: 8193,
        atime: 10,
        mtime: 20,
        ctime: u32::MAX,
        ftype: EccFileType::Lnk,
        perm: 0o644,
        nlinks: 3,
        uid: 1000,
        gid: 100,
    }
}

fn shown() -> VfsMetadata {
    VfsMetadata {
        dev: 0,
        inode: 9,
        size: 8193,
        blk_size: 4096,
        blocks: 3,
        atime: Timespec { sec: 10, nsec: 0 },
        mtime: Timespec { sec: 20, nsec: 0 },
        ctime: Timespec { sec: 4294967295, nsec: 0 },
        type_: VfsFileType::SymLink,
        mode: 0o644,
        nlinks: 3,
        uid: 1000,
        gid: 100,
        rdev: 0,
    }
}

#[test]
fn inodes_belong_to_their_mount() {
    let fs = mount();
    let inode = fs.new_inode(77);
    assert_eq!(inode.iid, 77);
    assert!(Arc::ptr_eq(&inode.fs, &fs.fs));
    assert!(Arc::ptr_eq(&inode.rcore_fs, &fs));
    assert!(Arc::ptr_eq(&inode.fs(), &fs));
    assert_eq!(fs.root_inode(1).iid, 1);
}

#[test]
fn file_types_correspond() {
    for (vfs, ecc) in [
        (VfsFileType::File, EccFileType::Reg),
        (VfsFileType::Dir, EccFileType::Dir),
        (VfsFileType::SymLink, EccFileType::Lnk),
    ] {
        assert_eq!(rcore_fs_tp_to_eccfs_tp(vfs), Ok(ecc));
        assert_eq!(eccfs_tp_to_rcore_fs_tp(ecc), vfs);
    }
    assert_eq!(rcore_fs_tp_to_eccfs_tp(VfsFileType::Other), Err(VfsError::NotSupported));
}

#[test]
fn reads_and_writes() {
    assert_eq!(inode().read_at(3, 10), FsCall::Read { iid: 9, offset: 3, len: 10 });
    assert_eq!(inode().write_at(4, 20), FsCall::Write { iid: 9, offset: 4, len: 20 });
}

#[test]
fn metadata_is_shown() {
    assert_eq!(inode().get_meta(), FsCall::GetMeta { iid: 9 });
    assert_eq!(inode().metadata(Ok(meta()), 4096), Ok(shown()));
    assert_eq!(
        inode().metadata(Err(EccFsError::IntegrityCheckError), 4096),
        Err(VfsError::WrongFs)
    );
}

#[test]
fn blocks_hold_the_file() {
    for (size, blocks) in [(0u64, 0usize), (1, 1), (4095, 1), (4096, 1), (4097, 2), (8192, 2)] {
        let meta = EccMetadata { size, ..meta() };
        assert_eq!(inode().metadata(Ok(meta), 4096).unwrap().blocks, blocks);
    }
}

#[test]
fn shown_metadata_sets_what_is_kept() {
    let want: Vec<FsCall> = [
        SetMetadata::Uid(1000),
        SetMetadata::Gid(100),
        SetMetadata::Size(8193),
        SetMetadata::Atime(10),
        SetMetadata::Ctime(u32::MAX),
        SetMetadata::Mtime(20),
        SetMetadata::Permission(0o644),
    ]
    .iter()
    .map(|set| FsCall::SetMeta { iid: 9, set: *set })
    .collect();
    assert_eq!(all_calls(inode().set_metadata(&shown(), Some(0o644))), want);
}

#[test]
fn metadata_keeps_the_low_half() {
    let mut metadata = shown();
    metadata.uid = 0x1_0000_0005;
    metadata.gid = usize::MAX;
    metadata.atime.sec = -1;
    metadata.mtime.sec = 0x2_0000_0003;
    let calls = all_calls(inode().set_metadata(&metadata, Some(0o600)));
    assert_eq!(calls[0], FsCall::SetMeta { iid: 9, set: SetMetadata::Uid(5) });
    assert_eq!(calls[1], FsCall::SetMeta { iid: 9, set: SetMetadata::Gid(u32::MAX) });
    assert_eq!(calls[3], FsCall::SetMeta { iid: 9, set: SetMetadata::Atime(u32::MAX) });
    assert_eq!(calls[5], FsCall::SetMeta { iid: 9, set: SetMetadata::Mtime(3) });
    assert_eq!(calls[6], FsCall::SetMeta { iid: 9, set: SetMetadata::Permission(0o600) });
}

#[test]
fn failure_ends_the_calls() {
    let inode = inode();
    let mut queue = inode.set_metadata(&shown(), Some(0o644));
    assert_eq!(queue.reply(Ok(())), Ok(()));
    assert_eq!(queue.next(), Some(FsCall::SetMeta { iid: 9, set: SetMetadata::Gid(100) }));
    assert_eq!(queue.reply(Err(EccFsError::PermissionDenied)), Err(VfsError::PermError));
    assert_eq!(queue.next(), None);
}

#[test]
fn data_is_written_back_before_metadata() {
    assert_eq!(
        all_calls(inode().sync_all()),
        vec![FsCall::SyncData { iid: 9 }, FsCall::SyncMeta { iid: 9 }]
    );
    assert_eq!(all_calls(inode().sync_data()), vec![FsCall::SyncData { iid: 9 }]);
    assert_eq!(all_calls(mount().sync()), vec![FsCall::Sync]);
}

#[test]
fn space_modes() {
    let inode = inode();
    let call = |mode| inode.fallocate(&mode, 1, 2).map(all_calls);
    assert_eq!(
        call(VfsFallocateMode::Allocate { flags: 1 }),
        Ok(vec![FsCall::Fallocate { iid: 9, mode: EccFallocateMode::Alloc, offset: 1, len: 2 }])
    );
    assert_eq!(
        call(VfsFallocateMode::ZeroRange),
        Ok(vec![FsCall::Fallocate {
            iid: 9,
            mode: EccFallocateMode::ZeroRange,
            offset: 1,
            len: 2
        }])
    );
    assert_eq!(call(VfsFallocateMode::Allocate { flags: 0 }), Err(VfsError::NotSupported));
    assert_eq!(call(VfsFallocateMode::Other), Err(VfsError::NotSupported));
}

#[test]
fn resizing_sets_the_size() {
    assert_eq!(
        all_calls(inode().resize(5)),
        vec![FsCall::SetMeta { iid: 9, set: SetMetadata::Size(5) }]
    );
}

#[test]
fn created_files_belong_to_the_directory_s_owner() {
    let inode = inode();
    assert_eq!(
        inode.create(Ok(meta()), "name", VfsFileType::Dir, Some(0o755)),
        Ok(FsCall::Create {
            iid: 9,
            name: "name",
            ftype: EccFileType::Dir,
            uid: 1000,
            gid: 100,
            perm: 0o755
        })
    );
    assert_eq!(
        inode.create(Ok(meta()), "name", VfsFileType::Other, None),
        Err(VfsError::NotSupported)
    );
    assert_eq!(
        inode.create(Err(EccFsError::NotFound), "name", VfsFileType::File, None),
        Err(VfsError::EntryNotFound)
    );
    let new = inode.created(Ok(12)).unwrap();
    assert_eq!(new.iid, 12);
    assert!(Arc::ptr_eq(&new.rcore_fs, &inode.rcore_fs));
    assert_eq!(
        inode.created(Err(EccFsError::AlreadyExists)).map(|i| i.iid),
        Err(VfsError::EntryExist)
    );
}

#[test]
fn names_of_a_directory() {
    let inode = inode();
    assert_eq!(all_calls(inode.unlink("a")), vec![FsCall::Unlink { iid: 9, name: "a" }]);
    assert_eq!(
        inode.link::<u8>("a", Ok(4)).map(all_calls),
        Ok(vec![FsCall::Link { iid: 9, name: "a", linkto: 4 }])
    );
    assert_eq!(inode.link("a", Err(7u8)).map(all_calls), Err(7));
    assert_eq!(
        inode.move_::<u8>("a", Ok(4), "b").map(all_calls),
        Ok(vec![FsCall::Rename { iid: 9, name: "a", to: 4, new_name: "b" }])
    );
    assert_eq!(inode.move_("a", Err(7u8), "b").map(all_calls), Err(7));
}

#[test]
fn finding_a_name() {
    let inode = inode();
    assert_eq!(inode.lookup("a"), FsCall::Lookup { iid: 9, name: "a" });
    assert_eq!(inode.find(Ok(Some(3))).map(|i| i.iid), Ok(3));
    assert_eq!(inode.find(Ok(None)).map(|i| i.iid), Err(VfsError::EntryNotFound));
    assert_eq!(
        inode.find(Err(EccFsError::NotADirectory)).map(|i| i.iid),
        Err(VfsError::NotDir)
    );
}

#[test]
fn entry_by_position() {
    let inode = inode();
    assert_eq!(inode.next_entry(2), FsCall::NextEntry { iid: 9, offset: 2 });
    let entry = DirEntry { iid: 5, name: "x".to_string(), ftype: EccFileType::Reg };
    assert_eq!(inode.get_entry(Ok(Some(entry))), Ok("x".to_string()));
    assert_eq!(inode.get_entry(Err(EccFsError::IsADirectory)), Err(VfsError::IsDir));
}

fn list(names: &[&str], room: usize) -> (Vec<String>, ListStep<&'static str>) {
    let inode = inode();
    let mut added: Vec<String> = Vec::new();
    let mut step = inode.iterate_entries(ListEvent::Asked { pos: 0 });
    loop {
        let event = match step {
            ListStep::Next { call: FsCall::NextEntry { iid, offset } } => {
                assert_eq!(iid, 9);
                let reply = names.get(offset).map(|name| DirEntry {
                    iid: offset as u64 + 100,
                    name: name.to_string(),
                    ftype: EccFileType::Reg,
                });
                ListEvent::Entry { reply: Ok(reply), written_len: 10 * added.len() }
            }
            ListStep::Write { name, inode, type_ } => {
                assert_eq!(inode, added.len() as u64 + 100);
                assert_eq!(type_, VfsFileType::File);
                let result = if added.len() < room {
                    added.push(name);
                    Ok(())
                } else {
                    Err("full")
                };
                ListEvent::Written { result, pos: added.len(), written_len: 10 * added.len() }
            }
            last => return (added, last),
        };
        step = inode.iterate_entries(event);
    }
}

#[test]
fn listing_is_in_order() {
    let names = ["a", "b", "c"];
    for room in 1..5usize {
        let (added, last) = list(&names, room);
        let n = room.min(3);
        assert_eq!(added, names[..n].to_vec());
        assert_eq!(last, ListStep::Done { written_len: 10 * n });
    }
    assert_eq!(list(&[], 3), (Vec::new(), ListStep::Done { written_len: 0 }));
}

#[test]
fn listing_without_room_is_refused() {
    assert_eq!(list(&["a"], 0), (Vec::new(), ListStep::Refused { refusal: "full" }));
}

#[test]
fn listing_fails_with_the_engine() {
    let event: ListEvent<u8> =
        ListEvent::Entry { reply: Err(EccFsError::CryptoError), written_len: 10 };
    assert_eq!(
        inode().iterate_entries(event),
        ListStep::Failed { error: VfsError::InvalidParam }
    );
}
