//! The inodes of a mounted file system: what each operation asks of the
//! engine, and what its callers see of the engine's replies.

use std::sync::Arc;

use vstd::prelude::*;

use crate::error::{eccfs_try, vfs_error, EccFsError, VfsError};
use crate::fs::EccFS;
use crate::queue::{CallQueue, FsCall};
use crate::types::{
    ecc_fallocate_mode,
    ecc_type,
    eccfs_tp_to_rcore_fs_tp,
    low32,
    low32_of_sec,
    low32_of_usize,
    rcore_fs_tp_to_eccfs_tp,
    vfs_type,
    DirEntry,
    EccFallocateMode,
    EccMetadata,
    SetMetadata,
    Timespec,
    VfsFallocateMode,
    VfsFileType,
    VfsMetadata,
};

verus! {

/// An inode of a mounted file system.
#[derive(Debug)]
pub struct EccInode<F> {
    pub iid: u64,
    pub fs: Arc<F>,
    pub rcore_fs: Arc<EccFS<F>>,
}

/// What the virtual file system shows of inode `iid`, on blocks of `blk_sz` bytes.
pub open spec fn shown_metadata(iid: u64, meta: EccMetadata, blk_sz: usize) -> VfsMetadata {
    VfsMetadata {
        dev: 0,
        inode: iid as usize,
        size: meta.size as usize,
        blk_size: blk_sz,
        blocks: ((meta.size as usize + blk_sz - 1) / blk_sz as int) as usize,
        atime: Timespec { sec: meta.atime as i64, nsec: 0 },
        mtime: Timespec { sec: meta.mtime as i64, nsec: 0 },
        ctime: Timespec { sec: meta.ctime as i64, nsec: 0 },
        type_: vfs_type(meta.ftype),
        mode: meta.perm,
        nlinks: meta.nlinks as usize,
        uid: meta.uid as usize,
        gid: meta.gid as usize,
        rdev: 0,
    }
}

/// The inode number that is shown is the inode's own, so that it leads back to
/// the inode, and no two inodes show the same.
pub proof fn law_inode_number_shown(
    iid: u64,
    other: u64,
    meta: EccMetadata,
    other_meta: EccMetadata,
    blk_sz: usize,
)
    ensures
        shown_metadata(iid, meta, blk_sz).inode == iid as usize,
        iid <= usize::MAX ==> shown_metadata(iid, meta, blk_sz).inode == iid,
        iid <= usize::MAX ==> shown_metadata(iid, meta, blk_sz).inode as u64 == iid,
        iid <= usize::MAX && other <= usize::MAX && iid != other ==> shown_metadata(
            iid,
            meta,
            blk_sz,
        ).inode != shown_metadata(other, other_meta, blk_sz).inode,
{
}

/// What is shown of an inode is what the engine keeps of it, field by field,
/// with times in whole seconds, on no device.
pub proof fn law_kept_is_shown(iid: u64, meta: EccMetadata, blk_sz: usize)
    ensures
        ({
            let shown = shown_metadata(iid, meta, blk_sz);
            &&& shown.size == meta.size as usize
            &&& meta.size <= usize::MAX ==> shown.size == meta.size
            &&& shown.blk_size == blk_sz
            &&& shown.atime.sec == meta.atime && shown.atime.nsec == 0
            &&& shown.mtime.sec == meta.mtime && shown.mtime.nsec == 0
            &&& shown.ctime.sec == meta.ctime && shown.ctime.nsec == 0
            &&& shown.mode == meta.perm
            &&& shown.nlinks == meta.nlinks
            &&& shown.uid == meta.uid
            &&& shown.gid == meta.gid
            &&& shown.dev == 0 && shown.rdev == 0
            &&& shown.type_ is File <==> meta.ftype is Reg
            &&& shown.type_ is Dir <==> meta.ftype is Dir
            &&& shown.type_ is SymLink <==> meta.ftype is Lnk
        }),
{
}

/// The changes that setting the metadata of an inode takes, in order, where
/// `perm` are the engine's permissions for its mode.
pub open spec fn metadata_changes(metadata: VfsMetadata, perm: u16) -> Seq<SetMetadata> {
    seq![
        SetMetadata::Uid(low32(metadata.uid as int)),
        SetMetadata::Gid(low32(metadata.gid as int)),
        SetMetadata::Size(metadata.size),
        SetMetadata::Atime(low32(metadata.atime.sec as int)),
        SetMetadata::Ctime(low32(metadata.ctime.sec as int)),
        SetMetadata::Mtime(low32(metadata.mtime.sec as int)),
        SetMetadata::Permission(perm),
    ]
}

/// What the engine keeps of a file after one change.
pub open spec fn changed(meta: EccMetadata, set: SetMetadata) -> EccMetadata {
    match set {
        SetMetadata::Size(size) => EccMetadata { size: size as u64, ..meta },
        SetMetadata::Atime(time) => EccMetadata { atime: time, ..meta },
        SetMetadata::Mtime(time) => EccMetadata { mtime: time, ..meta },
        SetMetadata::Ctime(time) => EccMetadata { ctime: time, ..meta },
        SetMetadata::Permission(perm) => EccMetadata { perm, ..meta },
        SetMetadata::Uid(uid) => EccMetadata { uid, ..meta },
        SetMetadata::Gid(gid) => EccMetadata { gid, ..meta },
    }
}

/// Setting the metadata that an inode shows changes nothing: each change sets
/// what the engine keeps already.
pub proof fn law_set_shown_metadata(iid: u64, meta: EccMetadata, blk_sz: usize, i: int)
    requires
        meta.size <= usize::MAX,
        0 <= i < 7,
    ensures
        metadata_changes(shown_metadata(iid, meta, blk_sz), meta.perm).len() == 7,
        changed(meta, metadata_changes(shown_metadata(iid, meta, blk_sz), meta.perm)[i]) == meta,
{
}

/// Setting metadata changes owner and group, then the size, then the times of
/// access, status and content, then the permissions, each once. Numbers and
/// seconds keep their low 32 bits.
pub proof fn law_changes_in_order(metadata: VfsMetadata, perm: u16)
    ensures
        ({
            let sets = metadata_changes(metadata, perm);
            let whole: int = 0x1_0000_0000;
            &&& sets.len() == 7
            &&& sets[0] matches SetMetadata::Uid(uid) && (metadata.uid - uid) % whole == 0
            &&& sets[1] matches SetMetadata::Gid(gid) && (metadata.gid - gid) % whole == 0
            &&& sets[2] == SetMetadata::Size(metadata.size)
            &&& sets[3] matches SetMetadata::Atime(sec) && (metadata.atime.sec - sec) % whole == 0
            &&& sets[4] matches SetMetadata::Ctime(sec) && (metadata.ctime.sec - sec) % whole == 0
            &&& sets[5] matches SetMetadata::Mtime(sec) && (metadata.mtime.sec - sec) % whole == 0
            &&& sets[6] == SetMetadata::Permission(perm)
        }),
{
}

/// A change sets the one field that it names and leaves all others.
pub proof fn law_change_of_one_field(meta: EccMetadata, set: SetMetadata)
    ensures
        ({
            let new = changed(meta, set);
            &&& new.ftype == meta.ftype && new.nlinks == meta.nlinks
            &&& new.size == (match set {
                SetMetadata::Size(size) => size as u64,
                _ => meta.size,
            })
            &&& new.atime == (match set {
                SetMetadata::Atime(time) => time,
                _ => meta.atime,
            })
            &&& new.mtime == (match set {
                SetMetadata::Mtime(time) => time,
                _ => meta.mtime,
            })
            &&& new.ctime == (match set {
                SetMetadata::Ctime(time) => time,
                _ => meta.ctime,
            })
            &&& new.perm == (match set {
                SetMetadata::Permission(perm) => perm,
                _ => meta.perm,
            })
            &&& new.uid == (match set {
                SetMetadata::Uid(uid) => uid,
                _ => meta.uid,
            })
            &&& new.gid == (match set {
                SetMetadata::Gid(gid) => gid,
                _ => meta.gid,
            })
        }),
{
}

/// What the engine keeps of a file after a series of changes.
pub open spec fn changed_by(meta: EccMetadata, sets: Seq<SetMetadata>) -> EccMetadata
    decreases sets.len(),
{
    if sets.len() == 0 {
        meta
    } else {
        changed(changed_by(meta, sets.drop_last()), sets.last())
    }
}

/// A series of changes is made one after the other.
pub proof fn law_changed_in_order(meta: EccMetadata, sets: Seq<SetMetadata>, set: SetMetadata)
    ensures
        changed_by(meta, Seq::empty()) == meta,
        changed_by(meta, sets.push(set)) == changed(changed_by(meta, sets), set),
{
    assert(sets.push(set).drop_last() =~= sets);
}

/// Metadata that is set is shown: after the changes that setting `metadata`
/// takes, the inode shows its owner, size, times and permissions, where the
/// engine's fields hold them; type and link count stay as they were.
pub proof fn law_set_metadata_is_shown(
    iid: u64,
    meta: EccMetadata,
    metadata: VfsMetadata,
    perm: u16,
    blk_sz: usize,
)
    requires
        metadata.uid <= u32::MAX,
        metadata.gid <= u32::MAX,
        0 <= metadata.atime.sec <= u32::MAX,
        0 <= metadata.mtime.sec <= u32::MAX,
        0 <= metadata.ctime.sec <= u32::MAX,
    ensures
        ({
            let shown = shown_metadata(
                iid,
                changed_by(meta, metadata_changes(metadata, perm)),
                blk_sz,
            );
            &&& shown.uid == metadata.uid
            &&& shown.gid == metadata.gid
            &&& shown.size == metadata.size
            &&& shown.atime.sec == metadata.atime.sec
            &&& shown.mtime.sec == metadata.mtime.sec
            &&& shown.ctime.sec == metadata.ctime.sec
            &&& shown.mode == perm
            &&& shown.type_ == vfs_type(meta.ftype)
            &&& shown.nlinks == meta.nlinks as usize
        }),
{
    let sets = metadata_changes(metadata, perm);
    reveal_with_fuel(changed_by, 8);
    assert(sets.drop_last() =~= sets.take(6));
    assert(sets.take(6).drop_last() =~= sets.take(5));
    assert(sets.take(5).drop_last() =~= sets.take(4));
    assert(sets.take(4).drop_last() =~= sets.take(3));
    assert(sets.take(3).drop_last() =~= sets.take(2));
    assert(sets.take(2).drop_last() =~= sets.take(1));
    assert(sets.take(1).drop_last() =~= sets.take(0));
}

/// The blocks shown are the fewest that hold the file.
pub proof fn law_blocks_hold_size(iid: u64, meta: EccMetadata, blk_sz: usize)
    requires
        blk_sz > 0,
        meta.size + blk_sz <= usize::MAX,
    ensures
        ({
            let blocks = shown_metadata(iid, meta, blk_sz).blocks as int;
            &&& meta.size <= blocks * blk_sz
            &&& meta.size > 0 ==> (blocks - 1) * blk_sz < meta.size
            &&& meta.size == 0 ==> blocks == 0
        }),
{
    let size = meta.size as int;
    let b = blk_sz as int;
    let blocks = (size + b - 1) / b;
    assert(b * blocks <= size + b - 1 < b * blocks + b) by (nonlinear_arith)
        requires
            b > 0,
            blocks == (size + b - 1) / b,
    ;
    assert(0 <= blocks <= size + b - 1) by (nonlinear_arith)
        requires
            b > 0,
            size >= 0,
            blocks == (size + b - 1) / b,
    ;
    assert(blocks * b == b * blocks) by (nonlinear_arith);
    assert((blocks - 1) * b == b * blocks - b) by (nonlinear_arith);
    if size == 0 {
        assert(blocks == 0) by (nonlinear_arith)
            requires
                b > 0,
                blocks == (0 + b - 1) / b,
        ;
    }
}

/// The blocks shown are the fewest that hold the size shown, also where the
/// engine's size does not fit.
pub proof fn law_blocks_hold_shown_size(iid: u64, meta: EccMetadata, blk_sz: usize)
    requires
        blk_sz > 0,
        meta.size as usize + blk_sz <= usize::MAX,
    ensures
        ({
            let shown = shown_metadata(iid, meta, blk_sz);
            &&& shown.size <= shown.blocks * blk_sz
            &&& shown.blocks > 0 ==> (shown.blocks - 1) * blk_sz < shown.size
        }),
{
    let kept = EccMetadata { size: (meta.size as usize) as u64, ..meta };
    assert(shown_metadata(iid, kept, blk_sz) == shown_metadata(iid, meta, blk_sz));
    law_blocks_hold_size(iid, kept, blk_sz);
}

/// What a listing of a directory has come to.
#[derive(Debug)]
pub enum ListEvent<E> {
    /// The listing is asked for, from position `pos` on.
    Asked { pos: usize },
    /// The engine's reply to a call for the next entry, and how much the
    /// listing holds so far.
    Entry { reply: Result<Option<DirEntry>, EccFsError>, written_len: usize },
    /// What came of adding the entry, and where the listing then stands.
    Written { result: Result<(), E>, pos: usize, written_len: usize },
}

/// What a listing takes next.
#[derive(Debug, PartialEq, Eq)]
pub enum ListStep<E> {
    /// Call the engine for the entry at a position.
    Next { call: FsCall<'static> },
    /// Add an entry to the listing.
    Write { name: String, inode: u64, type_: VfsFileType },
    /// The listing is done and holds so much.
    Done { written_len: usize },
    /// The engine failed.
    Failed { error: VfsError },
    /// The listing has no room for its first entry.
    Refused { refusal: E },
}

/// The step that a listing of directory `iid` takes.
pub open spec fn list_step<E>(iid: u64, event: ListEvent<E>) -> ListStep<E> {
    match event {
        ListEvent::Asked { pos } => ListStep::Next { call: FsCall::NextEntry { iid, offset: pos } },
        ListEvent::Entry { reply: Err(e), .. } => ListStep::Failed { error: vfs_error(e) },
        ListEvent::Entry { reply: Ok(None), written_len } => ListStep::Done { written_len },
        ListEvent::Entry { reply: Ok(Some(entry)), .. } => ListStep::Write {
            name: entry.name,
            inode: entry.iid,
            type_: vfs_type(entry.ftype),
        },
        ListEvent::Written { result: Ok(()), pos, .. } => ListStep::Next {
            call: FsCall::NextEntry { iid, offset: pos },
        },
        ListEvent::Written { result: Err(error), written_len, .. } => if written_len == 0 {
            ListStep::Refused { refusal: error }
        } else {
            ListStep::Done { written_len }
        },
    }
}

/// Every call that a listing makes asks for an entry of its own directory, at
/// the position where it is to start or has come to; and it makes one just
/// where it starts or has added an entry.
pub proof fn law_listing_calls<E>(iid: u64, event: ListEvent<E>)
    ensures
        ({
            let step = list_step(iid, event);
            &&& step is Next <==> event is Asked || (event is Written
                && event->Written_result is Ok)
            &&& event matches ListEvent::Asked { pos } ==> step == (ListStep::<E>::Next {
                call: FsCall::NextEntry { iid, offset: pos },
            })
            &&& event matches ListEvent::Written { result: Ok(()), pos, .. } ==> step == (
            ListStep::<E>::Next { call: FsCall::NextEntry { iid, offset: pos } })
        }),
{
}

/// An entry that the engine gives is added under its own name, number and type;
/// where it gives none the listing is done, and where it fails the listing
/// fails. A refused entry ends the listing: done with what it holds, or refused
/// where it holds nothing.
pub proof fn law_listing_replies<E>(iid: u64, event: ListEvent<E>)
    ensures
        ({
            let step = list_step(iid, event);
            &&& event matches ListEvent::Entry { reply: Ok(Some(entry)), .. } ==> {
                &&& step matches ListStep::Write { name, inode, type_ }
                &&& name == entry.name
                &&& inode == entry.iid
                &&& type_ == vfs_type(entry.ftype)
            }
            &&& event matches ListEvent::Entry { reply: Ok(None), written_len } ==> step == (
            ListStep::<E>::Done { written_len })
            &&& event matches ListEvent::Entry { reply: Err(e), .. } ==> step == (ListStep::<
                E,
            >::Failed { error: vfs_error(e) })
            &&& event matches ListEvent::Written { result: Err(error), written_len, .. } ==> {
                &&& written_len == 0 ==> step == (ListStep::<E>::Refused { refusal: error })
                &&& written_len > 0 ==> step == (ListStep::<E>::Done { written_len })
            }
        }),
{
}

/// The engine's reply to a call for the next entry, where `dir` are the entries
/// of directory `iid`, at the positions 0, 1, 2 and so on, and no other
/// directory has any.
pub open spec fn entry_at(iid: u64, dir: Seq<DirEntry>, call: FsCall) -> Option<DirEntry> {
    match call {
        FsCall::NextEntry { iid: asked, offset } => if asked == iid && offset < dir.len() {
            Some(dir[offset as int])
        } else {
            None
        },
        _ => None,
    }
}

/// The course of a listing that stands at the step `step` with `count` entries
/// added, has room for `room` of them, refuses more with `error`, and holds
/// `held(n)` after `n`: the entries added from there on, and the last step.
pub open spec fn listing<E>(
    iid: u64,
    dir: Seq<DirEntry>,
    step: ListStep<E>,
    count: nat,
    room: nat,
    held: spec_fn(nat) -> usize,
    error: E,
) -> (Seq<ListStep<E>>, ListStep<E>)
    decreases room - count,
{
    match step {
        ListStep::Next { call } => {
            let shown = list_step::<E>(
                iid,
                ListEvent::Entry { reply: Ok(entry_at(iid, dir, call)), written_len: held(count) },
            );
            let pos = call->NextEntry_offset;
            if !(shown is Write) {
                (Seq::empty(), shown)
            } else if count < room {
                let step = list_step::<E>(
                    iid,
                    ListEvent::Written {
                        result: Ok(()),
                        pos: (pos + 1) as usize,
                        written_len: held(count + 1),
                    },
                );
                let rest = listing(iid, dir, step, count + 1, room, held, error);
                (seq![shown] + rest.0, rest.1)
            } else {
                (
                    Seq::empty(),
                    list_step(
                        iid,
                        ListEvent::Written { result: Err(error), pos, written_len: held(count) },
                    ),
                )
            }
        },
        _ => (Seq::empty(), step),
    }
}

/// A listing adds the directory's entries from its position on, in order and
/// without a gap, until the directory ends or there is no room. It fails only
/// where it has no room for its first entry; otherwise it tells what it holds.
pub proof fn law_listing_in_order<E>(
    iid: u64,
    dir: Seq<DirEntry>,
    pos: usize,
    count: nat,
    room: nat,
    held: spec_fn(nat) -> usize,
    error: E,
)
    requires
        dir.len() <= usize::MAX,
        count <= room,
    ensures
        ({
            let start = list_step::<E>(iid, ListEvent::Asked { pos });
            let (added, last) = listing(iid, dir, start, count, room, held, error);
            let n: int = if dir.len() <= pos {
                0
            } else if dir.len() - pos <= room - count {
                dir.len() - pos
            } else {
                room - count
            };
            let holds = held((count + n) as nat);
            &&& added == Seq::new(
                n as nat,
                |i: int|
                    ListStep::<E>::Write {
                        name: dir[pos + i].name,
                        inode: dir[pos + i].iid,
                        type_: vfs_type(dir[pos + i].ftype),
                    },
            )
            &&& last == (if pos + n < dir.len() && holds == 0 {
                ListStep::Refused { refusal: error }
            } else {
                ListStep::Done { written_len: holds }
            })
        }),
    decreases room - count,
{
    let start = list_step::<E>(iid, ListEvent::Asked { pos });
    let (added, last) = listing(iid, dir, start, count, room, held, error);
    let n: int = if dir.len() <= pos {
        0
    } else if dir.len() - pos <= room - count {
        dir.len() - pos
    } else {
        room - count
    };
    let expected = Seq::new(
        n as nat,
        |i: int|
            ListStep::<E>::Write {
                name: dir[pos + i].name,
                inode: dir[pos + i].iid,
                type_: vfs_type(dir[pos + i].ftype),
            },
    );
    if pos < dir.len() && count < room {
        law_listing_in_order(iid, dir, (pos + 1) as usize, count + 1, room, held, error);
        let next = list_step::<E>(iid, ListEvent::Asked { pos: (pos + 1) as usize });
        let rest = listing(iid, dir, next, count + 1, room, held, error);
        assert(added == seq![expected[0]] + rest.0);
        assert(added =~= expected);
    } else {
        assert(added =~= expected);
    }
}

impl<F> EccInode<F> {
    /// Reads from the file, as much as a buffer of `len` bytes holds.
    pub fn read_at(&self, offset: usize, len: usize) -> (call: FsCall<'static>)
        ensures
            call == (FsCall::Read { iid: self.iid, offset, len }),
    {
        FsCall::Read { iid: self.iid, offset, len }
    }

    /// Writes a buffer of `len` bytes to the file.
    pub fn write_at(&self, offset: usize, len: usize) -> (call: FsCall<'static>)
        ensures
            call == (FsCall::Write { iid: self.iid, offset, len }),
    {
        FsCall::Write { iid: self.iid, offset, len }
    }

    /// Asks the engine what it keeps of the file.
    pub fn get_meta(&self) -> (call: FsCall<'static>)
        ensures
            call == (FsCall::GetMeta { iid: self.iid }),
    {
        FsCall::GetMeta { iid: self.iid }
    }

    /// What the virtual file system shows of the file, after what the engine
    /// keeps of it.
    pub fn metadata(
        &self,
        reply: Result<EccMetadata, EccFsError>,
        blk_sz: usize,
    ) -> (metadata: Result<VfsMetadata, VfsError>)
        requires
            blk_sz > 0,
            reply matches Ok(meta) ==> meta.size as usize + blk_sz <= usize::MAX,
        ensures
            metadata == (match reply {
                Ok(meta) => Ok::<VfsMetadata, VfsError>(shown_metadata(self.iid, meta, blk_sz)),
                Err(e) => Err(vfs_error(e)),
            }),
    {
        let meta: EccMetadata = match eccfs_try(reply) {
            Ok(meta) => meta,
            Err(e) => return Err(e),
        };
        Ok(
            VfsMetadata {
                dev: 0,
                inode: self.iid as usize,
                size: meta.size as usize,
                blk_size: blk_sz,
                blocks: (meta.size as usize + blk_sz - 1) / blk_sz,
                atime: Timespec { sec: meta.atime as i64, nsec: 0 },
                mtime: Timespec { sec: meta.mtime as i64, nsec: 0 },
                ctime: Timespec { sec: meta.ctime as i64, nsec: 0 },
                type_: eccfs_tp_to_rcore_fs_tp(meta.ftype),
                mode: meta.perm,
                nlinks: meta.nlinks as usize,
                uid: meta.uid as usize,
                gid: meta.gid as usize,
                rdev: 0,
            },
        )
    }

    /// Sets owner, size, times and permissions of the file. `perm` are the
    /// engine's permissions for the mode, without which nothing is set.
    pub fn set_metadata(
        &self,
        metadata: &VfsMetadata,
        perm: Option<u16>,
    ) -> (calls: CallQueue<'static>)
        requires
            perm is Some,
        ensures
            calls@ == metadata_changes(*metadata, perm->0).map_values(
                |set: SetMetadata| FsCall::SetMeta { iid: self.iid, set },
            ),
    {
        let iid: u64 = self.iid;
        let calls = CallQueue::new(
            vec![
                FsCall::SetMeta { iid, set: SetMetadata::Uid(low32_of_usize(metadata.uid)) },
                FsCall::SetMeta { iid, set: SetMetadata::Gid(low32_of_usize(metadata.gid)) },
                FsCall::SetMeta { iid, set: SetMetadata::Size(metadata.size) },
                FsCall::SetMeta { iid, set: SetMetadata::Atime(low32_of_sec(metadata.atime.sec)) },
                FsCall::SetMeta { iid, set: SetMetadata::Ctime(low32_of_sec(metadata.ctime.sec)) },
                FsCall::SetMeta { iid, set: SetMetadata::Mtime(low32_of_sec(metadata.mtime.sec)) },
                FsCall::SetMeta { iid, set: SetMetadata::Permission(perm.unwrap()) },
            ],
        );
        assert(calls@ =~= metadata_changes(*metadata, perm->0).map_values(
            |set: SetMetadata| FsCall::SetMeta { iid: self.iid, set },
        ));
        calls
    }

    /// Writes the file's data, then its metadata back.
    pub fn sync_all(&self) -> (calls: CallQueue<'static>)
        ensures
            calls@ == seq![
                FsCall::SyncData { iid: self.iid },
                FsCall::SyncMeta { iid: self.iid },
            ],
    {
        let calls = CallQueue::new(
            vec![FsCall::SyncData { iid: self.iid }, FsCall::SyncMeta { iid: self.iid }],
        );
        assert(calls@ =~= seq![
            FsCall::SyncData { iid: self.iid },
            FsCall::SyncMeta { iid: self.iid },
        ]);
        calls
    }

    /// Writes the file's data back.
    pub fn sync_data(&self) -> (calls: CallQueue<'static>)
        ensures
            calls@ == seq![FsCall::SyncData { iid: self.iid }],
    {
        let calls = CallQueue::new(vec![FsCall::SyncData { iid: self.iid }]);
        assert(calls@ =~= seq![FsCall::SyncData { iid: self.iid }]);
        calls
    }

    /// Changes the space of the file, where the engine has the mode.
    pub fn fallocate(
        &self,
        mode: &VfsFallocateMode,
        offset: usize,
        len: usize,
    ) -> (calls: Result<CallQueue<'static>, VfsError>)
        ensures
            match ecc_fallocate_mode(*mode) {
                Some(mode) => {
                    &&& calls is Ok
                    &&& calls->Ok_0@ == seq![
                        FsCall::Fallocate { iid: self.iid, mode, offset, len },
                    ]
                },
                None => calls == Err::<CallQueue<'static>, VfsError>(VfsError::NotSupported),
            },
    {
        let ecc_mode = match mode {
            VfsFallocateMode::Allocate { flags } => {
                if *flags == 0 {
                    return Err(VfsError::NotSupported);
                }
                EccFallocateMode::Alloc
            },
            VfsFallocateMode::ZeroRange => EccFallocateMode::ZeroRange,
            VfsFallocateMode::Other => return Err(VfsError::NotSupported),
        };
        let calls = CallQueue::new(
            vec![FsCall::Fallocate { iid: self.iid, mode: ecc_mode, offset, len }],
        );
        assert(calls@ =~= seq![
            FsCall::Fallocate { iid: self.iid, mode: ecc_mode, offset, len },
        ]);
        Ok(calls)
    }

    /// Sets the size of the file.
    pub fn resize(&self, len: usize) -> (calls: CallQueue<'static>)
        ensures
            calls@ == seq![
                FsCall::SetMeta { iid: self.iid, set: SetMetadata::Size(len) },
            ],
    {
        let calls = CallQueue::new(
            vec![FsCall::SetMeta { iid: self.iid, set: SetMetadata::Size(len) }],
        );
        assert(calls@ =~= seq![
            FsCall::SetMeta { iid: self.iid, set: SetMetadata::Size(len) },
        ]);
        calls
    }

    /// Creates a file in this directory, after what the engine keeps of the
    /// directory: the file belongs to the directory's owner and group. `perm`
    /// are the engine's permissions for the file's mode.
    pub fn create<'a>(
        &self,
        reply: Result<EccMetadata, EccFsError>,
        name: &'a str,
        type_: VfsFileType,
        perm: Option<u16>,
    ) -> (call: Result<FsCall<'a>, VfsError>)
        requires
            reply is Ok && ecc_type(type_) is Some ==> perm is Some,
        ensures
            call == (match (reply, ecc_type(type_)) {
                (Err(e), _) => Err::<FsCall<'a>, VfsError>(vfs_error(e)),
                (Ok(_), None) => Err(VfsError::NotSupported),
                (Ok(meta), Some(ftype)) => Ok(
                    FsCall::Create {
                        iid: self.iid,
                        name,
                        ftype,
                        uid: meta.uid,
                        gid: meta.gid,
                        perm: perm->0,
                    },
                ),
            }),
    {
        let meta: EccMetadata = match eccfs_try(reply) {
            Ok(meta) => meta,
            Err(e) => return Err(e),
        };
        match rcore_fs_tp_to_eccfs_tp(type_) {
            Ok(ftype) => Ok(
                FsCall::Create {
                    iid: self.iid,
                    name,
                    ftype,
                    uid: meta.uid,
                    gid: meta.gid,
                    perm: perm.unwrap(),
                },
            ),
            Err(e) => Err(e),
        }
    }

    /// The inode of the file that the engine created.
    pub fn created(&self, reply: Result<u64, EccFsError>) -> (inode: Result<
        Arc<EccInode<F>>,
        VfsError,
    >)
        ensures
            match reply {
                Ok(iid) => {
                    &&& inode is Ok
                    &&& inode->Ok_0.iid == iid
                    &&& inode->Ok_0.fs == self.rcore_fs.fs
                    &&& inode->Ok_0.rcore_fs == self.rcore_fs
                },
                Err(e) => inode == Err::<Arc<EccInode<F>>, VfsError>(vfs_error(e)),
            },
    {
        match eccfs_try(reply) {
            Ok(iid) => Ok(self.rcore_fs.new_inode(iid)),
            Err(e) => Err(e),
        }
    }

    /// Removes a name from this directory.
    pub fn unlink<'a>(&self, name: &'a str) -> (calls: CallQueue<'a>)
        ensures
            calls@ == seq![FsCall::Unlink { iid: self.iid, name }],
    {
        let calls = CallQueue::new(vec![FsCall::Unlink { iid: self.iid, name }]);
        assert(calls@ =~= seq![FsCall::Unlink { iid: self.iid, name }]);
        calls
    }

    /// Gives the file whose inode number was asked for a name in this
    /// directory, or fails as the question did.
    pub fn link<'a, E>(&self, name: &'a str, other: Result<usize, E>) -> (calls: Result<
        CallQueue<'a>,
        E,
    >)
        ensures
            match other {
                Ok(inode) => {
                    &&& calls is Ok
                    &&& calls->Ok_0@ == seq![
                        FsCall::Link { iid: self.iid, name, linkto: inode as u64 },
                    ]
                },
                Err(e) => calls == Err::<CallQueue<'a>, E>(e),
            },
    {
        let linkto: u64 = match other {
            Ok(inode) => inode as u64,
            Err(e) => return Err(e),
        };
        let calls = CallQueue::new(vec![FsCall::Link { iid: self.iid, name, linkto }]);
        assert(calls@ =~= seq![FsCall::Link { iid: self.iid, name, linkto }]);
        Ok(calls)
    }

    /// Moves a name from this directory to the directory whose inode number
    /// was asked for, or fails as the question did.
    pub fn move_<'a, E>(
        &self,
        old_name: &'a str,
        target: Result<usize, E>,
        new_name: &'a str,
    ) -> (calls: Result<CallQueue<'a>, E>)
        ensures
            match target {
                Ok(inode) => {
                    &&& calls is Ok
                    &&& calls->Ok_0@ == seq![
                        FsCall::Rename {
                            iid: self.iid,
                            name: old_name,
                            to: inode as u64,
                            new_name,
                        },
                    ]
                },
                Err(e) => calls == Err::<CallQueue<'a>, E>(e),
            },
    {
        let to: u64 = match target {
            Ok(inode) => inode as u64,
            Err(e) => return Err(e),
        };
        let calls = CallQueue::new(
            vec![FsCall::Rename { iid: self.iid, name: old_name, to, new_name }],
        );
        assert(calls@ =~= seq![FsCall::Rename { iid: self.iid, name: old_name, to, new_name }]);
        Ok(calls)
    }

    /// Asks the engine for a name in this directory.
    pub fn lookup<'a>(&self, name: &'a str) -> (call: FsCall<'a>)
        ensures
            call == (FsCall::Lookup { iid: self.iid, name }),
    {
        FsCall::Lookup { iid: self.iid, name }
    }

    /// The inode that a name in this directory stands for.
    pub fn find(&self, reply: Result<Option<u64>, EccFsError>) -> (inode: Result<
        Arc<EccInode<F>>,
        VfsError,
    >)
        ensures
            match reply {
                Ok(Some(iid)) => {
                    &&& inode is Ok
                    &&& inode->Ok_0.iid == iid
                    &&& inode->Ok_0.fs == self.rcore_fs.fs
                    &&& inode->Ok_0.rcore_fs == self.rcore_fs
                },
                Ok(None) => inode == Err::<Arc<EccInode<F>>, VfsError>(VfsError::EntryNotFound),
                Err(e) => inode == Err::<Arc<EccInode<F>>, VfsError>(vfs_error(e)),
            },
    {
        match eccfs_try(reply) {
            Ok(Some(iid)) => Ok(self.rcore_fs.new_inode(iid)),
            Ok(None) => Err(VfsError::EntryNotFound),
            Err(e) => Err(e),
        }
    }

    /// Asks the engine for the directory entry at a position.
    pub fn next_entry(&self, id: usize) -> (call: FsCall<'static>)
        ensures
            call == (FsCall::NextEntry { iid: self.iid, offset: id }),
    {
        FsCall::NextEntry { iid: self.iid, offset: id }
    }

    /// The name of a directory entry that there is.
    pub fn get_entry(&self, reply: Result<Option<DirEntry>, EccFsError>) -> (name: Result<
        String,
        VfsError,
    >)
        requires
            reply matches Ok(entry) ==> entry is Some,
        ensures
            name == (match reply {
                Ok(entry) => Ok::<String, VfsError>(entry->0.name),
                Err(e) => Err(vfs_error(e)),
            }),
    {
        match eccfs_try(reply) {
            Ok(entry) => Ok(entry.unwrap().name),
            Err(e) => Err(e),
        }
    }

    /// Takes a listing of this directory one step further.
    pub fn iterate_entries<E>(&self, event: ListEvent<E>) -> (step: ListStep<E>)
        ensures
            step == list_step(self.iid, event),
    {
        match event {
            ListEvent::Asked { pos } => ListStep::Next { call: self.next_entry(pos) },
            ListEvent::Entry { reply, written_len } => match eccfs_try(reply) {
                Err(error) => ListStep::Failed { error },
                Ok(None) => ListStep::Done { written_len },
                Ok(Some(entry)) => ListStep::Write {
                    name: entry.name,
                    inode: entry.iid,
                    type_: eccfs_tp_to_rcore_fs_tp(entry.ftype),
                },
            },
            ListEvent::Written { result, pos, written_len } => match result {
                Ok(()) => ListStep::Next { call: self.next_entry(pos) },
                Err(error) => if written_len == 0 {
                    ListStep::Refused { refusal: error }
                } else {
                    ListStep::Done { written_len }
                },
            },
        }
    }

    /// The file system that the inode belongs to.
    pub fn fs(&self) -> (fs: Arc<EccFS<F>>)
        ensures
            fs == self.rcore_fs,
    {
        self.rcore_fs.clone()
    }
}

} // verus!
