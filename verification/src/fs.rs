//! The mounted file system.

use std::sync::Arc;

use vstd::prelude::*;

use crate::error::{eccfs_err_to_occlum, mount_errno, EIO};
use crate::inode::EccInode;
use crate::queue::{CallQueue, FsCall};
use crate::storage::{copied, EccFSDevice};
use crate::types::{EccFsInfo, VfsFsInfo};

verus! {

/// A mounted file system, served by the engine `F`.
#[derive(Debug)]
pub struct EccFS<F> {
    pub fs: Arc<F>,
    pub writable: bool,
}

/// What has come of a mount in the engine's mode `M` so far.
#[derive(Debug)]
pub enum MountEvent<M, F> {
    /// The mount is asked for.
    Asked { mode: M },
    /// The image file of a read-only mount was opened, or could not be.
    Image { mode: M, opened: bool },
    /// The engine was started, or failed with an error number of its own.
    Started { engine: Result<F, i32> },
}

/// What a mount takes next.
#[derive(Debug)]
pub enum MountStep<M, F> {
    /// Start the read-write engine on a directory of storages. `first`, `third`
    /// and `fourth` are the arguments of its constructor at these places.
    StartReadWrite {
        first: bool,
        mode: M,
        third: Option<usize>,
        fourth: usize,
        device: EccFSDevice,
    },
    /// Open the image file at this path for reading, and keep the mode.
    OpenImage { mode: M, path: Vec<u8> },
    /// Start the read-only engine on the opened image, with a cache of this
    /// size. `third` and `fourth` are the arguments of its constructor at these
    /// places.
    StartReadOnly { mode: M, cache_size: usize, third: Option<usize>, fourth: usize },
    /// The file system is mounted.
    Mounted { fs: Arc<EccFS<F>> },
    /// The mount has failed.
    Failed { errno: u32 },
}

/// The mathematical value of a `MountStep`.
pub enum MountStepView<M, F> {
    StartReadWrite {
        first: bool,
        mode: M,
        third: Option<usize>,
        fourth: usize,
        dir: Seq<u8>,
    },
    OpenImage { mode: M, path: Seq<u8> },
    StartReadOnly { mode: M, cache_size: usize, third: Option<usize>, fourth: usize },
    Mounted { engine: F, writable: bool },
    Failed { errno: u32 },
}

impl<M, F> View for MountStep<M, F> {
    type V = MountStepView<M, F>;

    open spec fn view(&self) -> MountStepView<M, F> {
        match *self {
            MountStep::StartReadWrite {
                first,
                mode,
                third,
                fourth,
                device,
            } => MountStepView::StartReadWrite { first, mode, third, fourth, dir: device.dir@ },
            MountStep::OpenImage { mode, path } => MountStepView::OpenImage { mode, path: path@ },
            MountStep::StartReadOnly {
                mode,
                cache_size,
                third,
                fourth,
            } => MountStepView::StartReadOnly { mode, cache_size, third, fourth },
            MountStep::Mounted { fs } => MountStepView::Mounted {
                engine: *fs.fs,
                writable: fs.writable,
            },
            MountStep::Failed { errno } => MountStepView::Failed { errno },
        }
    }
}

/// The step that the mount of what lies at `path` takes.
pub open spec fn mount_step<M, F>(
    path: Seq<u8>,
    writable: bool,
    cache_size: Option<u64>,
    event: MountEvent<M, F>,
) -> MountStepView<M, F> {
    match event {
        MountEvent::Asked { mode } => if writable {
            MountStepView::StartReadWrite {
                first: false,
                mode,
                third: None,
                fourth: 0,
                dir: path,
            }
        } else {
            MountStepView::OpenImage { mode, path }
        },
        MountEvent::Image { mode, opened } => if opened {
            MountStepView::StartReadOnly {
                mode,
                cache_size: match cache_size {
                    Some(size) => size as usize,
                    None => 0,
                },
                third: Some(0),
                fourth: 0,
            }
        } else {
            MountStepView::Failed { errno: EIO }
        },
        MountEvent::Started { engine: Ok(engine) } => MountStepView::Mounted { engine, writable },
        MountEvent::Started { engine: Err(code) } => MountStepView::Failed {
            errno: mount_errno(code),
        },
    }
}

/// How a mount ends, where the image can be opened if `opened` says so and the
/// engine is started with the result `engine`.
pub open spec fn mount_outcome<M, F>(
    path: Seq<u8>,
    writable: bool,
    mode: M,
    cache_size: Option<u64>,
    opened: bool,
    engine: Result<F, i32>,
) -> MountStepView<M, F> {
    let started = mount_step::<M, F>(path, writable, cache_size, MountEvent::Started { engine });
    match mount_step::<M, F>(path, writable, cache_size, MountEvent::Asked { mode }) {
        MountStepView::StartReadWrite { .. } => started,
        MountStepView::OpenImage { mode, .. } => {
            let event = MountEvent::Image { mode, opened };
            match mount_step::<M, F>(path, writable, cache_size, event) {
                MountStepView::StartReadOnly { .. } => started,
                step => step,
            }
        },
        step => step,
    }
}

/// A mount succeeds where its engine starts, and serves that engine, writable
/// as asked; a read-only mount also needs its image, and fails with `EIO`
/// without it; the engine's failure is the mount's.
pub proof fn law_mount<M, F>(
    path: Seq<u8>,
    writable: bool,
    mode: M,
    cache_size: Option<u64>,
    opened: bool,
    engine: Result<F, i32>,
)
    ensures
        mount_outcome(path, writable, mode, cache_size, opened, engine) == (if !writable
            && !opened {
            MountStepView::<M, F>::Failed { errno: EIO }
        } else {
            match engine {
                Ok(engine) => MountStepView::Mounted { engine, writable },
                Err(code) => MountStepView::Failed { errno: mount_errno(code) },
            }
        }),
{
}

/// What each event of a mount leads to: the engine of its kind is asked for
/// with the mode, path and cache size of the mount; an image that cannot be
/// opened fails it with errno 5; an engine that starts is mounted; one that
/// does not fails it with the errno for its error number.
pub proof fn law_each_mount_step<M, F>(
    path: Seq<u8>,
    writable: bool,
    cache_size: Option<u64>,
    event: MountEvent<M, F>,
)
    ensures
        ({
            let step = mount_step(path, writable, cache_size, event);
            &&& event matches MountEvent::Asked { mode } ==> {
                &&& writable ==> {
                    &&& step matches MountStepView::StartReadWrite {
                        first,
                        mode: given,
                        third,
                        fourth,
                        dir,
                    }
                    &&& given == mode
                    &&& dir == path
                    &&& !first && third is None && fourth == 0
                }
                &&& !writable ==> step == (MountStepView::<M, F>::OpenImage { mode, path })
            }
            &&& event matches MountEvent::Image { mode, opened } ==> {
                &&& opened ==> {
                    &&& step matches MountStepView::StartReadOnly {
                        mode: given,
                        cache_size: size,
                        third,
                        fourth,
                    }
                    &&& given == mode
                    &&& cache_size is None ==> size == 0
                    &&& cache_size is Some ==> size == cache_size->0 as usize
                    &&& third == Some(0usize) && fourth == 0
                }
                &&& !opened ==> step == (MountStepView::<M, F>::Failed { errno: 5 })
            }
            &&& event matches MountEvent::Started { engine: Ok(engine) } ==> step == (
            MountStepView::<M, F>::Mounted { engine, writable })
            &&& event matches MountEvent::Started { engine: Err(code) } ==> step == (
            MountStepView::<M, F>::Failed { errno: mount_errno(code) })
        }),
{
}

/// The value of a step has what the step holds.
pub proof fn law_mount_step_view<M, F>(step: MountStep<M, F>)
    ensures
        step matches MountStep::StartReadWrite { first, mode, third, fourth, device } ==> step@ == (
        MountStepView::<M, F>::StartReadWrite { first, mode, third, fourth, dir: device.dir@ }),
        step matches MountStep::OpenImage { mode, path } ==> step@ == (
        MountStepView::<M, F>::OpenImage { mode, path: path@ }),
        step matches MountStep::StartReadOnly { mode, cache_size, third, fourth } ==> step@ == (
        MountStepView::<M, F>::StartReadOnly { mode, cache_size, third, fourth }),
        step matches MountStep::Mounted { fs } ==> step@ == (MountStepView::<M, F>::Mounted {
            engine: *fs.fs,
            writable: fs.writable,
        }),
        step matches MountStep::Failed { errno } ==> step@ == (MountStepView::<M, F>::Failed {
            errno,
        }),
{
}

/// A mount starts one engine only, by its kind: in the mode and on the path
/// that it was asked for, and with the same fixed arguments every time.
pub proof fn law_engine_started<M, F>(
    path: Seq<u8>,
    writable: bool,
    mode: M,
    cache_size: Option<u64>,
)
    ensures
        ({
            let asked = mount_step::<M, F>(path, writable, cache_size, MountEvent::Asked { mode });
            if writable {
                asked == (MountStepView::<M, F>::StartReadWrite {
                    first: false,
                    mode,
                    third: None,
                    fourth: 0,
                    dir: path,
                })
            } else {
                &&& asked == (MountStepView::<M, F>::OpenImage { mode, path })
                &&& mount_step::<M, F>(
                    path,
                    writable,
                    cache_size,
                    MountEvent::Image { mode: asked->OpenImage_mode, opened: true },
                ) == (MountStepView::<M, F>::StartReadOnly {
                    mode,
                    cache_size: match cache_size {
                        Some(size) => size as usize,
                        None => 0,
                    },
                    third: Some(0),
                    fourth: 0,
                })
            }
        }),
{
}

impl<F> EccFS<F> {
    /// Takes the mount of what lies at `path` one step further. A writable
    /// mount starts the read-write engine on the directory there, any other
    /// opens the image there and starts the read-only engine on it, without a
    /// cache where no size is given.
    pub fn new<M>(
        path: &[u8],
        writable: bool,
        cache_size: Option<u64>,
        event: MountEvent<M, F>,
    ) -> (step: MountStep<M, F>)
        ensures
            step@ == mount_step(path@, writable, cache_size, event),
    {
        match event {
            MountEvent::Asked { mode } => if writable {
                MountStep::StartReadWrite {
                    first: false,
                    mode,
                    third: None,
                    fourth: 0,
                    device: EccFSDevice { dir: copied(path) },
                }
            } else {
                MountStep::OpenImage { mode, path: copied(path) }
            },
            MountEvent::Image { mode, opened } => if opened {
                MountStep::StartReadOnly {
                    mode,
                    cache_size: cache_size.unwrap_or(0) as usize,
                    third: Some(0),
                    fourth: 0,
                }
            } else {
                MountStep::Failed { errno: EIO }
            },
            MountEvent::Started { engine } => match engine {
                Ok(engine) => MountStep::Mounted {
                    fs: Arc::new(EccFS { fs: Arc::new(engine), writable }),
                },
                Err(code) => MountStep::Failed { errno: eccfs_err_to_occlum(code) },
            },
        }
    }

    /// The inode of this number.
    pub fn new_inode(self: &Arc<Self>, iid: u64) -> (inode: Arc<EccInode<F>>)
        ensures
            inode.iid == iid,
            inode.fs == self.fs,
            inode.rcore_fs == self,
    {
        Arc::new(EccInode { iid, fs: self.fs.clone(), rcore_fs: self.clone() })
    }

    /// The root inode, which the engine numbers `root`.
    pub fn root_inode(self: &Arc<Self>, root: u64) -> (inode: Arc<EccInode<F>>)
        ensures
            inode.iid == root,
            inode.fs == self.fs,
            inode.rcore_fs == self,
    {
        self.new_inode(root)
    }

    /// Writes the file system back.
    pub fn sync(&self) -> (calls: CallQueue<'static>)
        ensures
            calls@ == seq![FsCall::Sync],
    {
        let calls = CallQueue::new(vec![FsCall::Sync]);
        assert(calls@ =~= seq![FsCall::Sync]);
        calls
    }

    /// What the virtual file system shows of the file system.
    pub fn info(&self, i: EccFsInfo) -> (info: VfsFsInfo)
        ensures
            info == (VfsFsInfo {
                magic: i.magic as usize,
                bsize: i.bsize,
                frsize: i.frsize,
                blocks: i.blocks,
                bfree: i.bfree,
                bavail: i.bavail,
                files: i.files,
                ffree: i.ffree,
                namemax: i.namemax,
            }),
    {
        VfsFsInfo {
            magic: i.magic as usize,
            bsize: i.bsize,
            frsize: i.frsize,
            blocks: i.blocks,
            bfree: i.bfree,
            bavail: i.bavail,
            files: i.files,
            ffree: i.ffree,
            namemax: i.namemax,
        }
    }
}

} // verus!
