//! The two vocabularies that meet here: the virtual file system's and the
//! encrypted file system engine's.

use vstd::prelude::*;

use crate::error::VfsError;

verus! {

/// File types of the engine.
#[derive(Debug, Clone, Copy, PartialEq, Eq, Structural)]
pub enum EccFileType {
    Reg,
    Dir,
    Lnk,
}

/// File types of the virtual file system.
#[derive(Debug, Clone, Copy, PartialEq, Eq, Structural)]
pub enum VfsFileType {
    File,
    Dir,
    SymLink,
    /// Any type that the engine has no files of.
    Other,
}

/// The engine's type for a type of the virtual file system, if it has one.
pub open spec fn ecc_type(from: VfsFileType) -> Option<EccFileType> {
    match from {
        VfsFileType::File => Some(EccFileType::Reg),
        VfsFileType::Dir => Some(EccFileType::Dir),
        VfsFileType::SymLink => Some(EccFileType::Lnk),
        VfsFileType::Other => None,
    }
}

/// The virtual file system's type for a type of the engine.
pub open spec fn vfs_type(from: EccFileType) -> VfsFileType {
    match from {
        EccFileType::Reg => VfsFileType::File,
        EccFileType::Dir => VfsFileType::Dir,
        EccFileType::Lnk => VfsFileType::SymLink,
    }
}

/// The engine's type for a type of the virtual file system.
pub fn rcore_fs_tp_to_eccfs_tp(from: VfsFileType) -> (to: Result<EccFileType, VfsError>)
    ensures
        to == (match ecc_type(from) {
            Some(t) => Ok::<EccFileType, VfsError>(t),
            None => Err(VfsError::NotSupported),
        }),
{
    let tp = match from {
        VfsFileType::File => EccFileType::Reg,
        VfsFileType::Dir => EccFileType::Dir,
        VfsFileType::SymLink => EccFileType::Lnk,
        VfsFileType::Other => return Err(VfsError::NotSupported),
    };
    Ok(tp)
}

/// The virtual file system's type for a type of the engine.
pub fn eccfs_tp_to_rcore_fs_tp(from: EccFileType) -> (to: VfsFileType)
    ensures
        to == vfs_type(from),
{
    match from {
        EccFileType::Reg => VfsFileType::File,
        EccFileType::Dir => VfsFileType::Dir,
        EccFileType::Lnk => VfsFileType::SymLink,
    }
}

/// The engine's file types and the virtual file system's types that the engine
/// supports correspond one to one.
pub proof fn law_types_correspond(ecc: EccFileType, vfs: VfsFileType)
    ensures
        ecc_type(vfs) == Some(ecc) <==> vfs_type(ecc) == vfs,
{
}

/// Regular files, directories and links are what they are on both sides, and
/// the engine has nothing else.
pub proof fn law_each_type(ecc: EccFileType, vfs: VfsFileType)
    ensures
        ecc is Reg <==> vfs_type(ecc) is File,
        ecc is Dir <==> vfs_type(ecc) is Dir,
        ecc is Lnk <==> vfs_type(ecc) is SymLink,
        vfs is File <==> ecc_type(vfs) == Some(EccFileType::Reg),
        vfs is Dir <==> ecc_type(vfs) == Some(EccFileType::Dir),
        vfs is SymLink <==> ecc_type(vfs) == Some(EccFileType::Lnk),
        vfs is Other <==> ecc_type(vfs) is None,
{
}

/// What the engine keeps of a file.
#[derive(Debug, Clone, Copy, PartialEq, Eq, Structural)]
pub struct EccMetadata {
    pub size: u64,
    pub atime: u32,
    pub mtime: u32,
    pub ctime: u32,
    pub ftype: EccFileType,
    /// Permission bits.
    pub perm: u16,
    pub nlinks: u32,
    pub uid: u32,
    pub gid: u32,
}

/// A point in time.
#[derive(Debug, Clone, Copy, PartialEq, Eq, Structural)]
pub struct Timespec {
    pub sec: i64,
    pub nsec: i64,
}

/// What the virtual file system shows of a file.
#[derive(Debug, Clone, Copy, PartialEq, Eq, Structural)]
pub struct VfsMetadata {
    pub dev: usize,
    pub inode: usize,
    pub size: usize,
    pub blk_size: usize,
    pub blocks: usize,
    pub atime: Timespec,
    pub mtime: Timespec,
    pub ctime: Timespec,
    pub type_: VfsFileType,
    pub mode: u16,
    pub nlinks: usize,
    pub uid: usize,
    pub gid: usize,
    pub rdev: usize,
}

/// One change of what the engine keeps of a file.
#[derive(Debug, Clone, Copy, PartialEq, Eq, Structural)]
pub enum SetMetadata {
    Size(usize),
    Atime(u32),
    Mtime(u32),
    Ctime(u32),
    Permission(u16),
    Uid(u32),
    Gid(u32),
}

/// The virtual file system's ways to change the space of a file.
#[derive(Debug, Clone, Copy, PartialEq, Eq, Structural)]
pub enum VfsFallocateMode {
    /// Allocate space, as the bits of the flags say.
    Allocate { flags: u64 },
    ZeroRange,
    /// Any mode that the engine lacks.
    Other,
}

/// The engine's ways to change the space of a file.
#[derive(Debug, Clone, Copy, PartialEq, Eq, Structural)]
pub enum EccFallocateMode {
    Alloc,
    ZeroRange,
}

/// The engine's mode for a mode of the virtual file system, if it has one.
/// Allocation counts only with a flag set.
pub open spec fn ecc_fallocate_mode(mode: VfsFallocateMode) -> Option<EccFallocateMode> {
    match mode {
        VfsFallocateMode::Allocate { flags } => if flags == 0 {
            None
        } else {
            Some(EccFallocateMode::Alloc)
        },
        VfsFallocateMode::ZeroRange => Some(EccFallocateMode::ZeroRange),
        VfsFallocateMode::Other => None,
    }
}

/// The engine allocates just where allocation is asked for with a flag set,
/// zeroes just where that is asked for, and knows no other mode.
pub proof fn law_fallocate_modes(mode: VfsFallocateMode)
    ensures
        ecc_fallocate_mode(mode) == Some(EccFallocateMode::Alloc) <==> {
            &&& mode matches VfsFallocateMode::Allocate { flags }
            &&& flags != 0
        },
        ecc_fallocate_mode(mode) == Some(EccFallocateMode::ZeroRange) <==> mode is ZeroRange,
{
}

/// A directory entry of the engine.
#[derive(Debug, PartialEq, Eq)]
pub struct DirEntry {
    pub iid: u64,
    pub name: String,
    pub ftype: EccFileType,
}

/// What the engine tells of itself.
#[derive(Debug, Clone, Copy, PartialEq, Eq, Structural)]
pub struct EccFsInfo {
    pub magic: u64,
    pub bsize: usize,
    pub frsize: usize,
    pub blocks: usize,
    pub bfree: usize,
    pub bavail: usize,
    pub files: usize,
    pub ffree: usize,
    pub namemax: usize,
}

/// What the virtual file system shows of a file system.
#[derive(Debug, Clone, Copy, PartialEq, Eq, Structural)]
pub struct VfsFsInfo {
    pub magic: usize,
    pub bsize: usize,
    pub frsize: usize,
    pub blocks: usize,
    pub bfree: usize,
    pub bavail: usize,
    pub files: usize,
    pub ffree: usize,
    pub namemax: usize,
}

/// The low 32 bits of a number, as an unsigned number.
pub open spec fn low32(value: int) -> u32 {
    (value % 0x1_0000_0000) as u32
}

/// The low 32 bits differ from the number by a multiple of 2 to the power of 32.
pub proof fn law_low32(value: int)
    ensures
        (value - low32(value)) % 0x1_0000_0000 == 0,
        0 <= value <= 0xffff_ffff ==> low32(value) == value,
{
}

/// The low 32 bits of a size.
pub(crate) fn low32_of_usize(value: usize) -> (low: u32)
    ensures
        low == low32(value as int),
{
    assert(value as u32 == (value as int) % 0x1_0000_0000) by (bit_vector);
    value as u32
}

/// The low 32 bits of a number of seconds.
pub(crate) fn low32_of_sec(sec: i64) -> (low: u32)
    ensures
        low == low32(sec as int),
{
    assert(sec as u32 == (sec as int) % 0x1_0000_0000) by (bit_vector);
    sec as u32
}

/// The time of the clock as the engine keeps it: the low 32 bits of its seconds.
pub fn now(sec: i64) -> (time: u32)
    ensures
        time == low32(sec as int),
{
    low32_of_sec(sec)
}

} // verus!
