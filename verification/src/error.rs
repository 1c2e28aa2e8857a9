//! Errors of the encrypted file system engine and what its callers see of them.

use vstd::prelude::*;

verus! {

/// Errors of the encrypted file system engine.
#[derive(Debug, Clone, Copy, PartialEq, Eq, Structural)]
pub enum EccFsError {
    IOError,
    DirectoryNotEmpty,
    InvalidData,
    InvalidParameter,
    NotFound,
    NotADirectory,
    IsADirectory,
    AlreadyExists,
    PermissionDenied,
    UnexpectedEof,
    NotSupported,
    CryptoError,
    IntegrityCheckError,
    CacheIsFull,
    RwLockError,
    MutexError,
    CacheNeedHint,
    IncompatibleMetadata,
    SuperBlockCheckFailed,
    UnknownError,
}

/// Errors of the virtual file system.
#[derive(Debug, Clone, Copy, PartialEq, Eq, Structural)]
pub enum VfsError {
    NotSupported,
    EntryNotFound,
    EntryExist,
    NotDir,
    IsDir,
    DirNotEmpty,
    InvalidParam,
    PermError,
    WrongFs,
    Busy,
}

/// Errno of an invalid argument.
pub const EINVAL: u32 = 22;

/// Errno of an input/output error.
pub const EIO: u32 = 5;

/// The largest errno.
pub const EHWPOISON: u32 = 133;

/// What the virtual file system reports for an error of the engine.
pub open spec fn vfs_error(from: EccFsError) -> VfsError {
    match from {
        // What may pass by itself.
        EccFsError::IOError | EccFsError::CacheIsFull | EccFsError::RwLockError
        | EccFsError::MutexError => VfsError::Busy,
        // What does not fit the mounted file system.
        EccFsError::IntegrityCheckError | EccFsError::IncompatibleMetadata
        | EccFsError::SuperBlockCheckFailed => VfsError::WrongFs,
        // What was asked or given wrongly.
        EccFsError::InvalidData | EccFsError::InvalidParameter | EccFsError::UnexpectedEof
        | EccFsError::CryptoError => VfsError::InvalidParam,
        EccFsError::NotSupported | EccFsError::CacheNeedHint
        | EccFsError::UnknownError => VfsError::NotSupported,
        // What has a counterpart of its own.
        EccFsError::DirectoryNotEmpty => VfsError::DirNotEmpty,
        EccFsError::NotFound => VfsError::EntryNotFound,
        EccFsError::NotADirectory => VfsError::NotDir,
        EccFsError::IsADirectory => VfsError::IsDir,
        EccFsError::AlreadyExists => VfsError::EntryExist,
        EccFsError::PermissionDenied => VfsError::PermError,
    }
}

/// What the virtual file system reports for an error of the engine.
pub fn eccfs_error_to_rcore_fs_error(from: EccFsError) -> (to: VfsError)
    ensures
        to == vfs_error(from),
{
    match from {
        EccFsError::IOError => VfsError::Busy,
        EccFsError::DirectoryNotEmpty => VfsError::DirNotEmpty,
        EccFsError::InvalidData => VfsError::InvalidParam,
        EccFsError::InvalidParameter => VfsError::InvalidParam,
        EccFsError::NotFound => VfsError::EntryNotFound,
        EccFsError::NotADirectory => VfsError::NotDir,
        EccFsError::IsADirectory => VfsError::IsDir,
        EccFsError::AlreadyExists => VfsError::EntryExist,
        EccFsError::PermissionDenied => VfsError::PermError,
        EccFsError::UnexpectedEof => VfsError::InvalidParam,
        EccFsError::NotSupported => VfsError::NotSupported,
        EccFsError::CryptoError => VfsError::InvalidParam,
        EccFsError::IntegrityCheckError => VfsError::WrongFs,
        EccFsError::CacheIsFull => VfsError::Busy,
        EccFsError::RwLockError => VfsError::Busy,
        EccFsError::MutexError => VfsError::Busy,
        EccFsError::CacheNeedHint => VfsError::NotSupported,
        EccFsError::IncompatibleMetadata => VfsError::WrongFs,
        EccFsError::SuperBlockCheckFailed => VfsError::WrongFs,
        EccFsError::UnknownError => VfsError::NotSupported,
    }
}

/// An engine's reply with its error as the virtual file system reports it.
pub open spec fn vfs_result<T>(reply: Result<T, EccFsError>) -> Result<T, VfsError> {
    match reply {
        Ok(value) => Ok(value),
        Err(e) => Err(vfs_error(e)),
    }
}

/// Passes an engine's reply on to the virtual file system.
pub fn eccfs_try<T>(reply: Result<T, EccFsError>) -> (result: Result<T, VfsError>)
    ensures
        result == vfs_result(reply),
{
    match reply {
        Ok(value) => Ok(value),
        Err(e) => Err(eccfs_error_to_rcore_fs_error(e)),
    }
}

/// A failed input or output, as the engine reports it.
pub open spec fn io_result<T>(done: Result<T, ()>) -> Result<T, EccFsError> {
    match done {
        Ok(value) => Ok(value),
        Err(()) => Err(EccFsError::IOError),
    }
}

/// Passes what came of an input or output on to the engine.
pub fn io_try<T>(done: Result<T, ()>) -> (result: Result<T, EccFsError>)
    ensures
        result == io_result(done),
{
    match done {
        Ok(value) => Ok(value),
        Err(()) => Err(EccFsError::IOError),
    }
}

/// The errno that a mount fails with for the engine's error number: its low
/// byte where that is an errno, `EINVAL` elsewhere.
pub open spec fn mount_errno(code: i32) -> u32 {
    if (code as int) % 256 > EHWPOISON {
        EINVAL
    } else {
        ((code as int) % 256) as u32
    }
}

/// The errno that a mount fails with for the engine's error number.
pub fn eccfs_err_to_occlum(code: i32) -> (errno: u32)
    ensures
        errno == mount_errno(code),
        errno <= EHWPOISON,
{
    assert(code as u8 == (code as int) % 256) by (bit_vector);
    let eno: u8 = code as u8;
    if eno as u32 > EHWPOISON {
        EINVAL
    } else {
        eno as u32
    }
}

/// An errno, taken as an error number, is reported as it is.
pub proof fn law_errno_kept(errno: u32)
    requires
        errno <= EHWPOISON,
    ensures
        mount_errno(errno as i32) == errno,
{
}

/// Which errors of the engine come out as each error of the virtual file
/// system.
pub proof fn law_error_classes(e: EccFsError)
    ensures
        vfs_error(e) is Busy <==> e is IOError || e is CacheIsFull || e is RwLockError
            || e is MutexError,
        vfs_error(e) is WrongFs <==> e is IntegrityCheckError || e is IncompatibleMetadata
            || e is SuperBlockCheckFailed,
        vfs_error(e) is InvalidParam <==> e is InvalidData || e is InvalidParameter
            || e is UnexpectedEof || e is CryptoError,
        vfs_error(e) is NotSupported <==> e is NotSupported || e is CacheNeedHint
            || e is UnknownError,
        vfs_error(e) is DirNotEmpty <==> e is DirectoryNotEmpty,
        vfs_error(e) is EntryNotFound <==> e is NotFound,
        vfs_error(e) is NotDir <==> e is NotADirectory,
        vfs_error(e) is IsDir <==> e is IsADirectory,
        vfs_error(e) is EntryExist <==> e is AlreadyExists,
        vfs_error(e) is PermError <==> e is PermissionDenied,
{
}

/// What succeeds is passed on as it is, to the virtual file system as to the
/// engine. What fails stays failed, an input or output always as an I/O error.
pub proof fn law_results_passed_on<T>(value: T, e: EccFsError)
    ensures
        vfs_result(Ok::<T, EccFsError>(value)) == Ok::<T, VfsError>(value),
        vfs_result(Err::<T, EccFsError>(e)) == Err::<T, VfsError>(vfs_error(e)),
        io_result(Ok::<T, ()>(value)) == Ok::<T, EccFsError>(value),
        io_result(Err::<T, ()>(())) == Err::<T, EccFsError>(EccFsError::IOError),
{
}

/// A mount fails with an errno of at most 133. It differs from the engine's
/// error number by a multiple of 256 where there is such an errno, and is 22
/// where there is none.
pub proof fn law_mount_errno(code: i32, errno: u32)
    ensures
        mount_errno(code) <= 133,
        errno <= 133 && (code - errno) % 256 == 0 ==> mount_errno(code) == errno,
        (code - mount_errno(code)) % 256 == 0 || mount_errno(code) == 22,
{
}

} // verus!
