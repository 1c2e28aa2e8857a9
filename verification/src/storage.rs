//! What the engine is served from: a directory of storages, or one file.

use vstd::prelude::*;

use crate::error::{io_result, io_try, EccFsError};

verus! {

/// The byte between the parts of a path.
pub const SEPARATOR: u8 = 0x2f;

/// The path `path`, taken from the directory `base`. A path that starts with a
/// separator does not depend on the directory.
pub open spec fn joined(base: Seq<u8>, path: Seq<u8>) -> Seq<u8> {
    if path.len() > 0 && path[0] == SEPARATOR {
        path
    } else if base.len() == 0 || base.last() == SEPARATOR {
        base + path
    } else {
        base.push(SEPARATOR) + path
    }
}

/// A relative path leads below the directory it is taken from.
pub proof fn law_joined_below(base: Seq<u8>, path: Seq<u8>)
    requires
        path.len() > 0 ==> path[0] != SEPARATOR,
    ensures
        base.is_prefix_of(joined(base, path)),
{
    assert(joined(base, path).take(base.len() as int) =~= base);
}

/// Different relative paths lead to different places.
pub proof fn law_joined_injective(base: Seq<u8>, a: Seq<u8>, b: Seq<u8>)
    requires
        a.len() > 0 ==> a[0] != SEPARATOR,
        b.len() > 0 ==> b[0] != SEPARATOR,
        joined(base, a) == joined(base, b),
    ensures
        a == b,
{
    let start = if base.len() == 0 || base.last() == SEPARATOR {
        base
    } else {
        base.push(SEPARATOR)
    };
    assert(joined(base, a).skip(start.len() as int) =~= a);
    assert(joined(base, b).skip(start.len() as int) =~= b);
}

/// A relative path ends what it is joined to, right behind a separator: the
/// directory's own last byte where that is one, and one that is put between
/// where it is not.
pub proof fn law_joined_behind_separator(base: Seq<u8>, path: Seq<u8>)
    requires
        base.len() > 0,
        path.len() > 0 ==> path[0] != '/' as u8,
    ensures
        ({
            let full = joined(base, path);
            let at = full.len() - path.len();
            &&& 0 < at <= full.len()
            &&& full.skip(at) == path
            &&& full[at - 1] == '/' as u8
            &&& base.last() == '/' as u8 ==> full.take(at) == base
            &&& base.last() != '/' as u8 ==> full.take(at - 1) == base
        }),
{
    let full = joined(base, path);
    let at = full.len() - path.len();
    assert(full.skip(at) =~= path);
    if base.last() == SEPARATOR {
        assert(full.take(at) =~= base);
    } else {
        assert(full.take(at - 1) =~= base);
    }
}

/// A path that starts with a separator, or that is joined to nothing, is left
/// as it is.
pub proof fn law_joined_alone(base: Seq<u8>, path: Seq<u8>)
    requires
        base.len() == 0 || (path.len() > 0 && path[0] == '/' as u8),
    ensures
        joined(base, path) == path,
{
    if base.len() == 0 {
        assert(base + path =~= path);
    }
}

/// A path of its own, equal to `path`.
pub(crate) fn copied(path: &[u8]) -> (copy: Vec<u8>)
    ensures
        copy@ == path@,
{
    let mut copy: Vec<u8> = Vec::new();
    copy.extend_from_slice(path);
    assert(copy@ =~= path@);
    copy
}

/// A directory of storages, given by its path.
#[derive(Debug)]
pub struct EccFSDevice {
    pub dir: Vec<u8>,
}

impl EccFSDevice {
    /// Whether the storages can be counted, after what is known of the
    /// directory: whether it is one, or that it cannot be asked.
    pub fn nr_storage(&self, is_dir: Result<bool, ()>) -> (countable: Result<(), EccFsError>)
        ensures
            countable == (match is_dir {
                Ok(true) => Ok::<(), EccFsError>(()),
                Ok(false) => Err(EccFsError::NotADirectory),
                Err(()) => Err(EccFsError::IOError),
            }),
    {
        match io_try(is_dir) {
            Ok(true) => Ok(()),
            Ok(false) => Err(EccFsError::NotADirectory),
            Err(e) => Err(e),
        }
    }

    /// Where the storage that the engine calls `path` lies.
    pub fn storage_path(&self, path: &[u8]) -> (full: Vec<u8>)
        ensures
            full@ == joined(self.dir@, path@),
    {
        let mut full: Vec<u8> = Vec::new();
        let absolute: bool = path.len() > 0 && path[0] == SEPARATOR;
        if !absolute {
            full.extend_from_slice(self.dir.as_slice());
            assert(full@ =~= self.dir@);
            if self.dir.len() > 0 && self.dir[self.dir.len() - 1] != SEPARATOR {
                full.push(SEPARATOR);
            }
        }
        full.extend_from_slice(path);
        assert(full@ =~= joined(self.dir@, path@));
        full
    }
}

/// What came of an input or output on a locked file: `None` where the lock
/// could not be had.
pub open spec fn locked_result<T>(done: Option<Result<T, ()>>) -> Result<T, EccFsError> {
    match done {
        Some(done) => io_result(done),
        None => Err(EccFsError::MutexError),
    }
}

/// Passes what came of an input or output on a locked file on to the engine.
pub fn locked_io<T>(done: Option<Result<T, ()>>) -> (result: Result<T, EccFsError>)
    ensures
        result == locked_result(done),
{
    match done {
        Some(done) => io_try(done),
        None => Err(EccFsError::MutexError),
    }
}

/// Without the lock nothing is done, and with it what was done is passed on: a
/// success as it is, a failure as an I/O error.
pub proof fn law_locked_results<T>(value: T)
    ensures
        locked_result(Some(Ok::<T, ()>(value))) == Ok::<T, EccFsError>(value),
        locked_result(Some(Err::<T, ()>(()))) == Err::<T, EccFsError>(EccFsError::IOError),
        locked_result(None::<Result<T, ()>>) == Err::<T, EccFsError>(EccFsError::MutexError),
{
}

/// Where a block that starts at byte `offset` is written, after the length of
/// the file: a block is only written where the file has begun one.
pub fn write_offset(cur_len: Result<u64, EccFsError>, offset: u64) -> (at: Result<u64, EccFsError>)
    requires
        cur_len matches Ok(len) ==> offset < len,
    ensures
        at == (match cur_len {
            Ok(_) => Ok::<u64, EccFsError>(offset),
            Err(e) => Err(e),
        }),
{
    match cur_len {
        Ok(_) => Ok(offset),
        Err(e) => Err(e),
    }
}

} // verus!
