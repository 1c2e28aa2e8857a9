//! Calls on the engine, and series of calls that end with the first failure.

use vstd::prelude::*;

use crate::error::{eccfs_try, vfs_result, EccFsError, VfsError};
use crate::types::{EccFallocateMode, EccFileType, SetMetadata};

verus! {

/// A call on the engine, with all that it takes but the caller's buffers.
#[derive(Debug, Clone, Copy, PartialEq, Eq)]
pub enum FsCall<'a> {
    /// Write everything back.
    Sync,
    /// Read up to `len` bytes into the caller's buffer.
    Read { iid: u64, offset: usize, len: usize },
    /// Write up to `len` bytes from the caller's buffer.
    Write { iid: u64, offset: usize, len: usize },
    GetMeta { iid: u64 },
    SetMeta { iid: u64, set: SetMetadata },
    SyncData { iid: u64 },
    SyncMeta { iid: u64 },
    Fallocate { iid: u64, mode: EccFallocateMode, offset: usize, len: usize },
    Create { iid: u64, name: &'a str, ftype: EccFileType, uid: u32, gid: u32, perm: u16 },
    Unlink { iid: u64, name: &'a str },
    Link { iid: u64, name: &'a str, linkto: u64 },
    Rename { iid: u64, name: &'a str, to: u64, new_name: &'a str },
    Lookup { iid: u64, name: &'a str },
    NextEntry { iid: u64, offset: usize },
}

/// The calls of an operation that are still to be made, in order.
#[derive(Debug)]
pub struct CallQueue<'a> {
    calls: Vec<FsCall<'a>>,
    made: usize,
}

/// What is still to be called after a call's reply: the rest where it went
/// well, nothing where it failed.
pub open spec fn queue_after<'a>(
    queue: Seq<FsCall<'a>>,
    reply: Result<(), EccFsError>,
) -> Seq<FsCall<'a>> {
    match reply {
        Ok(()) => queue.drop_first(),
        Err(_) => Seq::empty(),
    }
}

/// What is still to be called after a series of replies.
pub open spec fn queue_run<'a>(
    queue: Seq<FsCall<'a>>,
    replies: Seq<Result<(), EccFsError>>,
) -> Seq<FsCall<'a>>
    decreases replies.len(),
{
    if replies.len() == 0 {
        queue
    } else {
        queue_after(queue_run(queue, replies.drop_last()), replies.last())
    }
}

/// As long as the replies are good, the calls are made one by one, in order.
pub proof fn law_calls_in_order<'a>(
    queue: Seq<FsCall<'a>>,
    replies: Seq<Result<(), EccFsError>>,
)
    requires
        replies.len() <= queue.len(),
        forall|i: int| 0 <= i < replies.len() ==> #[trigger] replies[i] is Ok,
    ensures
        queue_run(queue, replies) == queue.skip(replies.len() as int),
    decreases replies.len(),
{
    if replies.len() == 0 {
        assert(queue.skip(0) =~= queue);
    } else {
        let n = replies.len() - 1;
        law_calls_in_order(queue, replies.drop_last());
        assert(replies[n] is Ok);
        assert(queue.skip(n).drop_first() =~= queue.skip(n + 1));
    }
}

/// After a failure no call is made any more.
pub proof fn law_failure_ends_calls<'a>(
    queue: Seq<FsCall<'a>>,
    replies: Seq<Result<(), EccFsError>>,
)
    requires
        replies.len() > 0,
        replies.last() is Err,
    ensures
        queue_run(queue, replies) == Seq::<FsCall<'a>>::empty(),
{
}

/// A good reply takes just the call that was made off the queue, a bad one
/// takes all, and a series of replies is taken in one after the other.
pub proof fn law_replies<'a>(
    queue: Seq<FsCall<'a>>,
    call: FsCall<'a>,
    replies: Seq<Result<(), EccFsError>>,
    reply: Result<(), EccFsError>,
)
    ensures
        queue_after(seq![call] + queue, Ok(())) == queue,
        reply is Err ==> queue_after(queue, reply).len() == 0,
        queue_run(queue, Seq::empty()) == queue,
        queue_run(queue, replies.push(reply)) == queue_after(queue_run(queue, replies), reply),
{
    assert((seq![call] + queue).drop_first() =~= queue);
    assert(replies.push(reply).drop_last() =~= replies);
}

impl<'a> View for CallQueue<'a> {
    type V = Seq<FsCall<'a>>;

    closed spec fn view(&self) -> Seq<FsCall<'a>> {
        if self.made <= self.calls@.len() {
            self.calls@.skip(self.made as int)
        } else {
            Seq::empty()
        }
    }
}

impl<'a> CallQueue<'a> {
    /// A queue of these calls.
    pub(crate) fn new(calls: Vec<FsCall<'a>>) -> (queue: CallQueue<'a>)
        ensures
            queue@ == calls@,
    {
        let queue = CallQueue { calls, made: 0 };
        assert(queue@ =~= calls@);
        queue
    }

    /// The call to make now. With none left the operation has succeeded, or
    /// the last reply has said how it failed.
    pub fn next(&self) -> (call: Option<FsCall<'a>>)
        ensures
            call == (if self@.len() > 0 {
                Some(self@[0])
            } else {
                None
            }),
    {
        if self.made < self.calls.len() {
            Some(self.calls[self.made])
        } else {
            None
        }
    }

    /// Takes in the reply to the call that was made. A failure is the
    /// operation's.
    pub fn reply(&mut self, reply: Result<(), EccFsError>) -> (result: Result<(), VfsError>)
        requires
            old(self)@.len() > 0,
        ensures
            result == vfs_result(reply),
            final(self)@ == queue_after(old(self)@, reply),
    {
        match reply {
            Ok(()) => {
                assert(self.made < self.calls.len());
                self.made = self.made + 1;
            },
            Err(_) => {
                self.made = self.calls.len();
            },
        }
        assert(self@ =~= queue_after(old(self)@, reply));
        eccfs_try(reply)
    }
}

} // verus!
