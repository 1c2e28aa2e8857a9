//! The pool manager's side of its conversations, as a state machine.
//!
//! The driver performs each action and reports what came of it as the next
//! event. One connection is served at a time.

use vstd::prelude::*;

use crate::bytes::ByteOrder;
use crate::enclave::{
    hdr_value,
    hdr_wire,
    info_hdr,
    info_wire,
    law_wire_of_info,
    ranges_value,
    EnclaveInfo,
    EnclaveInfoHdr,
    EnclaveInfoView,
    EnclaveRange,
    HDR_SIZE,
};
use crate::pool::{
    eid_path,
    get_eid_path,
    law_null_hdr_is_zero,
    law_reply_tells_empty,
    null_hdr,
    pool_wf,
    received_fd,
    EnclavePool,
    GetReply,
};

verus! {

/// The command byte that asks for an enclave.
pub const COMMAND_GET: u8 = 0x67;

/// The command byte that saves an enclave.
pub const COMMAND_SAVE: u8 = 0x73;

/// What the manager waits for.
#[derive(Debug)]
enum Session {
    /// The next connection and its command byte.
    Idle,
    /// The header of an enclave that is being saved.
    Header,
    /// The ranges that the header counts.
    Ranges { hdr: EnclaveInfoHdr },
    /// The enclave's descriptor.
    Descriptor { hdr: EnclaveInfoHdr, ranges: Vec<EnclaveRange> },
}

/// What came of the last action.
#[derive(Debug)]
pub enum Event {
    /// The listener failed to take a connection.
    AcceptFailed,
    /// A connection gave no command byte.
    CommandUnread,
    /// A connection gave this command byte.
    Command { byte: u8 },
    /// The bytes that were asked for.
    Bytes { bytes: Vec<u8> },
    /// The first control message of a hand-over: the descriptors that it
    /// carries, or `None` where it carries none.
    Rights { fds: Option<Vec<i32>> },
}

/// What the driver is to do next.
#[derive(Debug, PartialEq, Eq)]
pub enum Action {
    /// Stop listening, remove the manager's socket and end.
    Stop,
    /// Drop the connection, which gave no command, and take the next one.
    Skip,
    /// Drop the connection, whose command is unknown, and take the next one.
    Invalid,
    /// Read exactly so many bytes from the connection.
    Read { len: u64 },
    /// Write the bytes to the connection, then take the next one.
    Send { bytes: Vec<u8> },
    /// Write the bytes to the connection, hand `efd` over by `path`, then take
    /// the next connection.
    SendEnclave { bytes: Vec<u8>, efd: i32, path: String },
    /// Take over a descriptor by `path`.
    Receive { path: String },
    /// The enclave is in the pool: take the next connection.
    Stored,
}

/// The mathematical value of what the manager waits for.
pub enum SessionView {
    Idle,
    Header,
    Ranges { hdr: EnclaveInfoHdr },
    Descriptor { hdr: EnclaveInfoHdr, ranges: Seq<EnclaveRange> },
}

/// The mathematical value of an `Event`.
pub enum EventView {
    AcceptFailed,
    CommandUnread,
    Command { byte: u8 },
    Bytes { bytes: Seq<u8> },
    Rights { fds: Option<Seq<i32>> },
}

/// The mathematical value of an `Action`.
pub enum ActionView {
    Stop,
    Skip,
    Invalid,
    Read { len: u64 },
    Send { bytes: Seq<u8> },
    SendEnclave { bytes: Seq<u8>, efd: i32, path: Seq<char> },
    Receive { path: Seq<char> },
    Stored,
}

/// The mathematical value of a `Server`.
#[verifier::ext_equal]
pub struct ServerView {
    pub order: ByteOrder,
    pub pool: Seq<EnclaveInfoView>,
    pub session: SessionView,
}

/// The pool manager.
#[derive(Debug)]
pub struct Server {
    order: ByteOrder,
    pool: EnclavePool,
    session: Session,
}

impl View for Event {
    type V = EventView;

    open spec fn view(&self) -> EventView {
        match self {
            Event::AcceptFailed => EventView::AcceptFailed,
            Event::CommandUnread => EventView::CommandUnread,
            Event::Command { byte } => EventView::Command { byte: *byte },
            Event::Bytes { bytes } => EventView::Bytes { bytes: bytes@ },
            Event::Rights { fds } => EventView::Rights {
                fds: match fds {
                    Some(list) => Some(list@),
                    None => None,
                },
            },
        }
    }
}

impl View for Action {
    type V = ActionView;

    open spec fn view(&self) -> ActionView {
        match self {
            Action::Stop => ActionView::Stop,
            Action::Skip => ActionView::Skip,
            Action::Invalid => ActionView::Invalid,
            Action::Read { len } => ActionView::Read { len: *len },
            Action::Send { bytes } => ActionView::Send { bytes: bytes@ },
            Action::SendEnclave { bytes, efd, path } => ActionView::SendEnclave {
                bytes: bytes@,
                efd: *efd,
                path: path@,
            },
            Action::Receive { path } => ActionView::Receive { path: path@ },
            Action::Stored => ActionView::Stored,
        }
    }
}

impl View for Server {
    type V = ServerView;

    closed spec fn view(&self) -> ServerView {
        ServerView {
            order: self.order,
            pool: self.pool@,
            session: match self.session {
                Session::Idle => SessionView::Idle,
                Session::Header => SessionView::Header,
                Session::Ranges { hdr } => SessionView::Ranges { hdr },
                Session::Descriptor { hdr, ranges } => SessionView::Descriptor {
                    hdr,
                    ranges: ranges@,
                },
            },
        }
    }
}

/// The event is one that can follow: it is of the awaited kind, as long as was
/// asked for, an enclave has ranges, and a hand-over carries one descriptor.
pub open spec fn admits(server: ServerView, event: EventView) -> bool {
    match server.session {
        SessionView::Idle => event is AcceptFailed || event is CommandUnread || event is Command,
        SessionView::Header => {
            &&& event is Bytes
            &&& event->bytes.len() == 8
            &&& hdr_value(server.order, event->bytes).nr_range != 0
        },
        SessionView::Ranges { hdr } => {
            &&& event is Bytes
            &&& event->bytes.len() == 24 * hdr.nr_range
        },
        SessionView::Descriptor { .. } => {
            &&& event is Rights
            &&& event->fds matches Some(fds) ==> fds.len() == 1
        },
    }
}

/// What holds of the manager between any two events.
pub open spec fn server_wf(server: ServerView) -> bool {
    &&& pool_wf(server.pool)
    &&& match server.session {
        SessionView::Idle => true,
        SessionView::Header => true,
        SessionView::Ranges { hdr } => hdr.nr_range != 0,
        SessionView::Descriptor { hdr, ranges } => {
            &&& hdr.nr_range != 0
            &&& ranges.len() == hdr.nr_range
        },
    }
}

/// The answer to a client that asks for an enclave.
pub open spec fn get_answer(order: ByteOrder, pool: Seq<EnclaveInfoView>) -> ActionView {
    if pool.len() == 0 {
        ActionView::Send { bytes: hdr_wire(order, null_hdr()) }
    } else {
        ActionView::SendEnclave {
            bytes: info_wire(order, pool.last()),
            efd: pool.last().efd,
            path: eid_path(pool.last().id),
        }
    }
}

/// The state that an event leads to.
pub open spec fn next_state(server: ServerView, event: EventView) -> ServerView {
    match (server.session, event) {
        (SessionView::Idle, EventView::Command { byte }) => if byte == COMMAND_GET {
            ServerView {
                pool: if server.pool.len() == 0 {
                    server.pool
                } else {
                    server.pool.drop_last()
                },
                session: SessionView::Idle,
                ..server
            }
        } else if byte == COMMAND_SAVE {
            ServerView { session: SessionView::Header, ..server }
        } else {
            server
        },
        (SessionView::Header, EventView::Bytes { bytes }) => ServerView {
            session: SessionView::Ranges { hdr: hdr_value(server.order, bytes) },
            ..server
        },
        (SessionView::Ranges { hdr }, EventView::Bytes { bytes }) => ServerView {
            session: SessionView::Descriptor { hdr, ranges: ranges_value(server.order, bytes) },
            ..server
        },
        (SessionView::Descriptor { hdr, ranges }, EventView::Rights { fds }) => ServerView {
            pool: server.pool.push(
                EnclaveInfoView {
                    id: hdr.id,
                    efd: match fds {
                        Some(list) => list[0],
                        None => -1i32,
                    },
                    ranges,
                },
            ),
            session: SessionView::Idle,
            ..server
        },
        _ => server,
    }
}

/// The action that an event leads to.
pub open spec fn next_action(server: ServerView, event: EventView) -> ActionView {
    match (server.session, event) {
        (_, EventView::AcceptFailed) => ActionView::Stop,
        (_, EventView::CommandUnread) => ActionView::Skip,
        (_, EventView::Command { byte }) => if byte == COMMAND_GET {
            get_answer(server.order, server.pool)
        } else if byte == COMMAND_SAVE {
            ActionView::Read { len: 8 }
        } else {
            ActionView::Invalid
        },
        (SessionView::Header, EventView::Bytes { bytes }) => ActionView::Read {
            len: (24 * hdr_value(server.order, bytes).nr_range) as u64,
        },
        (SessionView::Ranges { hdr }, _) => ActionView::Receive { path: eid_path(hdr.id) },
        _ => ActionView::Stored,
    }
}

impl Server {
    /// A manager with an empty pool that waits for its first connection, on a
    /// machine of this byte order.
    pub fn new(order: ByteOrder) -> (server: Server)
        ensures
            server@ == (ServerView { order, pool: Seq::empty(), session: SessionView::Idle }),
            server_wf(server@),
    {
        Server { order, pool: EnclavePool::new(), session: Session::Idle }
    }

    /// Takes in what came of the last action and tells what to do next.
    pub fn step(&mut self, event: Event) -> (action: Action)
        requires
            server_wf(old(self)@),
            admits(old(self)@, event@),
        ensures
            final(self)@ == next_state(old(self)@, event@),
            action@ == next_action(old(self)@, event@),
            server_wf(final(self)@),
    {
        match event {
            Event::AcceptFailed => Action::Stop,
            Event::CommandUnread => Action::Skip,
            Event::Command { byte } => {
                if byte == COMMAND_GET {
                    match self.pool.handle_get(self.order) {
                        GetReply::Empty { bytes } => Action::Send { bytes },
                        GetReply::Enclave { bytes, efd, id } => Action::SendEnclave {
                            bytes,
                            efd,
                            path: get_eid_path(id),
                        },
                    }
                } else if byte == COMMAND_SAVE {
                    self.session = Session::Header;
                    Action::Read { len: HDR_SIZE as u64 }
                } else {
                    Action::Invalid
                }
            },
            Event::Bytes { bytes } => {
                match &self.session {
                    Session::Ranges { hdr } => {
                        let hdr: EnclaveInfoHdr = *hdr;
                        let ranges: Vec<EnclaveRange> = EnclaveInfo::parse_ranges(
                            self.order,
                            hdr,
                            bytes.as_slice(),
                        );
                        self.session = Session::Descriptor { hdr, ranges };
                        Action::Receive { path: get_eid_path(hdr.id) }
                    },
                    _ => {
                        let hdr = EnclaveInfoHdr::from_bytes(self.order, bytes.as_slice());
                        self.session = Session::Ranges { hdr };
                        Action::Read { len: hdr.ranges_size() }
                    },
                }
            },
            Event::Rights { fds } => {
                let mut session = Session::Idle;
                std::mem::swap(&mut self.session, &mut session);
                match session {
                    Session::Descriptor { hdr, ranges } => {
                        let efd: i32 = received_fd(&fds);
                        self.pool.handle_save(hdr, ranges, efd);
                        Action::Stored
                    },
                    _ => Action::Stored,
                }
            },
        }
    }
}

/// The state after a series of events.
pub open spec fn run(server: ServerView, events: Seq<EventView>) -> ServerView
    decreases events.len(),
{
    if events.len() == 0 {
        server
    } else {
        next_state(run(server, events.drop_last()), events.last())
    }
}

/// Every event of the series is one that can follow the ones before it.
pub open spec fn admits_all(server: ServerView, events: Seq<EventView>) -> bool {
    forall|i: int|
        0 <= i < events.len() ==> admits(#[trigger] run(server, events.take(i)), events[i])
}

/// What a client that saves an enclave sends. `fd` is the descriptor that the
/// hand-over carries, or `None` where its first control message carries none.
pub struct Saving {
    pub hdr: Seq<u8>,
    pub ranges: Seq<u8>,
    pub fd: Option<i32>,
}

/// The descriptor that an enclave is stored with: -1 where none was carried.
pub open spec fn saving_efd(saving: Saving) -> i32 {
    match saving.fd {
        Some(fd) => fd,
        None => -1i32,
    }
}

/// A header that counts some ranges, and the bytes of that many ranges, in a
/// byte order.
pub open spec fn saving_valid(order: ByteOrder, saving: Saving) -> bool {
    &&& saving.hdr.len() == 8
    &&& hdr_value(order, saving.hdr).nr_range != 0
    &&& saving.ranges.len() == 24 * hdr_value(order, saving.hdr).nr_range
}

/// The enclave that a client saves, in a byte order.
pub open spec fn saving_info(order: ByteOrder, saving: Saving) -> EnclaveInfoView {
    EnclaveInfoView {
        id: hdr_value(order, saving.hdr).id,
        efd: saving_efd(saving),
        ranges: ranges_value(order, saving.ranges),
    }
}

/// A client's request for an enclave.
pub open spec fn get_event() -> EventView {
    EventView::Command { byte: COMMAND_GET }
}

/// The course of saving one enclave.
pub open spec fn save_events(saving: Saving) -> Seq<EventView> {
    seq![
        EventView::Command { byte: COMMAND_SAVE },
        EventView::Bytes { bytes: saving.hdr },
        EventView::Bytes { bytes: saving.ranges },
        EventView::Rights {
            fds: match saving.fd {
                Some(fd) => Some(seq![fd]),
                None => None,
            },
        },
    ]
}

/// The course of saving one enclave after the other.
pub open spec fn all_save_events(savings: Seq<Saving>) -> Seq<EventView>
    decreases savings.len(),
{
    if savings.len() == 0 {
        Seq::empty()
    } else {
        all_save_events(savings.drop_last()) + save_events(savings.last())
    }
}

/// `n` requests for an enclave.
pub open spec fn get_events(n: nat) -> Seq<EventView> {
    Seq::new(n, |i: int| get_event())
}

/// Running two series one after the other is running them joined.
pub proof fn lemma_run_joined(server: ServerView, first: Seq<EventView>, second: Seq<EventView>)
    ensures
        run(server, first + second) == run(run(server, first), second),
    decreases second.len(),
{
    if second.len() == 0 {
        assert(first + second =~= first);
    } else {
        lemma_run_joined(server, first, second.drop_last());
        assert((first + second).drop_last() =~= first + second.drop_last());
    }
}

/// A client that saves an enclave is asked for the header, for the ranges that
/// the header counts, and for the descriptor by the enclave's path; then the
/// enclave lies on top of the pool.
pub proof fn law_save(server: ServerView, saving: Saving)
    requires
        server.session is Idle,
        saving_valid(server.order, saving),
    ensures
        admits_all(server, save_events(saving)),
        next_action(server, save_events(saving)[0]) == (ActionView::Read { len: 8 }),
        next_action(run(server, save_events(saving).take(1)), save_events(saving)[1]) == (
        ActionView::Read { len: saving.ranges.len() as u64 }),
        next_action(run(server, save_events(saving).take(2)), save_events(saving)[2]) == (
        ActionView::Receive { path: eid_path(hdr_value(server.order, saving.hdr).id) }),
        next_action(run(server, save_events(saving).take(3)), save_events(saving)[3])
            == ActionView::Stored,
        run(server, save_events(saving)) == (ServerView {
            order: server.order,
            pool: server.pool.push(saving_info(server.order, saving)),
            session: SessionView::Idle,
        }),
{
    let events = save_events(saving);
    assert(events.take(0) =~= Seq::<EventView>::empty());
    assert(events.take(1).drop_last() =~= events.take(0));
    assert(events.take(2).drop_last() =~= events.take(1));
    assert(events.take(3).drop_last() =~= events.take(2));
    assert(events.drop_last() =~= events.take(3));
    assert(events.take(1).last() == events[0]);
    assert(events.take(2).last() == events[1]);
    assert(events.take(3).last() == events[2]);
    assert(run(server, events.take(0)) == server);
    assert(run(server, events.take(1)).session is Header);
    assert(run(server, events.take(2)).session == SessionView::Ranges {
        hdr: hdr_value(server.order, saving.hdr),
    });
    assert(run(server, events.take(3)).session is Descriptor);
    assert forall|i: int| 0 <= i < events.len() implies admits(
        #[trigger] run(server, events.take(i)),
        events[i],
    ) by {
        assert(i == 0 || i == 1 || i == 2 || i == 3);
    }
}

/// The enclave saved last is handed out next, described by the very bytes that
/// came in when it was saved, with the same descriptor, or -1 where none was
/// carried, and by the same path; and the pool is then as it was before.
pub proof fn law_save_then_get(server: ServerView, saving: Saving)
    requires
        server.session is Idle,
        saving_valid(server.order, saving),
    ensures
        next_action(run(server, save_events(saving)), get_event()) == (ActionView::SendEnclave {
            bytes: saving.hdr + saving.ranges,
            efd: saving_efd(saving),
            path: eid_path(hdr_value(server.order, saving.hdr).id),
        }),
        next_state(run(server, save_events(saving)), get_event()) == server,
{
    law_save(server, saving);
    law_wire_of_info(server.order, saving.hdr, saving.ranges, saving_efd(saving));
    assert(server.pool.push(saving_info(server.order, saving)).drop_last() =~= server.pool);
}

/// An enclave whose hand-over carries no descriptor is stored all the same,
/// with the descriptor -1, and handed out next with that and the very bytes
/// that came in.
pub proof fn law_save_without_descriptor(server: ServerView, hdr: Seq<u8>, ranges: Seq<u8>)
    requires
        server.session is Idle,
        saving_valid(server.order, (Saving { hdr, ranges, fd: None })),
    ensures
        ({
            let events = save_events(Saving { hdr, ranges, fd: None });
            let saved = run(server, events);
            &&& events.last() == (EventView::Rights { fds: None })
            &&& admits_all(server, events)
            &&& saved == (ServerView {
                order: server.order,
                pool: server.pool.push(
                    EnclaveInfoView {
                        id: hdr_value(server.order, hdr).id,
                        efd: -1i32,
                        ranges: ranges_value(server.order, ranges),
                    },
                ),
                session: SessionView::Idle,
            })
            &&& next_action(saved, get_event()) == (ActionView::SendEnclave {
                bytes: hdr + ranges,
                efd: -1i32,
                path: eid_path(hdr_value(server.order, hdr).id),
            })
        }),
{
    let saving = Saving { hdr, ranges, fd: None };
    law_save(server, saving);
    law_save_then_get(server, saving);
}

/// Saving several enclaves stacks them on the pool in order.
pub proof fn lemma_saves(server: ServerView, savings: Seq<Saving>)
    requires
        server.session is Idle,
        forall|i: int| 0 <= i < savings.len() ==> saving_valid(server.order, #[trigger] savings[i]),
    ensures
        run(server, all_save_events(savings)) == (ServerView {
            order: server.order,
            pool: server.pool + Seq::new(
                savings.len(),
                |i: int| saving_info(server.order, savings[i]),
            ),
            session: SessionView::Idle,
        }),
    decreases savings.len(),
{
    let infos = Seq::new(savings.len(), |i: int| saving_info(server.order, savings[i]));
    if savings.len() == 0 {
        assert(server.pool + infos =~= server.pool);
    } else {
        let front = savings.drop_last();
        let mid = run(server, all_save_events(front));
        lemma_saves(server, front);
        assert(saving_valid(server.order, savings[savings.len() - 1]));
        law_save(mid, savings.last());
        lemma_run_joined(server, all_save_events(front), save_events(savings.last()));
        assert(mid.pool.push(saving_info(server.order, savings.last())) =~= server.pool + infos);
    }
}

/// Each request takes the top enclave off a pool that has enough of them.
pub proof fn lemma_gets(server: ServerView, n: nat)
    requires
        server.session is Idle,
        n <= server.pool.len(),
    ensures
        run(server, get_events(n)) == (ServerView {
            order: server.order,
            pool: server.pool.take(server.pool.len() - n),
            session: SessionView::Idle,
        }),
    decreases n,
{
    if n == 0 {
        assert(server.pool.take(server.pool.len() as int) =~= server.pool);
    } else {
        let less = (n - 1) as nat;
        lemma_gets(server, less);
        assert(get_events(n).drop_last() =~= get_events(less));
        assert(get_events(n).last() == get_event());
        assert(server.pool.take(server.pool.len() - less).drop_last() =~= server.pool.take(
            server.pool.len() - n,
        ));
    }
}

/// Enclaves saved one after the other are handed out in the opposite order:
/// the client that asks after `n` others gets the one saved `n` before the
/// last, byte for byte as it came in.
pub proof fn law_last_saved_first_out(server: ServerView, savings: Seq<Saving>, n: nat)
    requires
        server.session is Idle,
        forall|i: int| 0 <= i < savings.len() ==> saving_valid(server.order, #[trigger] savings[i]),
        n < savings.len(),
    ensures
        ({
            let saving = savings[savings.len() - 1 - n];
            next_action(
                run(server, all_save_events(savings) + get_events(n)),
                get_event(),
            ) == (ActionView::SendEnclave {
                bytes: saving.hdr + saving.ranges,
                efd: saving_efd(saving),
                path: eid_path(hdr_value(server.order, saving.hdr).id),
            })
        }),
{
    let saved = run(server, all_save_events(savings));
    let saving = savings[savings.len() - 1 - n];
    lemma_saves(server, savings);
    lemma_gets(saved, n);
    lemma_run_joined(server, all_save_events(savings), get_events(n));
    assert(saving_valid(server.order, saving));
    law_wire_of_info(server.order, saving.hdr, saving.ranges, saving_efd(saving));
    assert(saved.pool.take(saved.pool.len() - n).last() == saving_info(server.order, saving));
}

/// A request on an empty pool is answered with a header that counts no range
/// and changes nothing; a request on any other pool is answered with a header
/// that counts at least one.
pub proof fn law_get_on_empty(server: ServerView)
    requires
        server.session is Idle,
        server_wf(server),
    ensures
        server.pool.len() == 0 <==> next_action(server, get_event()) == (ActionView::Send {
            bytes: hdr_wire(server.order, null_hdr()),
        }),
        server.pool.len() == 0 ==> next_state(server, get_event()) == server,
        server.pool.len() > 0 ==> info_hdr(server.pool.last()).nr_range != 0,
{
    if server.pool.len() > 0 {
        law_reply_tells_empty(server.order, server.pool);
    }
}

/// A connection is taken or not, and gives a command byte or none; what is read
/// has the length that was asked for; a header counts at least one range; and a
/// hand-over carries one descriptor or none. No other event can follow.
pub proof fn law_admitted_events(server: ServerView, event: EventView)
    ensures
        server.session is Idle ==> (admits(server, event) <==> event is AcceptFailed
            || event is CommandUnread || event is Command),
        server.session is Header ==> (admits(server, event) <==> {
            &&& event matches EventView::Bytes { bytes }
            &&& bytes.len() == 8
            &&& hdr_value(server.order, bytes).nr_range != 0
        }),
        server.session matches SessionView::Ranges { hdr } ==> (admits(server, event) <==> {
            &&& event matches EventView::Bytes { bytes }
            &&& bytes.len() == 24 * hdr.nr_range
        }),
        server.session is Descriptor ==> (admits(server, event) <==> {
            &&& event matches EventView::Rights { fds }
            &&& fds is Some ==> fds->0.len() == 1
        }),
{
}

/// Between any two events every pooled enclave has ranges, and an enclave that
/// is being saved has as many as its header counts.
pub proof fn law_server_wf(server: ServerView)
    ensures
        server_wf(server) <==> {
            &&& pool_wf(server.pool)
            &&& server.session matches SessionView::Ranges { hdr } ==> hdr.nr_range != 0
            &&& server.session matches SessionView::Descriptor { hdr, ranges } ==> hdr.nr_range != 0
                && ranges.len() == hdr.nr_range
        },
{
}

/// A failed listener stops the manager. A connection that gives no command, or
/// one that is neither `g` nor `s`, is dropped. None of them changes anything.
pub proof fn law_no_request(server: ServerView, byte: u8)
    requires
        server.session is Idle,
        byte != 'g' as u8,
        byte != 's' as u8,
    ensures
        next_action(server, EventView::AcceptFailed) == ActionView::Stop,
        next_state(server, EventView::AcceptFailed) == server,
        next_action(server, EventView::CommandUnread) == ActionView::Skip,
        next_state(server, EventView::CommandUnread) == server,
        next_action(server, EventView::Command { byte }) == ActionView::Invalid,
        next_state(server, EventView::Command { byte }) == server,
{
}

/// The command `g` is answered with eight zero bytes where the pool is empty,
/// which then stays so. Otherwise it takes the top enclave off the pool, sends
/// its description and hands its descriptor over by its path.
pub proof fn law_get_request(server: ServerView)
    requires
        server.session is Idle,
    ensures
        ({
            let event = EventView::Command { byte: 'g' as u8 };
            let after = next_state(server, event);
            let action = next_action(server, event);
            &&& after.order == server.order
            &&& after.session is Idle
            &&& server.pool.len() == 0 ==> {
                &&& after.pool == server.pool
                &&& action == (ActionView::Send { bytes: Seq::new(8, |i: int| 0u8) })
            }
            &&& server.pool.len() > 0 ==> {
                let top = server.pool[server.pool.len() - 1];
                &&& after.pool.push(top) == server.pool
                &&& action matches ActionView::SendEnclave { bytes, efd, path }
                &&& bytes == info_wire(server.order, top)
                &&& efd == top.efd
                &&& path == eid_path(top.id)
            }
        }),
{
    law_null_hdr_is_zero(server.order);
    if server.pool.len() > 0 {
        let top = server.pool[server.pool.len() - 1];
        assert(server.pool.drop_last().push(top) =~= server.pool);
    }
}

/// The command `s` is followed by reading a header; a header by reading
/// twenty-four bytes for each range that it counts; ranges by taking over the
/// descriptor by the path of the enclave that the header numbers; and the
/// descriptor, or -1 for none, by storing the enclave on top of the pool. The
/// pool changes at no other step.
pub proof fn law_save_request(server: ServerView, bytes: Seq<u8>, fds: Option<Seq<i32>>)
    ensures
        server.session is Idle ==> ({
            let event = EventView::Command { byte: 's' as u8 };
            &&& next_action(server, event) == (ActionView::Read { len: 8 })
            &&& next_state(server, event) == (ServerView {
                order: server.order,
                pool: server.pool,
                session: SessionView::Header,
            })
        }),
        server.session is Header ==> ({
            let event = EventView::Bytes { bytes };
            let hdr = hdr_value(server.order, bytes);
            &&& next_action(server, event) matches ActionView::Read { len }
            &&& len == 24 * hdr.nr_range
            &&& next_state(server, event) == (ServerView {
                order: server.order,
                pool: server.pool,
                session: SessionView::Ranges { hdr },
            })
        }),
        server.session matches SessionView::Ranges { hdr } ==> ({
            let event = EventView::Bytes { bytes };
            &&& next_action(server, event) == (ActionView::Receive { path: eid_path(hdr.id) })
            &&& next_state(server, event) == (ServerView {
                order: server.order,
                pool: server.pool,
                session: SessionView::Descriptor {
                    hdr,
                    ranges: ranges_value(server.order, bytes),
                },
            })
        }),
        server.session matches SessionView::Descriptor { hdr, ranges } ==> ({
            let event = EventView::Rights { fds };
            let after = next_state(server, event);
            let top = after.pool[server.pool.len() as int];
            &&& next_action(server, event) == ActionView::Stored
            &&& after.order == server.order
            &&& after.session is Idle
            &&& after.pool == server.pool.push(top)
            &&& top.id == hdr.id
            &&& top.ranges == ranges
            &&& fds is Some ==> top.efd == fds->0[0]
            &&& fds is None ==> top.efd == -1
        }),
{
}

/// Running a series is taking its events in, one after the other.
pub proof fn law_run_in_order(server: ServerView, events: Seq<EventView>, event: EventView)
    ensures
        run(server, Seq::empty()) == server,
        run(server, events.push(event)) == next_state(run(server, events), event),
{
    assert(events.push(event).drop_last() =~= events);
}

/// The value of an event has what the event holds.
pub proof fn law_event_view(event: Event)
    ensures
        event is AcceptFailed <==> event@ is AcceptFailed,
        event is CommandUnread <==> event@ is CommandUnread,
        event matches Event::Command { byte } ==> event@ == (EventView::Command { byte }),
        event matches Event::Bytes { bytes } ==> event@ == (EventView::Bytes { bytes: bytes@ }),
        event matches Event::Rights { fds: Some(fds) } ==> event@ == (EventView::Rights {
            fds: Some(fds@),
        }),
        event matches Event::Rights { fds: None } ==> event@ == (EventView::Rights { fds: None }),
{
}

/// The value of an action has what the action holds.
pub proof fn law_action_view(action: Action)
    ensures
        action is Stop <==> action@ is Stop,
        action is Skip <==> action@ is Skip,
        action is Invalid <==> action@ is Invalid,
        action is Stored <==> action@ is Stored,
        action matches Action::Read { len } ==> action@ == (ActionView::Read { len }),
        action matches Action::Send { bytes } ==> action@ == (ActionView::Send { bytes: bytes@ }),
        action matches Action::SendEnclave { bytes, efd, path } ==> action@ == (
        ActionView::SendEnclave { bytes: bytes@, efd, path: path@ }),
        action matches Action::Receive { path } ==> action@ == (ActionView::Receive {
            path: path@,
        }),
{
}

/// No event that can follow breaks what holds of the manager between events.
pub proof fn law_wf_kept(server: ServerView, event: EventView)
    requires
        server_wf(server),
        admits(server, event),
    ensures
        server_wf(next_state(server, event)),
{
}

} // verus!
