//! The pool of idle enclaves.

use vstd::arithmetic::div_mod::lemma_div_of0;
use vstd::arithmetic::power::{lemma_pow_positive, pow};
use vstd::prelude::*;

use crate::bytes::{law_byte_of_weight, ByteOrder};
use crate::enclave::{
    hdr_wire,
    info_hdr,
    info_wire,
    law_hdr_of_wire,
    law_hdr_layout,
    law_info_of_wire,
    lemma_hdr_wire_len,
    EnclaveInfo,
    EnclaveInfoHdr,
    EnclaveInfoView,
    EnclaveRange,
};
use crate::hex::{
    hex,
    hex_digit,
    hex_value,
    law_hex_digit_of_weight,
    law_value_of_hex,
    lemma_hex_capacity_u32,
    lemma_hex_len,
    push_hex,
};

verus! {

/// Where the pool manager listens.
pub const EPM_SOCK_PATH: &'static str = "/run/epm/epm.sock";

/// Where descriptors are handed over.
pub const EPM_DIR: &'static str = "/run/epm";

/// The path by which the descriptor of enclave `id` is handed over: the
/// number in eight hexadecimal digits, below the manager's directory.
pub open spec fn eid_path(id: u32) -> Seq<char> {
    EPM_DIR@ + seq!['/'] + hex(id as nat, 8)
}

/// The path by which the descriptor of enclave `id` is handed over.
pub fn get_eid_path(id: u32) -> (path: String)
    ensures
        path@ == eid_path(id),
{
    let mut path: String = EPM_DIR.to_owned();
    path.push('/');
    push_hex(&mut path, id, 8);
    assert(path@ =~= eid_path(id));
    path
}

/// The last eight characters of an enclave's path, read in base sixteen, are
/// the enclave's number; what stands before them is the same for all.
pub proof fn law_eid_path_ends_in_id(id: u32)
    ensures
        eid_path(id).len() == EPM_DIR@.len() + 9,
        eid_path(id).take(eid_path(id).len() - 8) == EPM_DIR@.push('/'),
        hex_value(eid_path(id).skip(eid_path(id).len() - 8)) == id,
{
    lemma_hex_len(id as nat, 8);
    lemma_hex_capacity_u32();
    law_value_of_hex(id as nat, 8);
    assert(eid_path(id).take(eid_path(id).len() - 8) =~= EPM_DIR@.push('/'));
    assert(eid_path(id).skip(eid_path(id).len() - 8) =~= hex(id as nat, 8));
}

/// An enclave's path is `/run/epm/` and eight characters, each one of `0` to
/// `9` or `a` to `f`: the one `i` places from the end is the number's digit of
/// that weight in base sixteen.
pub proof fn law_eid_path_digits(id: u32, i: nat)
    requires
        i < 8,
    ensures
        eid_path(id).len() == 17,
        eid_path(id).take(9) == seq!['/', 'r', 'u', 'n', '/', 'e', 'p', 'm', '/'],
        ({
            let digit = (id as int / pow(16, i)) % 16;
            let c = eid_path(id)[16 - i];
            &&& 0 <= digit <= 9 ==> '0' <= c <= '9' && c as int - '0' as int == digit
            &&& 10 <= digit <= 15 ==> 'a' <= c <= 'f' && c as int - 'a' as int == digit - 10
            &&& 0 <= digit <= 15
        }),
{
    reveal_strlit("/run/epm");
    law_hex_digit_of_weight(id as nat, 8, i);
    assert(eid_path(id).take(9) =~= seq!['/', 'r', 'u', 'n', '/', 'e', 'p', 'm', '/']);
    assert(eid_path(id)[16 - i] == hex(id as nat, 8)[7 - i]);
}

/// Two enclaves never share a path.
pub proof fn law_eid_path_injective(a: u32, b: u32)
    requires
        eid_path(a) == eid_path(b),
    ensures
        a == b,
{
    law_eid_path_ends_in_id(a);
    law_eid_path_ends_in_id(b);
}

/// The manager listens below the directory by whose paths it hands over.
pub proof fn law_manager_paths()
    ensures
        EPM_DIR@ == "/run/epm"@,
        EPM_SOCK_PATH@ == EPM_DIR@ + "/epm.sock"@,
{
    reveal_strlit("/run/epm");
    reveal_strlit("/epm.sock");
    reveal_strlit("/run/epm/epm.sock");
    assert(EPM_SOCK_PATH@ =~= EPM_DIR@ + "/epm.sock"@);
}

/// No enclave's path is the one that the manager listens on.
pub proof fn law_eid_path_not_sock(id: u32)
    ensures
        eid_path(id) != EPM_SOCK_PATH@,
{
    reveal_strlit("/run/epm");
    reveal_strlit("/run/epm/epm.sock");
    lemma_hex_len(id as nat, 8);
    assert(eid_path(id).len() == 17);
    assert(EPM_SOCK_PATH@.len() == 17);
    assert(EPM_SOCK_PATH@.last() == 'k');
    let digits = hex(id as nat, 8);
    assert(eid_path(id).last() == digits.last());
    assert(digits.last() == hex_digit(id as nat % 16));
}

/// The idle enclaves. The one saved last is handed out first.
#[derive(Debug)]
pub struct EnclavePool {
    infos: Vec<EnclaveInfo>,
}

/// What a client that asks for an enclave is answered.
#[derive(Debug, PartialEq, Eq)]
pub enum GetReply {
    /// The pool is empty. The bytes are a header that counts no range.
    Empty { bytes: Vec<u8> },
    /// The bytes describe the enclave, whose descriptor `efd` is to be handed
    /// over by the path of enclave `id`.
    Enclave { bytes: Vec<u8>, efd: i32, id: u32 },
}

/// The header that stands for "no enclave".
pub open spec fn null_hdr() -> EnclaveInfoHdr {
    EnclaveInfoHdr { id: 0, nr_range: 0 }
}

/// Every enclave has at least one range, and no more than a header can count.
pub open spec fn pool_wf(pool: Seq<EnclaveInfoView>) -> bool {
    forall|i: int| 0 <= i < pool.len() ==> 1 <= (#[trigger] pool[i]).ranges.len() <= u32::MAX
}

impl View for EnclavePool {
    type V = Seq<EnclaveInfoView>;

    closed spec fn view(&self) -> Seq<EnclaveInfoView> {
        Seq::new(self.infos@.len(), |i: int| self.infos@[i]@)
    }
}

/// What is sent where there is no enclave to hand out, in the byte order of
/// the machine.
pub fn empty_hdr(order: ByteOrder) -> (bytes: Vec<u8>)
    ensures
        bytes@ == hdr_wire(order, null_hdr()),
{
    let hdr = EnclaveInfoHdr::default();
    hdr.to_bytes(order)
}

impl EnclavePool {
    /// A pool without enclaves.
    pub fn new() -> (pool: EnclavePool)
        ensures
            pool@ == Seq::<EnclaveInfoView>::empty(),
            pool_wf(pool@),
    {
        let pool = EnclavePool { infos: Vec::new() };
        assert(pool@ =~= Seq::<EnclaveInfoView>::empty());
        pool
    }

    /// Takes the enclave that was saved last out of the pool. The reply is in the
    /// byte order of the machine.
    pub fn handle_get(&mut self, order: ByteOrder) -> (reply: GetReply)
        ensures
            match reply {
                GetReply::Empty { bytes } => {
                    &&& old(self)@.len() == 0
                    &&& bytes@ == hdr_wire(order, null_hdr())
                    &&& final(self)@ == old(self)@
                },
                GetReply::Enclave { bytes, efd, id } => {
                    &&& old(self)@.len() > 0
                    &&& bytes@ == info_wire(order, old(self)@.last())
                    &&& efd == old(self)@.last().efd
                    &&& id == old(self)@.last().id
                    &&& final(self)@ == old(self)@.drop_last()
                },
            },
            pool_wf(old(self)@) ==> pool_wf(final(self)@),
    {
        match self.infos.pop() {
            None => {
                assert(self@ =~= old(self)@);
                GetReply::Empty { bytes: empty_hdr(order) }
            },
            Some(einfo) => {
                assert(self@ =~= old(self)@.drop_last());
                assert(old(self)@.last() == einfo@);
                GetReply::Enclave { bytes: einfo.to_bytes(order), efd: einfo.efd, id: einfo.id }
            },
        }
    }

    /// Puts an enclave that was received whole into the pool.
    pub fn handle_save(&mut self, hdr: EnclaveInfoHdr, ranges: Vec<EnclaveRange>, efd: i32)
        requires
            hdr.nr_range != 0,
            ranges@.len() == hdr.nr_range,
        ensures
            final(self)@ == old(self)@.push(
                (EnclaveInfoView { id: hdr.id, efd, ranges: ranges@ }),
            ),
            pool_wf(old(self)@) ==> pool_wf(final(self)@),
    {
        let einfo = EnclaveInfo { id: hdr.id, efd, ranges };
        self.infos.push(einfo);
        assert(self@ =~= old(self)@.push(einfo@));
    }
}

/// Picks the descriptor out of the first control message of a hand-over: the
/// one that it carries, or -1 where the message carries no descriptors.
pub fn received_fd(rights: &Option<Vec<i32>>) -> (fd: i32)
    requires
        rights matches Some(fds) ==> fds@.len() == 1,
    ensures
        fd == (match rights {
            Some(fds) => fds@[0],
            None => -1i32,
        }),
{
    match rights {
        Some(fds) => fds[0],
        None => -1,
    }
}

/// What stands for "no enclave" is eight zero bytes, in either byte order.
pub proof fn law_null_hdr_is_zero(order: ByteOrder)
    ensures
        null_hdr().id == 0,
        null_hdr().nr_range == 0,
        hdr_wire(order, null_hdr()) == Seq::new(8, |i: int| 0u8),
{
    let bytes = hdr_wire(order, null_hdr());
    law_hdr_layout(order, null_hdr());
    assert forall|i: int| 0 <= i < 8 implies bytes[i] == 0u8 by {
        let at: int = if i < 4 {
            i
        } else {
            i - 4
        };
        let weight: nat = if order is Little {
            at as nat
        } else {
            (3 - at) as nat
        };
        law_byte_of_weight(order, 0, 4, weight);
        lemma_pow_positive(256, weight);
        lemma_div_of0(pow(256, weight));
        assert(bytes[i] == (if i < 4 {
            bytes.subrange(0, 4)[at]
        } else {
            bytes.subrange(4, 8)[at]
        }));
    }
    assert(bytes =~= Seq::new(8, |i: int| 0u8));
}

/// A pool without enclaves is well formed; with one more enclave it is so just
/// where it was so before and that enclave has some ranges that a header can
/// count.
pub proof fn law_pool_wf(pool: Seq<EnclaveInfoView>, info: EnclaveInfoView)
    ensures
        pool_wf(Seq::empty()),
        pool_wf(pool.push(info)) <==> pool_wf(pool) && 1 <= info.ranges.len() <= 0xffff_ffff,
{
    let more = pool.push(info);
    if pool_wf(more) {
        assert(more[pool.len() as int] == info);
        assert forall|i: int| 0 <= i < pool.len() implies 1 <= (#[trigger] pool[i]).ranges.len()
            <= u32::MAX by {
            assert(more[i] == pool[i]);
        }
    }
}

/// In a well-formed pool, whether a reply counts any range tells whether there
/// was an enclave to hand out.
pub proof fn law_reply_tells_empty(order: ByteOrder, pool: Seq<EnclaveInfoView>)
    requires
        pool_wf(pool),
        pool.len() > 0,
    ensures
        info_hdr(pool.last()).nr_range != null_hdr().nr_range,
        info_wire(order, pool.last()).take(8) != hdr_wire(order, null_hdr()),
{
    let info = pool.last();
    assert(pool[pool.len() - 1] == info);
    law_info_of_wire(order, info);
    law_hdr_of_wire(order, null_hdr());
    lemma_hdr_wire_len(order, info_hdr(info));
    assert(info_wire(order, info).take(8) =~= info_wire(order, info).subrange(0, 8));
}

} // verus!
