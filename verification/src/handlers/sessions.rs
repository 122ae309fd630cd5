//! Sessions: `[page: u8]`, answered with one page of instance records:
//! `[count: u8][records…][page: u8][total_pages: u8]`, each record being
//! `[flags: u32][iid: u8][master_id: u32][player_count: u16][capacity: u16]`.
//! A page past the last one holds no record.
use vstd::prelude::*;

use super::context::{lemma_put_back, AppState};
use super::packet::{out, Delivery, OutView, Outgoing, PacketType};
use crate::constants::MAX_PACKET_SIZE;
use crate::instance::instance::Instance;
use crate::wire::{le16, le32, take_u8, PacketReader, PacketWriter};

verus! {

/// Bytes of one session record.
pub const RECORD_SIZE: usize = 13;
/// Records per page: what fits in a packet besides the header and the three counters.
pub const RECORDS_PER_PAGE: usize = (MAX_PACKET_SIZE - 8) / RECORD_SIZE;

/// One instance in a session list.
#[derive(Debug, Clone, Copy, PartialEq, Eq, Structural)]
pub struct SessionRecord {
    pub flags: u32,
    pub iid: u8,
    pub master_id: u32,
    pub player_count: u16,
    pub capacity: u16,
}

/// The record of an instance (its player count cut to 16 bits).
pub open spec fn session_record(inst: Instance) -> SessionRecord {
    SessionRecord {
        flags: inst.flags,
        iid: inst.internal_id,
        master_id: inst.master_id,
        player_count: inst.players().len() as u16,
        capacity: inst.capacity,
    }
}

pub open spec fn record_bytes(r: SessionRecord) -> Seq<u8> {
    le32(r.flags) + seq![r.iid] + le32(r.master_id) + le16(r.player_count) + le16(r.capacity)
}

/// The bytes of a run of records.
pub open spec fn records_bytes(rs: Seq<SessionRecord>) -> Seq<u8>
    decreases rs.len(),
{
    if rs.len() == 0 {
        Seq::empty()
    } else {
        records_bytes(rs.drop_last()) + record_bytes(rs.last())
    }
}

/// The number of pages `n` records fill.
pub open spec fn page_count(n: nat) -> nat {
    (n + RECORDS_PER_PAGE - 1) as nat / (RECORDS_PER_PAGE as nat)
}

/// The records of page `p`.
pub open spec fn page_records(rs: Seq<SessionRecord>, p: nat) -> Seq<SessionRecord> {
    let start = p * RECORDS_PER_PAGE;
    let end = if (p + 1) * RECORDS_PER_PAGE < rs.len() { (p + 1) * RECORDS_PER_PAGE } else { rs.len() as int };
    if start < rs.len() {
        rs.subrange(start as int, end)
    } else {
        Seq::empty()
    }
}

/// The answer to a request for page `page` of the records `rs`.
pub open spec fn sessions_payload(rs: Seq<SessionRecord>, page: u8) -> Seq<u8> {
    let total = page_count(rs.len()) as u8;
    if (page as nat) < page_count(rs.len()) {
        let slice = page_records(rs, page as nat);
        seq![slice.len() as u8] + records_bytes(slice) + seq![page, total]
    } else {
        seq![0u8] + seq![page, total]
    }
}

/// Builds the answer to a request for page `page` of `records`.
pub fn sessions_response(records: &Vec<SessionRecord>, page: u8) -> (bytes: Vec<u8>)
    ensures
        bytes@ == sessions_payload(records@, page),
{
    let n = records.len();
    assert(RECORDS_PER_PAGE == 78);
    let pages = n / RECORDS_PER_PAGE + if n % RECORDS_PER_PAGE != 0 { 1 } else { 0 };
    assert(pages == page_count(n as nat)) by (nonlinear_arith)
        requires
            pages == n / RECORDS_PER_PAGE + if n % RECORDS_PER_PAGE != 0 { 1usize } else { 0usize },
            RECORDS_PER_PAGE == 78,
    {
    }
    let total = #[verifier::truncate] (pages as u8);
    let mut w = PacketWriter::new();
    if (page as usize) < pages {
        let start = page as usize * RECORDS_PER_PAGE;
        let end = if (page as usize + 1) * RECORDS_PER_PAGE < n { (page as usize + 1) * RECORDS_PER_PAGE } else { n };
        let ghost slice = page_records(records@, page as nat);
        assert(start < n) by (nonlinear_arith)
            requires
                (page as usize) < pages,
                pages == page_count(n as nat),
                start == page as usize * RECORDS_PER_PAGE,
                RECORDS_PER_PAGE == 78,
        {
        }
        assert(slice =~= records@.subrange(start as int, end as int));
        w.write_u8((end - start) as u8);
        let ghost w0 = w@;
        let mut i = start;
        while i < end
            invariant
                start <= i <= end <= n == records@.len(),
                end - start <= RECORDS_PER_PAGE,
                w@ == w0 + records_bytes(records@.subrange(start as int, i as int)),
            decreases end - i,
        {
            let rec = records[i];
            w.write_u32(rec.flags);
            w.write_u8(rec.iid);
            w.write_u32(rec.master_id);
            w.write_u16(rec.player_count);
            w.write_u16(rec.capacity);
            proof {
                assert(records@.subrange(start as int, i + 1).drop_last() =~= records@.subrange(start as int, i as int));
                assert(w@ =~= w0 + records_bytes(records@.subrange(start as int, i + 1)));
            }
            i = i + 1;
        }
    } else {
        w.write_u8(0);
    }
    w.write_u8(page);
    w.write_u8(total);
    let ghost v = w@;
    assert(v =~= sessions_payload(records@, page));
    w.finish()
}

/// The records of pages `0..k`, one page after the other.
pub open spec fn all_pages(rs: Seq<SessionRecord>, k: nat) -> Seq<SessionRecord>
    decreases k,
{
    if k == 0 {
        Seq::empty()
    } else {
        all_pages(rs, (k - 1) as nat) + page_records(rs, (k - 1) as nat)
    }
}

proof fn lemma_all_pages_prefix(rs: Seq<SessionRecord>, k: nat)
    requires
        k <= page_count(rs.len()),
    ensures
        all_pages(rs, k) == rs.take(if k * RECORDS_PER_PAGE < rs.len() { k * RECORDS_PER_PAGE } else { rs.len() as int }),
    decreases k,
{
    assert(RECORDS_PER_PAGE == 78);
    if k == 0 {
        assert(rs.take(0) =~= Seq::<SessionRecord>::empty());
    } else {
        let j = (k - 1) as nat;
        lemma_all_pages_prefix(rs, j);
        assert(j * RECORDS_PER_PAGE < rs.len()) by (nonlinear_arith)
            requires
                k <= page_count(rs.len()),
                j == k - 1,
                RECORDS_PER_PAGE == 78,
                page_count(rs.len()) == (rs.len() + 77) as nat / 78nat,
        {
        }
        assert(k * RECORDS_PER_PAGE == j * RECORDS_PER_PAGE + RECORDS_PER_PAGE) by (nonlinear_arith)
            requires j == k - 1;
        let end = if k * RECORDS_PER_PAGE < rs.len() { k * RECORDS_PER_PAGE } else { rs.len() as int };
        assert(rs.take((j * RECORDS_PER_PAGE) as int) + rs.subrange((j * RECORDS_PER_PAGE) as int, end) =~= rs.take(end));
    }
}

/// The pages of a session list, read one after the other, give back every
/// record once, in order.
pub proof fn lemma_pages_partition(rs: Seq<SessionRecord>)
    ensures
        all_pages(rs, page_count(rs.len())) == rs,
{
    assert(RECORDS_PER_PAGE == 78);
    lemma_all_pages_prefix(rs, page_count(rs.len()));
    assert(page_count(rs.len()) * RECORDS_PER_PAGE >= rs.len()) by (nonlinear_arith)
        requires
            RECORDS_PER_PAGE == 78,
            page_count(rs.len()) == (rs.len() + 77) as nat / 78nat,
    {
    }
    assert(rs.take(rs.len() as int) =~= rs);
}

/// The records of the instances `order`, in that order.
pub open spec fn records_of(order: Seq<u8>, instances: Map<u8, Instance>) -> Seq<SessionRecord> {
    order.map_values(|i: u8| session_record(instances[i]))
}

/// Handles a Sessions request from client `client_id`: no answer before the
/// handshake; otherwise the requested page of the records of all instances,
/// in an order the registry does not fix.
pub fn handle(state: &mut AppState, client_id: u16, uid: u16, payload: Vec<u8>) -> (o: Option<Outgoing>)
    requires
        old(state).wf(),
    ensures
        final(state).wf(),
        final(state).clients@ == old(state).clients@,
        final(state).instances@ == old(state).instances@,
        final(state).config == old(state).config,
        if old(state).clients@.contains_key(client_id) && old(state).clients@[client_id].spec_is_handshaked() {
            exists|order: Seq<u8>| #![trigger order.to_set()]
                order.no_duplicates() && order.to_set() == old(state).instances@.dom()
                && (o matches Some(x) && x@ == out(
                    client_id,
                    uid,
                    PacketType::Sessions,
                    sessions_payload(records_of(order, old(state).instances@), take_u8(payload@).0),
                    Delivery::Reply,
                ))
        } else {
            o is None
        },
{
    let ok = match state.clients.get(client_id) {
        Some(c) => c.is_handshaked(),
        None => false,
    };
    if !ok {
        return None;
    }
    let mut r = PacketReader::new(payload);
    let page = r.read_u8();
    let ids = state.instances.ids();
    let ghost insts = old(state).instances@;
    let mut records: Vec<SessionRecord> = Vec::new();
    let mut i: usize = 0;
    while i < ids.len()
        invariant
            ids@.to_set() == insts.dom(),
            insts == old(state).instances@,
            i <= ids@.len(),
            state.wf(),
            state.instances@ == insts,
            state.clients@ == old(state).clients@,
            state.config == old(state).config,
            records@ == records_of(ids@.take(i as int), insts),
        decreases ids@.len() - i,
    {
        let iid = ids[i];
        proof {
            assert(ids@.to_set().contains(iid));
        }
        let inst = state.instances.remove(iid).unwrap();
        let rec = SessionRecord {
            flags: inst.flags,
            iid: inst.internal_id,
            master_id: inst.master_id,
            player_count: #[verifier::truncate] (inst.players.len() as u16),
            capacity: inst.capacity,
        };
        state.instances.add(inst);
        proof { lemma_put_back(insts, iid); }
        records.push(rec);
        proof {
            assert(records@ =~= records_of(ids@.take(i + 1), insts));
        }
        i = i + 1;
    }
    assert(ids@.take(ids@.len() as int) =~= ids@);
    let bytes = sessions_response(&records, page);
    Some(Outgoing::new(client_id, uid, PacketType::Sessions, bytes, Delivery::Reply))
}

} // verus!
