//! Laws over single calls on an OUT pipe.

use vstd::multiset::Multiset;
use vstd::prelude::*;

use crate::calls::{
    appended, counts_kept, ends_with_flag, grew, lemma_appended, lemma_others_untouched, one_up,
    only_out_side, others_untouched, out_action, settings_kept,
};
use crate::hw::{ctrl_value, pad_ops, HwOp};
use crate::laws_rx::{
    law_rx_each_slot_in_one_place, law_rx_received_appends, law_rx_received_keeps_order, law_rx_recv_keeps_order,
    law_rx_release_keeps_order, lemma_advance_regs, rx_hw, rx_owned, rx_packets,
};
use crate::pipe::{on_out, resume_rx, Counters, Pipes, PipesState, RxBuf, RxGrant, RxPipe};
use crate::regs::{lemma_after_all_add, lemma_after_short, RegFile};
use crate::ring::{slots_ok, RING};
use crate::rx::RxState;
use crate::slots::{lemma_bag, opt_seq};

verus! {

/// The slots to receive into, in the order of use: the armed one, then the free ones.
pub open spec fn rx_line(s: RxState) -> Seq<u8> {
    opt_seq(s.armed) + s.free
}

/// An idle endpoint was started if there was a slot, and a busy one was left alone: the
/// first slot in line is armed, and its address is in place before the control register
/// answers ACK with the synchronisation state that was due. With no slot at all the
/// endpoint answers NAK.
pub open spec fn started_if_idle(
    s: RxState,
    q: RxState,
    ops: Seq<HwOp>,
    index: int,
    regs: RegFile,
) -> bool {
    let end = regs.after_all(ops);
    &&& q.lens == s.lens
    &&& s.armed is Some ==> ops.len() == 0 && q.armed == s.armed && (q.tog, q.stopped) == (
        s.tog,
        s.stopped,
    )
    &&& s.armed is None ==> {
        &&& q.armed is Some <==> rx_line(q).len() > 0
        &&& q.stopped == (q.armed is None)
        &&& q.tog == (s.tog != (q.armed is Some))
        &&& rx_hw(q, index, end)
        &&& end.rx_ctrl[index] == ctrl_value(s.tog, q.armed is Some, false)
        &&& ops.len() > 0 && ops.last() is RxCtrl
    }
    &&& forall|i: int|
        0 <= i < ops.len() ==> out_action(#[trigger] ops[i], index) && !(ops[i] is IntFg)
            && !(ops[i] is Pad) && (ops[i] is RxCtrl ==> i == ops.len() - 1)
    &&& others_untouched(regs, end, index)
}

/// Starting an idle endpoint does that, and keeps the slots in line.
pub proof fn lemma_resumed(s: RxState, index: usize, regs: RegFile)
    requires
        s.ok(),
        index < 16,
        s.free.len() > 0 ==> index >= 1,
    ensures
        started_if_idle(s, s.resumed(), s.resumed_ops(index), index as int, regs),
        rx_line(s.resumed()) == rx_line(s),
        s.resumed().ready == s.ready,
{
    let ops = s.resumed_ops(index);
    if s.armed is None {
        lemma_advance_regs(s, index, regs);
    }
    assert(rx_line(s.resumed()) =~= rx_line(s));
    lemma_others_untouched(regs, ops, index as int);
}

/// When an OUT packet has come in, whatever the registers held: it joins the packets that
/// wait, at the end, in the slot that was armed and with the length it came in with. The
/// next slot in line is set up on this endpoint, with the other synchronisation state,
/// before the flag is cleared; with none, the endpoint answers NAK and that counts as
/// dry. Nothing else changes, and the reader is woken by the first packet that waits.
#[verifier::rlimit(60)]
#[verifier::spinoff_prover]
pub proof fn law_on_out(
    p: &mut Pipes,
    index: usize,
    len: u16,
    log: &mut Vec<HwOp>,
    wake: bool,
    held: Multiset<u8>,
    regs: RegFile,
)
    requires
        old(p).wf(),
        1 <= index < 16,
        old(p)@.rx[index as int].n != 0,
        old(p)@.rx[index as int].ready.len() < 15,
        call_ensures(on_out, (p, index, len, log), wake),
    ensures
        grew(old(log)@, final(log)@),
        settings_kept(old(p)@, final(p)@),
        only_out_side(old(p)@, final(p)@, index as int),
        one_up(old(p)@.evt_rx, final(p)@.evt_rx),
        final(p)@.evt_tx == old(p)@.evt_tx,
        ({
            let s = old(p)@.rx[index as int];
            let q = final(p)@.rx[index as int];
            let ops = appended(old(log)@, final(log)@);
            let at_flag = regs.after_all(ops.drop_last());
            let end = regs.after_all(ops);
            &&& s.armed matches Some(a) ==> {
                &&& q.lens == s.lens.update(a as int, len)
                &&& q.lens[a as int] == len
                &&& q.ready == s.ready.push(a)
                &&& rx_line(q) == rx_line(s).skip(1)
                &&& rx_owned(s, held) ==> rx_packets(q) == rx_packets(s).push((a, len))
            }
            &&& s.armed is None ==> q.lens == s.lens && q.ready == s.ready && rx_line(q)
                == rx_line(s)
            &&& q.armed is Some <==> rx_line(q).len() > 0
            &&& q.stopped == (q.armed is None)
            &&& q.tog == (s.tog != (q.armed is Some))
            &&& rx_owned(s, held) ==> rx_owned(q, held)
            &&& forall|i: int| 0 <= i < ops.len() ==> out_action(#[trigger] ops[i], index as int)
            &&& ends_with_flag(ops, old(p)@.pad_rx)
            &&& rx_hw(q, index as int, at_flag)
            &&& at_flag.rx_ctrl[index as int] == ctrl_value(s.tog, q.armed is Some, false)
            &&& others_untouched(regs, end, index as int)
            &&& !end.transfer
            &&& wake == (s.ready.len() == 0 && q.ready.len() == 1)
            &&& if q.armed is None {
                one_up(old(p)@.counters.dry_rx, final(p)@.counters.dry_rx)
            } else {
                final(p)@.counters.dry_rx == old(p)@.counters.dry_rx
            }
            &&& final(p)@.counters == (Counters {
                dry_rx: final(p)@.counters.dry_rx,
                ..old(p)@.counters
            })
        }),
{
    let s = old(p)@.rx[index as int];
    let q = final(p)@.rx[index as int];
    let ops = s.received_ops(index, old(p)@.pad_rx);
    let adv = s.advance_ops(index);
    let pad = pad_ops(old(p)@.pad_rx);
    lemma_appended(old(log)@, ops);
    assert(q == s.received(len));
    assert(s.armed is Some ==> rx_line(q) =~= rx_line(s).skip(1));
    assert(s.armed is None ==> rx_line(q) =~= rx_line(s));
    if rx_owned(s, held) {
        law_rx_received_keeps_order(s, held, len);
        if s.armed is Some {
            law_rx_received_appends(s, held, len);
        }
    }
    lemma_advance_regs(s, index, regs);
    assert(ops.drop_last() =~= adv + pad);
    lemma_after_all_add(regs, adv, pad);
    let tick = HwOp::Pad { ticks: old(p)@.pad_rx };
    let mid = regs.after_all(adv);
    lemma_after_short(mid, tick, tick, tick);
    assert(regs.after_all(ops.drop_last()) == mid);
    assert(2u8 & 2 == 2) by (bit_vector);
    assert forall|i: int| 0 <= i < ops.len() implies out_action(#[trigger] ops[i], index as int)
        && (ops[i] is IntFg ==> i == ops.len() - 1) && (ops[i] is Pad ==> old(p)@.pad_rx != 0 && i
        == ops.len() - 2 && ops[i] == tick) by {
        if i < adv.len() {
            assert(ops[i] == adv[i]);
        } else if i < adv.len() + pad.len() {
            assert(ops[i] == pad[i - adv.len()]);
        }
    }
    lemma_others_untouched(regs, ops, index as int);
}

/// Without a queue, a finished OUT packet only has its flag cleared.
pub proof fn law_on_out_without_queue(
    p: &mut Pipes,
    index: usize,
    len: u16,
    log: &mut Vec<HwOp>,
    wake: bool,
)
    requires
        old(p).wf(),
        index < 16,
        old(p)@.rx[index as int].n == 0,
        call_ensures(on_out, (p, index, len, log), wake),
    ensures
        final(p)@ == old(p)@,
        final(log)@ == old(log)@.push(HwOp::IntFg { value: 2 }),
        !wake,
{
    assert(final(log)@ =~= old(log)@.push(HwOp::IntFg { value: 2 }));
}

/// A reader gets the packet that has waited longest, with its length and the address of
/// its slot, if and only if one waits; what it gets and what still waits is what waited.
/// The slot is then the reader's alone: it is not free, not armed and does not wait. With
/// no packet there, an idle endpoint starts.
#[verifier::rlimit(60)]
#[verifier::spinoff_prover]
pub proof fn law_recv(
    r: &RxPipe,
    p: &mut Pipes,
    log: &mut Vec<HwOp>,
    got: Option<RxGrant>,
    held: Multiset<u8>,
    regs: RegFile,
)
    requires
        old(p).wf(),
        r.index < 16,
        call_ensures(RxPipe::recv, (r, p, log), got),
    ensures
        grew(old(log)@, final(log)@),
        settings_kept(old(p)@, final(p)@),
        counts_kept(old(p)@, final(p)@),
        only_out_side(old(p)@, final(p)@, r.index as int),
        ({
            let index = r.index as int;
            let s = old(p)@.rx[index];
            let q = final(p)@.rx[index];
            let ops = appended(old(log)@, final(log)@);
            &&& got is Some <==> s.ready.len() > 0
            &&& rx_line(q) == rx_line(s)
            &&& q.lens == s.lens
            &&& got is None ==> q.ready == s.ready && started_if_idle(s, q, ops, index, regs)
                && (rx_owned(s, held) ==> rx_owned(q, held))
            &&& got matches Some(g) ==> {
                &&& rx_packets(s) == seq![(g.spec_slot(), g.spec_len())] + rx_packets(q)
                &&& g.spec_ep() == r.index
                &&& g.spec_addr() == s.addrs[g.spec_slot() as int]
                &&& g.wf()
                &&& ops.len() == 0
                &&& (q.armed, q.tog, q.stopped) == (s.armed, s.tog, s.stopped)
                &&& rx_owned(s, held) ==> {
                    &&& rx_owned(q, held.insert(g.spec_slot()))
                    &&& !q.free.contains(g.spec_slot())
                    &&& !q.ready.contains(g.spec_slot())
                    &&& q.armed != Some(g.spec_slot())
                }
            }
        }),
{
    let index = r.index as int;
    let s = old(p)@.rx[index];
    let q = final(p)@.rx[index];
    lemma_appended(old(log)@, s.polled_ops(r.index));
    lemma_resumed(s, r.index, regs);
    if rx_owned(s, held) {
        law_rx_recv_keeps_order(s, held);
    }
    match got {
        Some(g) => {
            assert(rx_packets(s) =~= seq![(g.spec_slot(), g.spec_len())] + rx_packets(q));
            if rx_owned(s, held) {
                let now = held.insert(g.spec_slot());
                law_rx_each_slot_in_one_place(q, now);
                lemma_bag(q.free);
                lemma_bag(q.ready);
                assert(now.count(g.spec_slot()) > 0);
            }
        },
        None => {},
    }
}

/// Giving a slot back puts it at the end of the line to receive into, and an idle endpoint
/// starts; the packets that wait stay as they are.
pub open spec fn given_back(
    a: PipesState,
    b: PipesState,
    slot: u8,
    ops: Seq<HwOp>,
    index: int,
    held: Multiset<u8>,
    regs: RegFile,
) -> bool {
    let s = a.rx[index];
    let q = b.rx[index];
    &&& settings_kept(a, b)
    &&& counts_kept(a, b)
    &&& only_out_side(a, b, index)
    &&& rx_line(q) == rx_line(s).push(slot)
    &&& q.armed is Some
    &&& q.ready == s.ready
    &&& started_if_idle(s, q, ops, index, regs)
    &&& rx_owned(s, held) && held.count(slot) > 0 ==> rx_owned(q, held.remove(slot))
        && rx_packets(q) == rx_packets(s)
}

/// The state and the actions of a release are those of [`given_back`].
proof fn lemma_released(
    a: PipesState,
    slot: u8,
    index: usize,
    held: Multiset<u8>,
    regs: RegFile,
)
    requires
        a.ok(),
        1 <= index < 16,
        slot < 8,
        a.rx[index as int].free.len() < 15,
    ensures
        given_back(
            a,
            a.rx_released(index, slot),
            slot,
            a.rx[index as int].released_ops(slot, index),
            index as int,
            held,
            regs,
        ),
{
    let s = a.rx[index as int];
    let m = s.returned(slot);
    assert(m.free == s.free.push(slot));
    assert(slots_ok(m.free)) by {
        assert forall|i: int| 0 <= i < m.free.len() implies #[trigger] m.free[i] < RING by {
            if i < s.free.len() {
                assert(s.free[i] < RING);
            }
        }
    }
    lemma_resumed(m, index, regs);
    assert(rx_line(m) =~= rx_line(s).push(slot));
    if rx_owned(s, held) && held.count(slot) > 0 {
        law_rx_release_keeps_order(s, held, slot);
        assert(rx_packets(s.released(slot)) =~= rx_packets(s));
    }
}

/// A released slot is free to receive again, and an idle endpoint starts on the first slot
/// in line.
pub proof fn law_release(
    r: &RxPipe,
    p: &mut Pipes,
    buf: RxBuf<'_>,
    log: &mut Vec<HwOp>,
    held: Multiset<u8>,
    regs: RegFile,
)
    requires
        old(p).wf(),
        1 <= r.index < 16,
        buf.wf(),
        old(p)@.rx[r.index as int].free.len() < 15,
        call_ensures(RxPipe::release, (r, p, buf, log), ()),
    ensures
        grew(old(log)@, final(log)@),
        given_back(
            old(p)@,
            final(p)@,
            buf.spec_slot(),
            appended(old(log)@, final(log)@),
            r.index as int,
            held,
            regs,
        ),
{
    let s = old(p)@.rx[r.index as int];
    lemma_appended(old(log)@, s.released_ops(buf.spec_slot(), r.index));
    lemma_released(old(p)@, buf.spec_slot(), r.index, held, regs);
}

/// Dropping a received buffer releases its slot on the endpoint it came from.
pub proof fn law_rx_discard(
    buf: RxBuf<'_>,
    p: &mut Pipes,
    log: &mut Vec<HwOp>,
    held: Multiset<u8>,
    regs: RegFile,
)
    requires
        old(p).wf(),
        buf.wf(),
        old(p)@.rx[buf.spec_ep() as int].free.len() < 15,
        call_ensures(RxBuf::discard, (buf, p, log), ()),
    ensures
        grew(old(log)@, final(log)@),
        given_back(
            old(p)@,
            final(p)@,
            buf.spec_slot(),
            appended(old(log)@, final(log)@),
            buf.spec_ep() as int,
            held,
            regs,
        ),
{
    let s = old(p)@.rx[buf.spec_ep() as int];
    lemma_appended(old(log)@, s.released_ops(buf.spec_slot(), buf.spec_ep()));
    lemma_released(old(p)@, buf.spec_slot(), buf.spec_ep(), held, regs);
}

/// Resuming starts an idle endpoint and does nothing else.
pub proof fn law_resume_rx(p: &mut Pipes, index: usize, log: &mut Vec<HwOp>, regs: RegFile)
    requires
        old(p).wf(),
        index < 16,
        call_ensures(resume_rx, (p, index, log), ()),
    ensures
        grew(old(log)@, final(log)@),
        settings_kept(old(p)@, final(p)@),
        counts_kept(old(p)@, final(p)@),
        only_out_side(old(p)@, final(p)@, index as int),
        rx_line(final(p)@.rx[index as int]) == rx_line(old(p)@.rx[index as int]),
        final(p)@.rx[index as int].ready == old(p)@.rx[index as int].ready,
        started_if_idle(
            old(p)@.rx[index as int],
            final(p)@.rx[index as int],
            appended(old(log)@, final(log)@),
            index as int,
            regs,
        ),
{
    let s = old(p)@.rx[index as int];
    lemma_appended(old(log)@, s.resumed_ops(index));
    lemma_resumed(s, index, regs);
}

/// The counts that an OUT handle gives are those of its queue.
pub proof fn law_rx_counts(r: &RxPipe, p: &Pipes, ready: u8, capacity: u8)
    requires
        p.wf(),
        r.index < 16,
        call_ensures(RxPipe::ready_count, (r, p), ready),
        call_ensures(RxPipe::capacity, (r, p), capacity),
    ensures
        ready == rx_packets(p@.rx[r.index as int]).len(),
        capacity == p@.rx[r.index as int].n,
{
}

/// A handle and a buffer are what they were made from: the endpoint, the slot with its
/// address and length, and the first bytes of the memory, which are read in place.
pub proof fn law_rx_handles(
    index: usize,
    pipe: RxPipe,
    grant: RxGrant,
    addr: u32,
    received: u16,
    memory: &[u8],
    buf: RxBuf<'_>,
    data: &[u8],
    len: usize,
    empty: bool,
)
    requires
        call_ensures(RxPipe::new, (index,), pipe),
        call_ensures(RxGrant::addr, (&grant,), addr),
        call_ensures(RxGrant::received, (&grant,), received),
        call_ensures(RxBuf::attach, (grant, memory), buf),
        grant.spec_len() <= memory@.len(),
        call_ensures(RxBuf::data, (&buf,), data),
        call_ensures(RxBuf::len, (&buf,), len),
        call_ensures(RxBuf::is_empty, (&buf,), empty),
    ensures
        pipe.index == index,
        addr == grant.spec_addr(),
        received == grant.spec_len(),
        buf.spec_slot() == grant.spec_slot(),
        buf.spec_ep() == grant.spec_ep(),
        len == received,
        data@.len() == received,
        forall|i: int| 0 <= i < data@.len() ==> data@[i] == memory@[i],
        empty == (received == 0),
{
}

} // verus!
