//! Laws over single calls on a single-buffered IN pipe.

use vstd::multiset::Multiset;
use vstd::prelude::*;

use crate::calls::{
    appended, counts_kept, ends_with_flag, grew, in_action, lemma_appended, lemma_others_untouched,
    one_up, only_in_side, others_untouched, settings_kept,
};
use crate::hw::{ctrl_value, pad_ops, HwOp};
use crate::laws_tx::{
    law_tx_alloc_keeps_order, law_tx_discard_keeps_order, law_tx_sent_keeps_order,
    law_tx_submit_appends, law_tx_submit_keeps_order, lemma_advance_regs, tx_handed_out, tx_given_up,
    tx_hw, tx_owned, tx_packets,
};
use crate::pipe::{on_in, Counters, Pipes, TxBuf, TxGrant, TxPipe};
use crate::regs::{lemma_after_all_add, lemma_after_short, RegFile};
use crate::slots::opt_seq;

verus! {

/// When a single-buffered IN packet has gone out, whatever the registers held: the packet
/// leaves the line at the front and its slot goes to the end of the free ones. The next
/// packet in line is set up on this endpoint, with the other synchronisation state, before
/// the flag is cleared; with none, the endpoint answers NAK and that counts as dry. Nothing
/// else changes, and the producer is woken once half of the slots are free.
#[verifier::rlimit(60)]
#[verifier::spinoff_prover]
pub proof fn law_on_in(
    p: &mut Pipes,
    index: usize,
    log: &mut Vec<HwOp>,
    wake: bool,
    held: Multiset<u8>,
    regs: RegFile,
)
    requires
        old(p).wf(),
        1 <= index < 16,
        !old(p)@.switches.dbuf_tx,
        old(p)@.tx[index as int].n != 0,
        old(p)@.tx[index as int].free.len() < 15,
        call_ensures(on_in, (p, index, log), wake),
    ensures
        grew(old(log)@, final(log)@),
        settings_kept(old(p)@, final(p)@),
        only_in_side(old(p)@, final(p)@, index as int),
        one_up(old(p)@.evt_tx, final(p)@.evt_tx),
        final(p)@.evt_rx == old(p)@.evt_rx,
        ({
            let s = old(p)@.tx[index as int];
            let q = final(p)@.tx[index as int];
            let ops = appended(old(log)@, final(log)@);
            let at_flag = regs.after_all(ops.drop_last());
            let end = regs.after_all(ops);
            &&& q.lens == s.lens
            &&& s.armed is Some ==> tx_packets(q) == tx_packets(s).skip(1) && q.free
                == s.free.push(tx_packets(s)[0].0)
            &&& s.armed is None ==> tx_packets(q) == tx_packets(s) && q.free == s.free
            &&& q.armed is None ==> tx_packets(q).len() == 0
            &&& q.stopped == (q.armed is None)
            &&& q.tog == (s.tog != (q.armed is Some))
            &&& (q.dbuf, q.cur, q.tlen) == (s.dbuf, s.cur, s.tlen)
            &&& tx_owned(s, held) ==> tx_owned(q, held)
            &&& forall|i: int| 0 <= i < ops.len() ==> in_action(#[trigger] ops[i], index as int)
            &&& ends_with_flag(ops, old(p)@.pad_tx)
            &&& tx_hw(q, index as int, at_flag)
            &&& at_flag.tx_ctrl[index as int] == ctrl_value(s.tog, q.armed is Some, false)
            &&& others_untouched(regs, end, index as int)
            &&& !end.transfer
            &&& wake == (2 * q.free.len() + 1 >= q.n && q.free.len() > 0)
            &&& if q.armed is None {
                one_up(old(p)@.counters.dry_tx, final(p)@.counters.dry_tx)
            } else {
                final(p)@.counters.dry_tx == old(p)@.counters.dry_tx
            }
            &&& final(p)@.counters == (Counters {
                dry_tx: final(p)@.counters.dry_tx,
                ..old(p)@.counters
            })
        }),
{
    let s = old(p)@.tx[index as int];
    let q = final(p)@.tx[index as int];
    let ops = s.sent_ops(index, old(p)@.pad_tx);
    let adv = s.advance_ops(index);
    let pad = pad_ops(old(p)@.pad_tx);
    lemma_appended(old(log)@, ops);
    assert(q == s.sent());
    assert(s.armed is Some ==> tx_packets(q) =~= tx_packets(s).skip(1));
    assert(s.armed is None ==> tx_packets(q) =~= tx_packets(s));
    if tx_owned(s, held) {
        law_tx_sent_keeps_order(s, held);
    }
    lemma_advance_regs(s, index, regs);
    assert(ops.drop_last() =~= adv + pad);
    lemma_after_all_add(regs, adv, pad);
    let tick = HwOp::Pad { ticks: old(p)@.pad_tx };
    let mid = regs.after_all(adv);
    lemma_after_short(mid, tick, tick, tick);
    assert(regs.after_all(ops.drop_last()) == mid);
    assert(2u8 & 2 == 2) by (bit_vector);
    assert forall|i: int| 0 <= i < ops.len() implies in_action(#[trigger] ops[i], index as int)
        && (ops[i] is IntFg ==> i == ops.len() - 1) && (ops[i] is Pad ==> old(p)@.pad_tx != 0 && i
        == ops.len() - 2 && ops[i] == tick) by {
        if i < adv.len() {
            assert(ops[i] == adv[i]);
        } else if i < adv.len() + pad.len() {
            assert(ops[i] == pad[i - adv.len()]);
        }
    }
    lemma_others_untouched(regs, ops, index as int);
}

/// Without a queue, a finished IN packet only has its flag cleared, in either buffer mode.
pub proof fn law_on_in_without_queue(
    p: &mut Pipes,
    index: usize,
    log: &mut Vec<HwOp>,
    wake: bool,
)
    requires
        old(p).wf(),
        index < 16,
        old(p)@.tx[index as int].n == 0,
        call_ensures(on_in, (p, index, log), wake),
    ensures
        final(p)@ == old(p)@,
        final(log)@ == old(log)@.push(HwOp::IntFg { value: 2 }),
        !wake,
{
    assert(final(log)@ =~= old(log)@.push(HwOp::IntFg { value: 2 }));
}

/// A producer gets the slot that has been free for longest, at its own address, if and
/// only if one is free; what it gets and what stays free is what was free. It holds the
/// slot from then on: in a pipe in order nobody else has it.
pub proof fn law_allocate(
    t: &TxPipe,
    p: &mut Pipes,
    r: Option<TxGrant>,
    held: Multiset<u8>,
)
    requires
        old(p).wf(),
        t.index < 16,
        call_ensures(TxPipe::allocate, (t, p), r),
    ensures
        settings_kept(old(p)@, final(p)@),
        counts_kept(old(p)@, final(p)@),
        only_in_side(old(p)@, final(p)@, t.index as int),
        ({
            let s = old(p)@.tx[t.index as int];
            let q = final(p)@.tx[t.index as int];
            &&& r is Some <==> s.free.len() > 0
            &&& q.lens == s.lens && q.queue == s.queue && q.armed == s.armed
            &&& (q.tog, q.stopped, q.dbuf, q.cur, q.tlen) == (
                s.tog,
                s.stopped,
                s.dbuf,
                s.cur,
                s.tlen,
            )
            &&& r is None ==> q.free == s.free
            &&& r matches Some(g) ==> {
                &&& s.free == seq![g.spec_slot()] + q.free
                &&& g.spec_ep() == t.index
                &&& g.spec_addr() == s.addrs[g.spec_slot() as int]
                &&& tx_owned(s, held) ==> tx_owned(q, held.insert(g.spec_slot()))
                &&& g.wf()
            }
        }),
{
    let s = old(p)@.tx[t.index as int];
    let q = final(p)@.tx[t.index as int];
    match r {
        Some(g) => {
            assert(q == tx_handed_out(s));
            assert(s.free =~= seq![g.spec_slot()] + q.free);
            if tx_owned(s, held) {
                law_tx_alloc_keeps_order(s, held);
            }
        },
        None => {},
    }
}

/// Filling a slot of a single-buffered IN pipe in and submitting it puts it at the end of
/// the line with its length, and leaves its bytes where they were written. An idle
/// endpoint starts on the first slot in line: address and length are in place before the
/// control register answers ACK. A busy endpoint is not touched.
#[verifier::rlimit(60)]
#[verifier::spinoff_prover]
pub proof fn law_submit(
    t: &TxPipe,
    p: &mut Pipes,
    buf: TxBuf<'_>,
    len: u16,
    log: &mut Vec<HwOp>,
    held: Multiset<u8>,
    regs: RegFile,
)
    requires
        old(p).wf(),
        1 <= t.index < 16,
        buf.wf(),
        !old(p)@.switches.dbuf_tx,
        old(p)@.tx[t.index as int].dbuf == seq![None::<u8>, None::<u8>],
        old(p)@.tx[t.index as int].queue.len() < 15,
        call_ensures(TxPipe::submit, (t, p, buf, len, log), ()),
    ensures
        grew(old(log)@, final(log)@),
        settings_kept(old(p)@, final(p)@),
        counts_kept(old(p)@, final(p)@),
        only_in_side(old(p)@, final(p)@, t.index as int),
        final(buf.data)@ == buf.bytes(),
        ({
            let index = t.index as int;
            let slot = buf.spec_slot();
            let s = old(p)@.tx[index];
            let q = final(p)@.tx[index];
            let ops = appended(old(log)@, final(log)@);
            let end = regs.after_all(ops);
            &&& opt_seq(q.armed) + q.queue == (opt_seq(s.armed) + s.queue).push(slot)
            &&& q.lens == s.lens.update(slot as int, len)
            &&& q.free == s.free
            &&& q.armed is Some
            &&& tx_owned(s, held) && held.count(slot) > 0 ==> tx_packets(q) == tx_packets(s).push(
                (slot, len),
            ) && tx_owned(q, held.remove(slot))
            &&& (q.dbuf, q.cur) == (s.dbuf, s.cur)
            &&& s.armed is Some ==> ops.len() == 0 && (q.tog, q.stopped, q.tlen) == (
                s.tog,
                s.stopped,
                s.tlen,
            )
            &&& s.armed is None ==> {
                &&& q.tog == !s.tog
                &&& !q.stopped
                &&& q.tlen == q.lens[q.armed->0 as int]
                &&& tx_hw(q, index, end)
                &&& end.tx_ctrl[index] == ctrl_value(s.tog, true, false)
                &&& ops.len() > 0 && ops.last() is TxCtrl
            }
            &&& forall|i: int|
                0 <= i < ops.len() ==> in_action(#[trigger] ops[i], index) && !(ops[i] is IntFg)
                    && !(ops[i] is Pad) && (ops[i] is TxCtrl ==> i == ops.len() - 1)
            &&& others_untouched(regs, end, index)
        }),
{
    let index = t.index as int;
    let slot = buf.spec_slot();
    let s = old(p)@.tx[index];
    let q = final(p)@.tx[index];
    let m = s.queued(slot, len);
    let ops = s.submitted_ops(slot, len, t.index, false, old(p)@.switches.dbuf_tx_auto_tog);
    lemma_appended(old(log)@, ops);
    assert(q == s.submitted(slot, len, false));
    assert(opt_seq(q.armed) + q.queue =~= (opt_seq(s.armed) + s.queue).push(slot));
    if tx_owned(s, held) && held.count(slot) > 0 {
        law_tx_submit_appends(s, held, slot, len);
        law_tx_submit_keeps_order(s, held, slot, len);
    }
    if s.armed is None {
        assert(m.ok());
        lemma_advance_regs(m, t.index, regs);
    }
    lemma_others_untouched(regs, ops, index);
}

/// Giving a slot up puts it at the end of the free ones of the endpoint it came from and
/// changes nothing else.
pub proof fn law_tx_discard(buf: TxBuf<'_>, p: &mut Pipes, held: Multiset<u8>)
    requires
        old(p).wf(),
        buf.wf(),
        old(p)@.tx[buf.spec_ep() as int].free.len() < 15,
        call_ensures(TxBuf::discard, (buf, p), ()),
    ensures
        settings_kept(old(p)@, final(p)@),
        counts_kept(old(p)@, final(p)@),
        only_in_side(old(p)@, final(p)@, buf.spec_ep() as int),
        final(buf.data)@ == buf.bytes(),
        ({
            let s = old(p)@.tx[buf.spec_ep() as int];
            let q = final(p)@.tx[buf.spec_ep() as int];
            &&& q.free == s.free.push(buf.spec_slot())
            &&& q.lens == s.lens && q.queue == s.queue && q.armed == s.armed
            &&& (q.tog, q.stopped, q.dbuf, q.cur, q.tlen) == (
                s.tog,
                s.stopped,
                s.dbuf,
                s.cur,
                s.tlen,
            )
            &&& tx_owned(s, held) && held.count(buf.spec_slot()) > 0 ==> tx_owned(
                q,
                held.remove(buf.spec_slot()),
            )
        }),
{
    let s = old(p)@.tx[buf.spec_ep() as int];
    if tx_owned(s, held) && held.count(buf.spec_slot()) > 0 {
        assert(final(p)@.tx[buf.spec_ep() as int] == tx_given_up(s, buf.spec_slot()));
        law_tx_discard_keeps_order(s, held, buf.spec_slot());
    }
}

/// The slots in use and the free ones make up the capacity, which is the number of slots
/// attached.
pub proof fn law_tx_used(t: &TxPipe, p: &Pipes, used: u8, capacity: u8)
    requires
        p.wf(),
        t.index < 16,
        call_ensures(TxPipe::used, (t, p), used),
        call_ensures(TxPipe::capacity, (t, p), capacity),
    ensures
        capacity == p@.tx[t.index as int].n,
        p@.tx[t.index as int].free.len() <= capacity ==> used + p@.tx[t.index as int].free.len()
            == capacity,
        p@.tx[t.index as int].free.len() > capacity ==> used == 0,
{
}

/// A handle and a buffer are what they were made from: the endpoint, the slot with its
/// address, and the memory, which the owner writes to directly.
pub proof fn law_tx_handles(
    index: usize,
    pipe: TxPipe,
    grant: TxGrant,
    addr: u32,
    data: &mut [u8],
    buf: TxBuf<'_>,
    view: &mut TxBuf<'_>,
    bytes: &mut [u8],
    capacity: usize,
)
    requires
        call_ensures(TxPipe::new, (index,), pipe),
        call_ensures(TxGrant::addr, (&grant,), addr),
        call_ensures(TxBuf::attach, (grant, data), buf),
        call_ensures(TxBuf::buf, (view,), bytes),
        call_ensures(TxBuf::capacity, (&buf,), capacity),
    ensures
        pipe.index == index,
        addr == grant.spec_addr(),
        buf.spec_slot() == grant.spec_slot(),
        buf.spec_ep() == grant.spec_ep(),
        buf.bytes() == old(data)@,
        final(buf.data)@ == final(data)@,
        old(bytes)@ == old(view).bytes(),
        final(view).bytes() == final(bytes)@,
        final(view).grant == old(view).grant,
        capacity == old(data)@.len(),
{
}

} // verus!
