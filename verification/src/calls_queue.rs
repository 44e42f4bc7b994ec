//! Laws over single calls on a ring and on the queues of one endpoint.

use vstd::prelude::*;

use crate::calls::{appended, grew, lemma_appended};
use crate::calls_registry::{all_free, rx_fresh, tx_fresh};
use crate::calls_rx::rx_line;
use crate::hw::{ctrl_value, HwOp};
use crate::laws_rx::{lemma_advance_regs as lemma_rx_regs, rx_hw};
use crate::laws_tx::{lemma_advance_regs as lemma_tx_regs, tx_hw};
use crate::regs::RegFile;
use crate::ring::SlotRing;
use crate::rx::RxCtx;
use crate::slots::opt_seq;
use crate::tx::TxCtx;

verus! {

/// A new ring is empty, and a filled one holds the slots below `n` in order.
pub proof fn law_new_rings(empty: SlotRing, n: u8, filled: SlotRing)
    requires
        n <= 8,
        call_ensures(SlotRing::new, (), empty),
        call_ensures(SlotRing::filled, (n,), filled),
    ensures
        empty.wf() && filled.wf(),
        empty@.len() == 0,
        all_free(filled@, n),
{
}

/// What is appended comes after everything else, as long as there is room for it; the
/// entry that would be the sixteenth makes the ring read as empty.
pub proof fn law_ring_push(ring: &mut SlotRing, slot: u8)
    requires
        old(ring).wf(),
        slot < 8,
        call_ensures(SlotRing::push, (ring, slot), ()),
    ensures
        final(ring).wf(),
        old(ring)@.len() < 15 ==> final(ring)@.len() == old(ring)@.len() + 1 && final(ring)@.last()
            == slot && final(ring)@.drop_last() == old(ring)@,
        old(ring)@.len() == 15 ==> final(ring)@.len() == 0,
{
    if old(ring)@.len() < 15 {
        assert(final(ring)@.drop_last() =~= old(ring)@);
    }
}

/// The entry that comes out is the oldest one, exactly if there is one, and the others stay
/// in order; looking at it or at the number of entries changes nothing.
pub proof fn law_ring_pop(
    ring: &mut SlotRing,
    r: Option<u8>,
    len: u8,
    empty: bool,
    front: u8,
    other: &mut SlotRing,
)
    requires
        old(ring).wf(),
        call_ensures(SlotRing::len, (&*old(ring),), len),
        call_ensures(SlotRing::is_empty, (&*old(ring),), empty),
        call_ensures(SlotRing::pop, (ring,), r),
        *old(other) == *old(ring),
        old(ring)@.len() > 0 ==> call_ensures(SlotRing::front, (&*old(ring),), front)
            && call_ensures(SlotRing::advance, (other,), ()),
    ensures
        final(ring).wf(),
        len == old(ring)@.len(),
        empty == (len == 0),
        r is Some <==> len > 0,
        r is None ==> final(ring)@ == old(ring)@,
        r matches Some(slot) ==> old(ring)@ == seq![slot] + final(ring)@ && front == slot
            && final(other)@ == final(ring)@,
{
    if r is Some {
        assert(old(ring)@ =~= seq![r->0] + final(ring)@);
    }
}

/// Taking all slots back makes the queues of an endpoint start over on the same memory:
/// DATA0 next, nothing under way, every slot free. A reset does so where there is memory.
pub proof fn law_refill(
    t: &mut TxCtx,
    t2: &mut TxCtx,
    r: &mut RxCtx,
    r2: &mut RxCtx,
)
    requires
        old(t).wf(),
        old(r).wf(),
        call_ensures(TxCtx::refill_free, (t,), ()),
        call_ensures(RxCtx::refill_free, (r,), ()),
        *old(t2) == *old(t),
        *old(r2) == *old(r),
        call_ensures(TxCtx::reset, (t2,), ()),
        call_ensures(RxCtx::reset, (r2,), ()),
    ensures
        tx_fresh(final(t)@) && final(t)@.n == old(t)@.n && final(t)@.addrs == old(t)@.addrs,
        rx_fresh(final(r)@) && final(r)@.n == old(r)@.n && final(r)@.addrs == old(r)@.addrs,
        final(t2)@ == (if old(t)@.n != 0 {
            final(t)@
        } else {
            old(t)@
        }),
        final(r2)@ == (if old(r)@.n != 0 {
            final(r)@
        } else {
            old(r)@
        }),
{
}

/// Queues made for `n` slots at these addresses start over on them; queues without memory
/// have no slot.
pub proof fn law_new_queues(
    addrs: [u32; 8],
    n: u8,
    t: TxCtx,
    r: RxCtx,
    t0: TxCtx,
    r0: RxCtx,
    slot: u8,
    t_addr: u32,
    r_addr: u32,
    t_depth: u8,
    r_depth: u8,
)
    requires
        n <= 8,
        slot < 8,
        call_ensures(TxCtx::attached, (addrs, n), t),
        call_ensures(RxCtx::attached, (addrs, n), r),
        call_ensures(TxCtx::empty, (), t0),
        call_ensures(RxCtx::empty, (), r0),
        call_ensures(TxCtx::addr, (&t, slot), t_addr),
        call_ensures(RxCtx::addr, (&r, slot), r_addr),
        call_ensures(TxCtx::depth, (&t,), t_depth),
        call_ensures(RxCtx::depth, (&r,), r_depth),
    ensures
        tx_fresh(t@) && rx_fresh(r@),
        t_addr == addrs@[slot as int] && r_addr == addrs@[slot as int],
        t_depth == n && r_depth == n,
        t0@.n == 0 && t0@.free.len() == 0 && t0@.queue.len() == 0 && t0@.armed is None,
        r0@.n == 0 && r0@.free.len() == 0 && r0@.ready.len() == 0 && r0@.armed is None,
{
}

/// Appending to a queue says whether the queue was empty before.
pub proof fn law_push_tells_empty(
    t: &mut TxCtx,
    r: &mut RxCtx,
    slot: u8,
    t_was: bool,
    r_was: bool,
)
    requires
        old(t).wf(),
        old(r).wf(),
        slot < 8,
        old(t)@.queue.len() < 15,
        old(r)@.free.len() < 15,
        call_ensures(TxCtx::push_q, (t, slot), t_was),
        call_ensures(RxCtx::push_free, (r, slot), r_was),
    ensures
        final(t)@.queue == old(t)@.queue.push(slot),
        final(r)@.free == old(r)@.free.push(slot),
        t_was == (final(t)@.queue.len() == 1),
        r_was == (final(r)@.free.len() == 1),
{
}

/// Starting an idle endpoint arms the first slot in line, and says whether there was one;
/// then the registers are those of that slot. The line stays as it is. With none, the
/// endpoint answers NAK.
pub proof fn law_kick(
    t: &mut TxCtx,
    index: usize,
    t_log: &mut Vec<HwOp>,
    t_went: bool,
    r: &mut RxCtx,
    r_log: &mut Vec<HwOp>,
    r_went: bool,
    regs: RegFile,
)
    requires
        1 <= index < 16,
        old(t).wf(),
        old(t)@.armed is None,
        call_ensures(TxCtx::kick_tx, (t, index, t_log), t_went),
        old(r).wf(),
        old(r)@.armed is None,
        call_ensures(RxCtx::kick_rx, (r, index, r_log), r_went),
    ensures
        grew(old(t_log)@, final(t_log)@),
        grew(old(r_log)@, final(r_log)@),
        ({
            let s = old(t)@;
            let q = final(t)@;
            let end = regs.after_all(appended(old(t_log)@, final(t_log)@));
            &&& t_went == (s.queue.len() > 0) && t_went == (q.armed is Some)
            &&& opt_seq(q.armed) + q.queue == s.queue
            &&& q.free == s.free && q.lens == s.lens
            &&& q.stopped == !t_went && q.tog == (s.tog != t_went)
            &&& tx_hw(q, index as int, end)
            &&& end.tx_ctrl[index as int] == ctrl_value(s.tog, t_went, false)
        }),
        ({
            let s = old(r)@;
            let q = final(r)@;
            let end = regs.after_all(appended(old(r_log)@, final(r_log)@));
            &&& r_went == (s.free.len() > 0) && r_went == (q.armed is Some)
            &&& rx_line(q) == rx_line(s)
            &&& q.ready == s.ready && q.lens == s.lens
            &&& q.stopped == !r_went && q.tog == (s.tog != r_went)
            &&& rx_hw(q, index as int, end)
            &&& end.rx_ctrl[index as int] == ctrl_value(s.tog, r_went, false)
        }),
{
    let s = old(t)@;
    lemma_appended(old(t_log)@, s.advance_ops(index));
    lemma_tx_regs(s, index, regs);
    assert(opt_seq(final(t)@.armed) + final(t)@.queue =~= s.queue);
    let u = old(r)@;
    lemma_appended(old(r_log)@, u.advance_ops(index));
    lemma_rx_regs(u, index, regs);
    assert(rx_line(final(r)@) =~= rx_line(u));
}

/// Filling the blocks of a double-buffered endpoint says whether something is armed then; an
/// endpoint with nothing armed is stopped.
pub proof fn law_kick_db(
    t: &mut TxCtx,
    index: usize,
    auto_tog: bool,
    log: &mut Vec<HwOp>,
    went: bool,
    needs: bool,
)
    requires
        old(t).wf(),
        1 <= index < 16,
        call_ensures(TxCtx::tx_needs_kick, (&*old(t),), needs),
        call_ensures(TxCtx::kick_tx_db, (t, index, auto_tog, log), went),
    ensures
        needs == (old(t)@.dbuf[0] is None || old(t)@.dbuf[1] is None),
        went == (final(t)@.armed is Some),
        !went ==> final(t)@.stopped,
        old(t)@.dbuf[old(t)@.cur as int] is None && old(t)@.queue.len() > 0 ==> went
            && final(t)@.armed == Some(old(t)@.queue[0]),
{
}

} // verus!
