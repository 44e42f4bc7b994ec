//! Laws over single calls on the registry: attaching, resetting and enabling, the settings
//! and the counters.

use vstd::multiset::Multiset;
use vstd::prelude::*;

use crate::calls::{
    appended, counts_kept, grew, lemma_appended, lemma_others_untouched, on_endpoint, one_up,
    others_untouched, settings_kept,
};
use crate::calls_rx::{law_recv, rx_line};
use crate::calls_tx::{law_allocate, law_submit};
use crate::hw::{ctrl_value, HwOp};
use crate::laws::{law_attached_pipe_is_in_order, law_ctrl_fields};
use crate::laws_db::db_owned;
use crate::laws_rx::rx_owned;
use crate::laws_tx::tx_owned;
use crate::pipe::{
    dbg_state, evt_rx, evt_tx, init_rx, init_tx, is_ring, isr_pad, metrics, metrics_clear,
    metrics_enter, metrics_exit, metrics_init, metrics_init_ops, on_enable, reset, reset_all,
    set_isr_pad, tx_dbuf_state, DmaSlot, Pipes, PipesState, RxGrant, RxPipe, Switches, TxBuf, TxGrant,
    TxPipe,
};
use crate::regs::{lemma_after_short, RegFile};
use crate::rx::RxState;
use crate::slots::opt_seq;
use crate::tx::TxState;

verus! {

/// All `n` slots are free, in the order of their numbers.
pub open spec fn all_free(free: Seq<u8>, n: u8) -> bool {
    &&& free.len() == n
    &&& forall|i: int| 0 <= i < n ==> #[trigger] free[i] == i
}

/// An IN side that starts over: every slot is free, nothing is under way in either buffer
/// mode, the next packet is DATA0 or goes to block 0, and the endpoint answers NAK.
pub open spec fn tx_fresh(s: TxState) -> bool {
    &&& all_free(s.free, s.n)
    &&& s.queue.len() == 0
    &&& s.armed is None
    &&& !s.tog
    &&& s.stopped
    &&& s.dbuf.len() == 2 && s.dbuf[0] is None && s.dbuf[1] is None
    &&& s.cur == 0
    &&& s.tlen == 0
}

/// An OUT side that starts over: every slot is free, nothing waits or is armed, and the
/// next packet is DATA0.
pub open spec fn rx_fresh(s: RxState) -> bool {
    &&& all_free(s.free, s.n)
    &&& s.ready.len() == 0
    &&& s.armed is None
    &&& !s.tog
    &&& !s.stopped
}

/// The IN side `q` is what is left of `s` after a reset: with memory it starts over on the
/// same memory, without it is as it was.
pub open spec fn tx_started_over(s: TxState, q: TxState) -> bool {
    &&& q.n == s.n
    &&& q.addrs == s.addrs
    &&& q.lens == s.lens
    &&& s.n != 0 ==> tx_fresh(q)
    &&& s.n == 0 ==> q == s
}

/// The OUT side `q` is what is left of `s` after a reset.
pub open spec fn rx_started_over(s: RxState, q: RxState) -> bool {
    &&& q.n == s.n
    &&& q.addrs == s.addrs
    &&& q.lens == s.lens
    &&& s.n != 0 ==> rx_fresh(q)
    &&& s.n == 0 ==> q == s
}

/// Both sides of endpoint `index`, if it is a data endpoint, and of no other, start over.
pub open spec fn one_started_over(p: PipesState, q: PipesState, index: usize) -> bool {
    &&& settings_kept(p, q)
    &&& counts_kept(p, q)
    &&& q.tx.len() == 16 && q.rx.len() == 16
    &&& forall|j: int|
        0 <= j < 16 ==> if j == index && j != 0 {
            tx_started_over(p.tx[j], #[trigger] q.tx[j])
        } else {
            q.tx[j] == p.tx[j]
        }
    &&& forall|j: int|
        0 <= j < 16 ==> if j == index && j != 0 {
            rx_started_over(p.rx[j], #[trigger] q.rx[j])
        } else {
            q.rx[j] == p.rx[j]
        }
}

/// A reset does that.
pub proof fn lemma_one_started_over(p: PipesState, index: usize)
    requires
        p.ok(),
    ensures
        one_started_over(p, p.reset(index), index),
{
}

/// A reset makes the endpoint start over and leaves everything else alone.
pub proof fn law_reset(p: &mut Pipes, index: usize)
    requires
        old(p).wf(),
        call_ensures(reset, (p, index), ()),
    ensures
        one_started_over(old(p)@, final(p)@, index),
{
    lemma_one_started_over(old(p)@, index);
}

/// Resetting all makes every data endpoint start over.
pub proof fn law_reset_all(p: &mut Pipes)
    requires
        old(p).wf(),
        call_ensures(reset_all, (p,), ()),
    ensures
        settings_kept(old(p)@, final(p)@),
        counts_kept(old(p)@, final(p)@),
        final(p)@.tx.len() == 16 && final(p)@.rx.len() == 16,
        final(p)@.tx[0] == old(p)@.tx[0],
        final(p)@.rx[0] == old(p)@.rx[0],
        forall|j: int|
            1 <= j < 16 ==> tx_started_over(old(p)@.tx[j], #[trigger] final(p)@.tx[j]),
        forall|j: int|
            1 <= j < 16 ==> rx_started_over(old(p)@.rx[j], #[trigger] final(p)@.rx[j]),
{
}

/// After a reset, the first packet that a producer submits goes out as DATA0 from the slot
/// it was handed, whatever was sent before.
#[verifier::rlimit(60)]
#[verifier::spinoff_prover]
pub proof fn law_first_packet_after_reset_is_data0(
    p: &mut Pipes,
    index: usize,
    t: &TxPipe,
    p1: &mut Pipes,
    got: Option<TxGrant>,
    p2: &mut Pipes,
    buf: TxBuf<'_>,
    len: u16,
    log: &mut Vec<HwOp>,
    regs: RegFile,
)
    requires
        old(p).wf(),
        1 <= index < 16,
        t.index == index,
        !old(p)@.switches.dbuf_tx,
        old(p)@.tx[index as int].n != 0,
        call_ensures(reset, (p, index), ()),
        *old(p1) == *final(p),
        call_ensures(TxPipe::allocate, (t, p1), got),
        got is Some,
        buf.grant == got->0,
        *old(p2) == *final(p1),
        call_ensures(TxPipe::submit, (t, p2, buf, len, log), ()),
    ensures
        ({
            let end = regs.after_all(appended(old(log)@, final(log)@));
            &&& end.tx_ctrl[index as int] & 0x03 == 0
            &&& (end.tx_ctrl[index as int] >> 3) & 0x03 == 0
            &&& end.tx_dma[index - 1] == old(p)@.tx[index as int].addrs[0]
        }),
{
    law_reset(p, index);
    assert(final(p)@.tx[index as int].dbuf =~= seq![None::<u8>, None::<u8>]);
    law_allocate(t, p1, got, Multiset::empty());
    law_submit(t, p2, buf, len, log, Multiset::empty(), regs);
    law_ctrl_fields(false, true, false);
    let q = final(p2)@.tx[index as int];
    let s = old(p2)@.tx[index as int];
    assert(buf.spec_slot() == old(p1)@.tx[index as int].free[0]);
    assert((opt_seq(s.armed) + s.queue).push(buf.spec_slot()) =~= seq![
        buf.spec_slot(),
    ]);
    assert((opt_seq(q.armed) + q.queue)[0] == q.armed->0);
}

/// After a reset, the first packet that a reader waits for is expected as DATA0, in the
/// first slot, whatever was received before.
pub proof fn law_first_read_after_reset_is_data0(
    p: &mut Pipes,
    index: usize,
    r: &RxPipe,
    p1: &mut Pipes,
    log: &mut Vec<HwOp>,
    got: Option<RxGrant>,
    regs: RegFile,
)
    requires
        old(p).wf(),
        1 <= index < 16,
        r.index == index,
        old(p)@.rx[index as int].n != 0,
        call_ensures(reset, (p, index), ()),
        *old(p1) == *final(p),
        call_ensures(RxPipe::recv, (r, p1, log), got),
    ensures
        got is None,
        ({
            let end = regs.after_all(appended(old(log)@, final(log)@));
            &&& end.rx_ctrl[index as int] & 0x03 == 0
            &&& (end.rx_ctrl[index as int] >> 3) & 0x03 == 0
            &&& end.rx_dma[index - 1] == old(p)@.rx[index as int].addrs[0]
        }),
{
    law_reset(p, index);
    law_recv(r, p1, log, got, Multiset::empty(), regs);
    law_ctrl_fields(false, true, false);
    let s = old(p1)@.rx[index as int];
    let q = final(p1)@.rx[index as int];
    assert(rx_line(s)[0] == s.free[0]);
    assert(rx_line(q)[0] == q.armed->0);
}

/// Enabling or disabling an endpoint resets it and states its buffer mode anew: double
/// buffering from DATA0 with NAK for an IN queue if it is switched on, single buffering
/// for an OUT queue. Nothing is written for an endpoint without a queue in that direction,
/// nor for a single-buffered IN endpoint.
pub proof fn law_on_enable(
    p: &mut Pipes,
    index: usize,
    enabled: bool,
    dir_in: bool,
    log: &mut Vec<HwOp>,
    regs: RegFile,
)
    requires
        old(p).wf(),
        index < 16,
        call_ensures(on_enable, (p, index, enabled, dir_in, log), ()),
    ensures
        grew(old(log)@, final(log)@),
        one_started_over(old(p)@, final(p)@, index),
        ({
            let ops = appended(old(log)@, final(log)@);
            let end = regs.after_all(ops);
            let db = dir_in && old(p)@.switches.dbuf_tx && index != 0 && old(p)@.tx[index as int].n
                != 0;
            let single = !dir_in && index != 0 && old(p)@.rx[index as int].n != 0;
            &&& !db && !single ==> ops.len() == 0
            &&& db ==> end.buf_mod.contains(index as int) && ops.len() == 2 && ops[1]
                == HwOp::TxCtrl {
                ep: index,
                value: ctrl_value(false, false, old(p)@.switches.dbuf_tx_auto_tog),
            }
            &&& single ==> !end.buf_mod.contains(index as int) && ops.len() == 1
            &&& forall|i: int| 0 <= i < ops.len() ==> on_endpoint(#[trigger] ops[i], index as int)
            &&& others_untouched(regs, end, index as int)
        }),
{
    let ops = old(p)@.enable_ops(index, dir_in);
    lemma_one_started_over(old(p)@, index);
    lemma_appended(old(log)@, ops);
    lemma_others_untouched(regs, ops, index as int);
    if ops.len() == 2 {
        lemma_after_short(regs, ops[0], ops[1], ops[1]);
        assert(ops =~= seq![ops[0], ops[1]]);
    } else if ops.len() == 1 {
        lemma_after_short(regs, ops[0], ops[0], ops[0]);
        assert(ops =~= seq![ops[0]]);
    }
}

/// A pool can be attached if queues are switched on, the endpoint is a data endpoint, and
/// the pool has two to eight slots.
pub open spec fn can_attach(p: PipesState, index: usize, slots: Seq<u32>) -> bool {
    p.switches.ring_enable && 1 <= index <= 15 && 2 <= slots.len() <= 8
}

/// Attaching an IN queue gives the endpoint the slots at these addresses, all of them free,
/// marks it, and sets the buffer mode. It fails, and then changes nothing, exactly where
/// the pool cannot be attached.
pub proof fn law_init_tx(
    p: &mut Pipes,
    index: usize,
    slots: &[u32],
    log: &mut Vec<HwOp>,
    ok: bool,
    regs: RegFile,
)
    requires
        old(p).wf(),
        call_ensures(init_tx, (p, index, slots, log), ok),
    ensures
        ok == can_attach(old(p)@, index, slots@),
        !ok ==> final(p)@ == old(p)@ && final(log)@ == old(log)@,
        ok ==> {
            let s = final(p)@.tx[index as int];
            let ops = appended(old(log)@, final(log)@);
            let end = regs.after_all(ops);
            let db = old(p)@.switches.dbuf_tx;
            &&& grew(old(log)@, final(log)@)
            &&& s.n == slots@.len()
            &&& tx_fresh(s)
            &&& tx_owned(s, Multiset::empty())
            &&& db_owned(s, Multiset::empty())
            &&& forall|i: int| 0 <= i < slots@.len() ==> s.addrs[i] == slots@[i]
            &&& final(p)@.rx == old(p)@.rx
            &&& final(p)@.tx.len() == 16
            &&& forall|j: int|
                0 <= j < 16 && j != index ==> #[trigger] final(p)@.tx[j] == old(p)@.tx[j]
            &&& final(p)@.rings == old(p)@.rings.insert(index as int)
            &&& settings_kept(
                (PipesState { rings: final(p)@.rings, ..old(p)@ }),
                final(p)@,
            )
            &&& counts_kept(old(p)@, final(p)@)
            &&& end.buf_mod.contains(index as int) == db
            &&& db ==> ops.len() == 2 && ops[1] == HwOp::TxCtrl {
                ep: index,
                value: ctrl_value(false, false, old(p)@.switches.dbuf_tx_auto_tog),
            }
            &&& !db ==> ops.len() == 1
            &&& others_untouched(regs, end, index as int)
        },
{
    if ok {
        let ops = old(p)@.tx_attached_ops(index);
        lemma_appended(old(log)@, ops);
        law_attached_pipe_is_in_order(old(p)@, index, slots@);
        lemma_others_untouched(regs, ops, index as int);
        if ops.len() == 2 {
            lemma_after_short(regs, ops[0], ops[1], ops[1]);
            assert(ops =~= seq![ops[0], ops[1]]);
        } else {
            lemma_after_short(regs, ops[0], ops[0], ops[0]);
            assert(ops =~= seq![ops[0]]);
        }
    }
}

/// Attaching an OUT queue gives the endpoint the slots at these addresses, all of them
/// free, marks it, and sets single buffering, on the same conditions.
pub proof fn law_init_rx(
    p: &mut Pipes,
    index: usize,
    slots: &[u32],
    log: &mut Vec<HwOp>,
    ok: bool,
    regs: RegFile,
)
    requires
        old(p).wf(),
        call_ensures(init_rx, (p, index, slots, log), ok),
    ensures
        ok == can_attach(old(p)@, index, slots@),
        !ok ==> final(p)@ == old(p)@ && final(log)@ == old(log)@,
        ok ==> {
            let s = final(p)@.rx[index as int];
            let ops = appended(old(log)@, final(log)@);
            let end = regs.after_all(ops);
            &&& grew(old(log)@, final(log)@)
            &&& s.n == slots@.len()
            &&& rx_fresh(s)
            &&& rx_owned(s, Multiset::empty())
            &&& forall|i: int| 0 <= i < slots@.len() ==> s.addrs[i] == slots@[i]
            &&& final(p)@.tx == old(p)@.tx
            &&& final(p)@.rx.len() == 16
            &&& forall|j: int|
                0 <= j < 16 && j != index ==> #[trigger] final(p)@.rx[j] == old(p)@.rx[j]
            &&& final(p)@.rings == old(p)@.rings.insert(index as int)
            &&& settings_kept(
                (PipesState { rings: final(p)@.rings, ..old(p)@ }),
                final(p)@,
            )
            &&& counts_kept(old(p)@, final(p)@)
            &&& !end.buf_mod.contains(index as int)
            &&& ops.len() == 1
            &&& others_untouched(regs, end, index as int)
        },
{
    if ok {
        let op = HwOp::BufMod { ep: index, on: false };
        assert(final(log)@ =~= old(log)@ + seq![op]);
        lemma_appended(old(log)@, seq![op]);
        law_attached_pipe_is_in_order(old(p)@, index, slots@);
        lemma_others_untouched(regs, seq![op], index as int);
        lemma_after_short(regs, op, op, op);
    }
}

/// At power-up no endpoint has a queue or memory, and every count is 0. The shipped
/// switches turn queues on, double buffering off, and its automatic flip on.
pub proof fn law_power_up(p: Pipes, switches: Switches, shipped: Switches)
    requires
        call_ensures(Pipes::new, (switches,), p),
        call_ensures(Switches::new, (), shipped),
    ensures
        p.wf(),
        p@.switches == switches,
        p@.tx.len() == 16 && p@.rx.len() == 16,
        forall|j: int| 0 <= j < 16 ==> #[trigger] p@.tx[j].n == 0 && p@.tx[j].armed is None
            && p@.tx[j].free.len() == 0 && p@.tx[j].queue.len() == 0 && !p@.tx[j].stopped
            && p@.tx[j].dbuf == seq![None::<u8>, None::<u8>] && p@.tx[j].cur == 0 && p@.tx[j].tlen
            == 0 && !p@.tx[j].tog,
        forall|j: int| 0 <= j < 16 ==> #[trigger] p@.rx[j].n == 0 && p@.rx[j].armed is None
            && p@.rx[j].free.len() == 0 && p@.rx[j].ready.len() == 0 && !p@.rx[j].stopped
            && !p@.rx[j].tog,
        forall|j: int| !p@.rings.contains(j),
        (p@.evt_rx, p@.evt_tx, p@.pad_rx, p@.pad_tx) == (0u32, 0u32, 0u32, 0u32),
        ({
            let c = p@.counters;
            (c.isr_n, c.isr_sum, c.isr_max, c.gap_max, c.last_enter, c.dry_rx, c.dry_tx) == (
                0u32,
                0u32,
                0u32,
                0u32,
                0u32,
                0u32,
                0u32,
            )
        }),
        shipped.ring_enable && !shipped.dbuf_tx && shipped.dbuf_tx_auto_tog,
{
}

/// What was attached is what is reported as having a queue.
pub proof fn law_is_ring(p: &Pipes, index: usize, r: bool)
    requires
        call_ensures(is_ring, (p, index), r),
    ensures
        r == (p@.rings.contains(index as int) && 1 <= index <= 15),
{
}

/// The pauses that were set are those read back, and setting them changes nothing else.
pub proof fn law_pads(
    p: &mut Pipes,
    rx: u32,
    tx: u32,
    q: &Pipes,
    pads: (u32, u32),
)
    requires
        old(p).wf(),
        call_ensures(set_isr_pad, (p, rx, tx), ()),
        *q == *final(p),
        call_ensures(isr_pad, (q,), pads),
    ensures
        pads == (rx, tx),
        (final(p)@.pad_rx, final(p)@.pad_tx) == (rx, tx),
        final(p)@.tx == old(p)@.tx && final(p)@.rx == old(p)@.rx,
        final(p)@.rings == old(p)@.rings && final(p)@.switches == old(p)@.switches,
        counts_kept(old(p)@, final(p)@),
{
}

/// Only the counters changed.
pub open spec fn only_counters(p: PipesState, q: PipesState) -> bool {
    &&& q.tx == p.tx && q.rx == p.rx
    &&& settings_kept(p, q)
    &&& q.evt_rx == p.evt_rx && q.evt_tx == p.evt_tx
}

/// `d` ticks after counter value `t`, the counter shows `now`; it wraps around at 32 bits.
pub open spec fn ticks_between(t: u32, now: u32, d: u32) -> bool {
    (t + d) % 0x1_0000_0000 == now as int
}

/// An interrupt entry is counted, its time handed back and remembered, and the longest gap
/// between two entries grows to the gap to the entry before, `d` ticks ago, if that is
/// longer. The first entry has no gap.
pub proof fn law_metrics_enter(p: &mut Pipes, now: u32, r: u32, d: u32)
    requires
        old(p).wf(),
        call_ensures(metrics_enter, (p, now), r),
        ticks_between(old(p)@.counters.last_enter, now, d),
    ensures
        r == now,
        only_counters(old(p)@, final(p)@),
        ({
            let a = old(p)@.counters;
            let b = final(p)@.counters;
            &&& one_up(a.isr_n, b.isr_n)
            &&& b.last_enter == now
            &&& a.last_enter == 0 ==> b.gap_max == a.gap_max
            &&& a.last_enter != 0 ==> b.gap_max >= d && b.gap_max >= a.gap_max && (b.gap_max == d
                || b.gap_max == a.gap_max)
            &&& (b.isr_sum, b.isr_max, b.dry_rx, b.dry_tx) == (
                a.isr_sum,
                a.isr_max,
                a.dry_rx,
                a.dry_tx,
            )
        }),
{
}

/// The `d` ticks that an interrupt took are added up, and the longest one is kept.
pub proof fn law_metrics_exit(p: &mut Pipes, t0: u32, now: u32, d: u32)
    requires
        old(p).wf(),
        call_ensures(metrics_exit, (p, t0, now), ()),
        ticks_between(t0, now, d),
    ensures
        only_counters(old(p)@, final(p)@),
        ({
            let a = old(p)@.counters;
            let b = final(p)@.counters;
            &&& ticks_between(a.isr_sum, b.isr_sum, d)
            &&& b.isr_max >= d && b.isr_max >= a.isr_max && (b.isr_max == d || b.isr_max
                == a.isr_max)
            &&& (b.isr_n, b.gap_max, b.last_enter, b.dry_rx, b.dry_tx) == (
                a.isr_n,
                a.gap_max,
                a.last_enter,
                a.dry_rx,
                a.dry_tx,
            )
        }),
{
}

/// The counters are read as they are, and clearing them makes them read as 0; the last
/// interrupt entry is remembered all the same.
pub proof fn law_metrics_read(
    p: &mut Pipes,
    before: (u32, u32, u32, u32, u32, u32),
    q: &Pipes,
    after: (u32, u32, u32, u32, u32, u32),
    rx: u32,
    tx: u32,
)
    requires
        old(p).wf(),
        call_ensures(metrics, (&*old(p),), before),
        call_ensures(metrics_clear, (p,), ()),
        *q == *final(p),
        call_ensures(metrics, (q,), after),
        call_ensures(evt_rx, (q,), rx),
        call_ensures(evt_tx, (q,), tx),
    ensures
        before.0 == old(p)@.counters.isr_n,
        before.1 == old(p)@.counters.isr_sum,
        before.2 == old(p)@.counters.isr_max,
        before.3 == old(p)@.counters.gap_max,
        before.4 == old(p)@.counters.dry_rx,
        before.5 == old(p)@.counters.dry_tx,
        after == (0u32, 0u32, 0u32, 0u32, 0u32, 0u32),
        only_counters(old(p)@, final(p)@),
        final(p)@.counters.last_enter == old(p)@.counters.last_enter,
        rx == old(p)@.evt_rx,
        tx == old(p)@.evt_tx,
{
}

/// Starting the cycle counter: it is stopped first and let run last; in between the status
/// and both halves of the count are cleared and both halves of the match value are put out
/// of reach.
pub proof fn law_metrics_init(log: &mut Vec<HwOp>)
    requires
        call_ensures(metrics_init, (log,), ()),
    ensures
        grew(old(log)@, final(log)@),
        ({
            let ops = appended(old(log)@, final(log)@);
            &&& ops.len() == 7
            &&& ops.first() == HwOp::SysTick { word: 0, value: 0 }
            &&& ops.last() == HwOp::SysTick { word: 0, value: 1 }
            &&& forall|i: int|
                1 <= i <= 3 ==> #[trigger] ops[i] == HwOp::SysTick { word: i as usize, value: 0 }
            &&& forall|i: int|
                4 <= i <= 5 ==> #[trigger] ops[i] == HwOp::SysTick {
                    word: i as usize,
                    value: 0xFFFF_FFFF,
                }
        }),
{
    lemma_appended(old(log)@, metrics_init_ops());
}

/// A slot as the state reports name it: its number, or 255 for none.
pub open spec fn named(slot: Option<u8>, number: u8) -> bool {
    match slot {
        Some(x) => number == x,
        None => number == 255,
    }
}

/// The state reports of a data endpoint are its state; a number out of range reads as a
/// stopped endpoint with nothing in it, or as all zeros.
pub proof fn law_state_reports(
    p: &Pipes,
    index: usize,
    d: (u8, u8, u8, u16, u8, u8),
    q: (u8, u8, u8, u8, u8),
)
    requires
        p.wf(),
        call_ensures(tx_dbuf_state, (p, index), d),
        call_ensures(dbg_state, (p, index), q),
    ensures
        index == 0 || index >= 16 ==> d == (255u8, 255u8, 0u8, 0u16, 255u8, 1u8) && q == (
            0u8,
            0u8,
            0u8,
            0u8,
            0u8,
        ),
        1 <= index <= 15 ==> {
            let t = p@.tx[index as int];
            let r = p@.rx[index as int];
            &&& named(t.dbuf[0], d.0) && named(t.dbuf[1], d.1) && named(t.armed, d.4)
            &&& d.2 == t.cur && d.3 == t.tlen && (d.5 == 1) == t.stopped && d.5 <= 1
            &&& t.n != 0 ==> {
                &&& q.0 == t.n && named(t.armed, q.2) && q.3 == t.queue.len()
                &&& (q.4 == 1) == t.stopped && q.4 <= 1
                &&& t.free.len() <= t.n ==> q.1 + t.free.len() == t.n
                &&& t.free.len() > t.n ==> q.1 == 0
            }
            &&& t.n == 0 ==> {
                &&& q.0 == r.n && q.1 == r.ready.len() && named(r.armed, q.2) && q.3 == 0
                &&& (q.4 == 1) == r.stopped && q.4 <= 1
            }
        },
{
}

/// New DMA memory is all zeros.
pub proof fn law_dma_slot<const SIZE: usize>(slot: DmaSlot<SIZE>)
    requires
        call_ensures(DmaSlot::<SIZE>::new, (), slot),
    ensures
        slot.data@.len() == SIZE,
        forall|i: int| 0 <= i < SIZE ==> slot.data@[i] == 0,
{
}

} // verus!
