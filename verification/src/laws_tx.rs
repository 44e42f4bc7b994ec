//! Laws of a single-buffered IN pipe.

use vstd::multiset::Multiset;
use vstd::prelude::*;

use crate::hw::{ctrl_value, len_value, pad_ops, tx_dma_ops, HwOp, EP_N, TRANSFER_FLAG};
use crate::pipe::PipesState;
use crate::regs::{answers_nak, lemma_after_all_add, lemma_after_short, RegFile};
use crate::ring::{ring_push, slots_ok, RING};
use crate::slots::{
    full_bag, lemma_bag, lemma_full_bag, lemma_push_bag, lemma_skip_bag, opt_bag, opt_seq,
};
use crate::tx::{wake_water, TxState};

verus! {

/// All slots of a pipe, wherever they are: free, submitted, armed, or `held` by the
/// producer.
pub open spec fn tx_slots(s: TxState, held: Multiset<u8>) -> Multiset<u8> {
    s.free.to_multiset().add(s.queue.to_multiset()).add(opt_bag(s.armed)).add(held)
}

/// A single-buffered pipe in order, while the producer holds `held`: each slot is in
/// one place, nothing waits while the endpoint is idle, and the endpoint answers NAK
/// exactly while it is idle.
pub open spec fn tx_owned(s: TxState, held: Multiset<u8>) -> bool {
    &&& s.ok()
    &&& s.dbuf == seq![None::<u8>, None::<u8>]
    &&& s.armed is None ==> s.queue.len() == 0
    &&& s.stopped == (s.armed is None)
    &&& tx_slots(s, held) == full_bag(s.n)
}

/// A free slot was handed out.
pub open spec fn tx_handed_out(s: TxState) -> TxState {
    TxState { free: s.free.skip(1), ..s }
}

/// A slot that was handed out came back unused.
pub open spec fn tx_given_up(s: TxState, slot: u8) -> TxState {
    TxState { free: ring_push(s.free, slot), ..s }
}

/// In a pipe in order every slot below the depth is in exactly one of the four places,
/// no other slot occurs anywhere, and no queue comes near its capacity. So the
/// producer never holds the slot that the peripheral reads.
pub proof fn law_tx_each_slot_in_one_place(s: TxState, held: Multiset<u8>)
    requires
        tx_owned(s, held),
    ensures
        forall|x: u8|
            #![trigger held.count(x)]
            s.free.to_multiset().count(x) + s.queue.to_multiset().count(x) + opt_bag(
                s.armed,
            ).count(x) + held.count(x) == (if x < s.n {
                1nat
            } else {
                0nat
            }),
        s.free.len() + s.queue.len() + opt_seq(s.armed).len() + held.len() == s.n,
        s.armed matches Some(slot) ==> held.count(slot) == 0 && !s.free.contains(slot)
            && !s.queue.contains(slot),
{
    lemma_full_bag(s.n);
    lemma_bag(s.free);
    lemma_bag(s.queue);
    assert forall|x: u8|
        #![trigger held.count(x)]
        s.free.to_multiset().count(x) + s.queue.to_multiset().count(x) + opt_bag(s.armed).count(x)
            + held.count(x) == (if x < s.n {
            1nat
        } else {
            0nat
        }) by {
        assert(tx_slots(s, held).count(x) == full_bag(s.n).count(x));
    }
    match s.armed {
        Some(slot) => {
            assert(held.count(slot) == 0);
            assert(tx_slots(s, held).count(slot) == full_bag(s.n).count(slot));
        },
        None => {},
    }
}

/// A pipe that was just attached or reset is in order when the producer holds nothing.
/// A slot granted before the reset counts as free again; a buffer that is still held on
/// to from then is outside these laws, and handing it in would bring its slot in twice.
pub proof fn law_tx_reset_is_in_order(s: TxState)
    requires
        s.ok(),
    ensures
        tx_owned(s.refilled(), Multiset::empty()),
{
    let r = s.refilled();
    assert(r.queue.to_multiset() =~= Multiset::<u8>::empty()) by {
        lemma_bag(r.queue);
    }
    assert(tx_slots(r, Multiset::empty()) =~= full_bag(r.n));
}

/// Handing out the oldest free slot keeps the pipe in order: the producer holds it.
pub proof fn law_tx_alloc_keeps_order(s: TxState, held: Multiset<u8>)
    requires
        tx_owned(s, held),
        s.free.len() > 0,
    ensures
        tx_owned(tx_handed_out(s), held.insert(s.free[0])),
{
    lemma_skip_bag(s.free);
    let r = tx_handed_out(s);
    assert(slots_ok(r.free));
    assert(tx_slots(r, held.insert(s.free[0])) =~= tx_slots(s, held));
}

/// Giving up a held slot keeps the pipe in order.
pub proof fn law_tx_discard_keeps_order(s: TxState, held: Multiset<u8>, slot: u8)
    requires
        tx_owned(s, held),
        held.count(slot) > 0,
    ensures
        tx_owned(tx_given_up(s, slot), held.remove(slot)),
{
    law_tx_each_slot_in_one_place(s, held);
    assert(held.count(slot) > 0);
    lemma_push_bag(s.free, slot);
    let r = tx_given_up(s, slot);
    assert(tx_slots(r, held.remove(slot)) =~= tx_slots(s, held));
}

/// Starting an idle pipe on its queue moves the oldest submitted slot to the
/// peripheral.
proof fn lemma_advanced(s: TxState, held: Multiset<u8>)
    requires
        s.ok(),
        s.dbuf == seq![None::<u8>, None::<u8>],
        s.armed is None,
        tx_slots(s, held) == full_bag(s.n),
    ensures
        tx_owned(s.advanced(), held),
{
    let r = s.advanced();
    if s.queue.len() > 0 {
        lemma_skip_bag(s.queue);
        assert(s.queue[0] < RING);
        assert(slots_ok(r.queue));
    }
    assert(tx_slots(r, held) =~= tx_slots(s, held));
}

/// Submitting a held slot keeps the pipe in order.
pub proof fn law_tx_submit_keeps_order(s: TxState, held: Multiset<u8>, slot: u8, len: u16)
    requires
        tx_owned(s, held),
        held.count(slot) > 0,
    ensures
        tx_owned(s.submitted(slot, len, false), held.remove(slot)),
{
    law_tx_each_slot_in_one_place(s, held);
    assert(held.count(slot) > 0);
    lemma_push_bag(s.queue, slot);
    let q = s.queued(slot, len);
    assert(q.ok());
    assert(tx_slots(q, held.remove(slot)) =~= tx_slots(s, held));
    if q.armed is None {
        lemma_advanced(q, held.remove(slot));
        let r = q.kicked();
        assert(tx_slots(r, held.remove(slot)) =~= tx_slots(q.advanced(), held.remove(slot)));
    }
}

/// A packet that goes out keeps the pipe in order: its slot is free again.
pub proof fn law_tx_sent_keeps_order(s: TxState, held: Multiset<u8>)
    requires
        tx_owned(s, held),
    ensures
        tx_owned(s.sent(), held),
{
    law_tx_each_slot_in_one_place(s, held);
    let back = match s.armed {
        Some(done) => TxState { free: ring_push(s.free, done), armed: None, ..s },
        None => s,
    };
    match s.armed {
        Some(done) => {
            lemma_push_bag(s.free, done);
        },
        None => {},
    }
    assert(tx_slots(back, held) =~= tx_slots(s, held));
    lemma_advanced(back, held);
    assert(s.sent() =~= back.advanced());
}

/// The packets under way, oldest first: the armed one, then the submitted ones; each
/// as slot and length.
pub open spec fn tx_packets(s: TxState) -> Seq<(u8, u16)> {
    (opt_seq(s.armed) + s.queue).map_values(|slot: u8| (slot, s.lens[slot as int]))
}

/// A submitted packet goes to the end of the line.
pub proof fn law_tx_submit_appends(s: TxState, held: Multiset<u8>, slot: u8, len: u16)
    requires
        tx_owned(s, held),
        held.count(slot) > 0,
    ensures
        tx_packets(s.submitted(slot, len, false)) == tx_packets(s).push((slot, len)),
{
    law_tx_each_slot_in_one_place(s, held);
    assert(held.count(slot) > 0);
    lemma_push_bag(s.queue, slot);
    lemma_bag(s.queue);
    assert(!s.queue.contains(slot));
    assert(slot < RING);
    let r = s.submitted(slot, len, false);
    assert forall|i: int| 0 <= i < s.queue.len() implies s.queue[i] != slot by {
        assert(s.queue.contains(s.queue[i]));
    }
    assert(tx_packets(r) =~= tx_packets(s).push((slot, len)));
}

/// When a packet has gone out, it leaves the line at the front and its slot is the
/// last to be handed out again.
pub proof fn law_tx_sent_removes_first(s: TxState, held: Multiset<u8>)
    requires
        tx_owned(s, held),
        s.armed is Some,
    ensures
        tx_packets(s.sent()) == tx_packets(s).skip(1),
        s.sent().free == s.free.push(tx_packets(s)[0].0),
{
    law_tx_each_slot_in_one_place(s, held);
    lemma_push_bag(s.free, s.armed->0);
    assert(tx_packets(s.sent()) =~= tx_packets(s).skip(1));
}

/// What happens to an IN pipe.
pub enum TxEvent {
    /// The producer asks for a slot.
    Alloc,
    /// The producer submits a slot that it holds.
    Submit(u8, u16),
    /// The producer gives up a slot that it holds.
    Discard(u8),
    /// The peripheral reports a sent packet.
    Sent,
}

/// An IN pipe with its past.
#[verifier::ext_equal]
pub struct TxTrace {
    pub s: TxState,
    /// Slots that the producer holds.
    pub held: Multiset<u8>,
    /// Everything that was submitted, in order.
    pub submitted: Seq<(u8, u16)>,
    /// Everything that was sent, in order.
    pub sent: Seq<(u8, u16)>,
}

/// One event; a producer cannot hand in what it does not hold.
pub open spec fn tx_step(t: TxTrace, e: TxEvent) -> TxTrace {
    match e {
        TxEvent::Alloc => if t.s.free.len() > 0 {
            TxTrace { s: tx_handed_out(t.s), held: t.held.insert(t.s.free[0]), ..t }
        } else {
            t
        },
        TxEvent::Submit(slot, len) => if t.held.count(slot) > 0 {
            TxTrace {
                s: t.s.submitted(slot, len, false),
                held: t.held.remove(slot),
                submitted: t.submitted.push((slot, len)),
                ..t
            }
        } else {
            t
        },
        TxEvent::Discard(slot) => if t.held.count(slot) > 0 {
            TxTrace { s: tx_given_up(t.s, slot), held: t.held.remove(slot), ..t }
        } else {
            t
        },
        TxEvent::Sent => TxTrace {
            s: t.s.sent(),
            sent: match t.s.armed {
                Some(slot) => t.sent.push((slot, t.s.lens[slot as int])),
                None => t.sent,
            },
            ..t
        },
    }
}

/// A run of events.
pub open spec fn tx_run(t: TxTrace, events: Seq<TxEvent>) -> TxTrace
    decreases events.len(),
{
    if events.len() == 0 {
        t
    } else {
        tx_step(tx_run(t, events.drop_last()), events.last())
    }
}

/// Whatever the producer, who holds no buffer from before, and the peripheral do after a
/// reset: the pipe stays in order, and the sent packets followed by those under way are
/// the submitted packets, each with the length it was submitted with, in the order of
/// submission.
pub proof fn law_tx_sends_what_was_submitted(s: TxState, events: Seq<TxEvent>)
    requires
        s.ok(),
    ensures
        ({
            let t = tx_run(
                TxTrace {
                    s: s.refilled(),
                    held: Multiset::empty(),
                    submitted: Seq::empty(),
                    sent: Seq::empty(),
                },
                events,
            );
            tx_owned(t.s, t.held) && t.submitted == t.sent + tx_packets(t.s)
        }),
    decreases events.len(),
{
    let start = TxTrace {
        s: s.refilled(),
        held: Multiset::empty(),
        submitted: Seq::empty(),
        sent: Seq::empty(),
    };
    if events.len() == 0 {
        law_tx_reset_is_in_order(s);
        assert(start.submitted =~= start.sent + tx_packets(start.s));
    } else {
        law_tx_sends_what_was_submitted(s, events.drop_last());
        let t = tx_run(start, events.drop_last());
        let r = tx_step(t, events.last());
        match events.last() {
            TxEvent::Alloc => {
                if t.s.free.len() > 0 {
                    law_tx_alloc_keeps_order(t.s, t.held);
                    assert(tx_packets(r.s) =~= tx_packets(t.s));
                }
            },
            TxEvent::Submit(slot, len) => {
                if t.held.count(slot) > 0 {
                    law_tx_submit_keeps_order(t.s, t.held, slot, len);
                    law_tx_submit_appends(t.s, t.held, slot, len);
                    assert(r.submitted =~= r.sent + tx_packets(r.s));
                }
            },
            TxEvent::Discard(slot) => {
                if t.held.count(slot) > 0 {
                    law_tx_discard_keeps_order(t.s, t.held, slot);
                    assert(tx_packets(r.s) =~= tx_packets(t.s));
                }
            },
            TxEvent::Sent => {
                law_tx_sent_keeps_order(t.s, t.held);
                match t.s.armed {
                    Some(slot) => {
                        law_tx_sent_removes_first(t.s, t.held);
                        assert(tx_packets(t.s)[0] == (slot, t.s.lens[slot as int]));
                        assert(r.submitted =~= r.sent + tx_packets(r.s));
                    },
                    None => {
                        assert(tx_packets(r.s) =~= tx_packets(t.s));
                    },
                }
            },
        }
    }
}

/// The registers of endpoint `index` are those of the armed packet: its address, its
/// length, ACK, and the synchronisation state before the one to come. An idle endpoint
/// answers NAK.
pub open spec fn tx_hw(s: TxState, index: int, regs: RegFile) -> bool {
    match s.armed {
        Some(slot) => {
            &&& regs.tx_dma[index - 1] == s.addrs[slot as int]
            &&& regs.t_len[index] == len_value(s.lens[slot as int])
            &&& regs.tx_ctrl[index] == ctrl_value(!s.tog, true, false)
        },
        None => answers_nak(regs.tx_ctrl[index]),
    }
}

/// The writes of an advance put the registers in the state of the next packet.
pub proof fn lemma_advance_regs(s: TxState, index: usize, regs: RegFile)
    requires
        s.ok(),
        1 <= index < EP_N,
    ensures
        tx_hw(s.advanced(), index as int, regs.after_all(s.advance_ops(index))),
        forall|i: int|
            0 <= i < s.advance_ops(index).len() ==> !(#[trigger] s.advance_ops(index)[i] is IntFg),
{
    if s.queue.len() > 0 {
        let slot = s.queue[0] as int;
        let dma = tx_dma_ops(index, s.addrs[slot], s.lens[slot]);
        let go = HwOp::TxCtrl { ep: index, value: ctrl_value(s.tog, true, false) };
        assert(s.advance_ops(index) =~= seq![dma[0], dma[1], go]);
        lemma_after_short(regs, dma[0], dma[1], go);
    } else {
        let stop = HwOp::TxCtrl { ep: index, value: ctrl_value(s.tog, false, false) };
        lemma_after_short(regs, stop, stop, stop);
    }
}

/// When a packet has gone out, the registers are those of the next packet before the
/// transfer flag is cleared; clearing it is the last action and the only one of its
/// kind. Two packets sent back to back carry opposite synchronisation states.
pub proof fn law_tx_sent_registers_before_flag(
    s: TxState,
    held: Multiset<u8>,
    index: usize,
    pad: u32,
    regs: RegFile,
)
    requires
        tx_owned(s, held),
        1 <= index < EP_N,
        tx_hw(s, index as int, regs),
    ensures
        ({
            let ops = s.sent_ops(index, pad);
            let before_flag = regs.after_all(ops.drop_last());
            let end = regs.after_all(ops);
            &&& ops.last() == HwOp::IntFg { value: TRANSFER_FLAG }
            &&& forall|i: int| 0 <= i < ops.len() - 1 ==> !(#[trigger] ops[i] is IntFg)
            &&& tx_hw(s.sent(), index as int, before_flag)
            &&& end == RegFile { transfer: false, ..before_flag }
            &&& s.armed is Some && s.sent().armed is Some ==> regs.tx_ctrl[index as int]
                == ctrl_value(!s.tog, true, false) && end.tx_ctrl[index as int] == ctrl_value(
                s.tog,
                true,
                false,
            )
        }),
{
    let adv = s.advance_ops(index);
    let ops = s.sent_ops(index, pad);
    let flag_op = HwOp::IntFg { value: TRANSFER_FLAG };
    assert(ops.drop_last() =~= adv + pad_ops(pad));
    lemma_advance_regs(s, index, regs);
    let mid = regs.after_all(adv);
    lemma_after_all_add(regs, adv, pad_ops(pad));
    let p = HwOp::Pad { ticks: pad };
    lemma_after_short(mid, p, p, p);
    assert(regs.after_all(ops.drop_last()) == mid);
    assert(2u8 & 2 == 2) by (bit_vector);
    assert(s.sent().armed == s.advanced().armed);
    assert forall|i: int| 0 <= i < ops.len() - 1 implies !(#[trigger] ops[i] is IntFg) by {
        if i < adv.len() {
            assert(ops[i] == adv[i]);
        } else {
            assert(ops[i] == pad_ops(pad)[i - adv.len()]);
        }
    }
}

/// Submitting keeps the registers those of the armed packet.
pub proof fn law_tx_submit_registers(
    s: TxState,
    held: Multiset<u8>,
    slot: u8,
    len: u16,
    index: usize,
    auto_tog: bool,
    regs: RegFile,
)
    requires
        tx_owned(s, held),
        held.count(slot) > 0,
        1 <= index < EP_N,
        tx_hw(s, index as int, regs),
    ensures
        tx_hw(
            s.submitted(slot, len, false),
            index as int,
            regs.after_all(s.submitted_ops(slot, len, index, false, auto_tog)),
        ),
{
    law_tx_each_slot_in_one_place(s, held);
    assert(held.count(slot) > 0);
    lemma_push_bag(s.queue, slot);
    let q = s.queued(slot, len);
    if q.armed is None {
        lemma_advance_regs(q, index, regs);
    } else {
        assert(s.submitted_ops(slot, len, index, false, auto_tog) =~= Seq::<HwOp>::empty());
    }
}

/// A pipe that drains wakes its producer, as long as the producer keeps no more slots
/// to itself than leave the wake level within reach.
pub proof fn law_tx_drained_pipe_wakes(p: PipesState, index: usize, held: Multiset<u8>)
    requires
        p.ok(),
        !p.switches.dbuf_tx,
        1 <= index < EP_N,
        tx_owned(p.tx[index as int], held),
        p.tx[index as int].queue.len() == 0,
        held.len() + wake_water(p.tx[index as int].n) <= p.tx[index as int].n,
    ensures
        p.in_wakes(index),
{
    let s = p.tx[index as int];
    law_tx_sent_keeps_order(s, held);
    law_tx_each_slot_in_one_place(s.sent(), held);
}

} // verus!
