//! Laws of an OUT pipe.

use vstd::multiset::Multiset;
use vstd::prelude::*;

use crate::hw::{ctrl_value, pad_ops, HwOp, EP_N, TRANSFER_FLAG};
use crate::pipe::PipesState;
use crate::regs::{answers_nak, lemma_after_all_add, lemma_after_short, RegFile};
use crate::ring::{ring_push, slots_ok, RING};
use crate::rx::RxState;
use crate::slots::{
    full_bag, lemma_bag, lemma_full_bag, lemma_push_bag, lemma_skip_bag, opt_bag, opt_seq,
};

verus! {

/// All slots of a pipe, wherever they are: free, ready, armed, or `held` by the
/// reader.
pub open spec fn rx_slots(s: RxState, held: Multiset<u8>) -> Multiset<u8> {
    s.free.to_multiset().add(s.ready.to_multiset()).add(opt_bag(s.armed)).add(held)
}

/// A pipe in order, while the reader holds `held`: each slot is in one place, and an
/// armed endpoint is not stopped.
pub open spec fn rx_owned(s: RxState, held: Multiset<u8>) -> bool {
    &&& s.ok()
    &&& s.armed is Some ==> !s.stopped
    &&& rx_slots(s, held) == full_bag(s.n)
}

/// In a pipe in order every slot below the depth is in exactly one of the four places,
/// no other slot occurs anywhere, and no queue comes near its capacity. So the
/// peripheral never writes to a slot that the reader holds or has yet to read.
pub proof fn law_rx_each_slot_in_one_place(s: RxState, held: Multiset<u8>)
    requires
        rx_owned(s, held),
    ensures
        forall|x: u8|
            #![trigger held.count(x)]
            s.free.to_multiset().count(x) + s.ready.to_multiset().count(x) + opt_bag(
                s.armed,
            ).count(x) + held.count(x) == (if x < s.n {
                1nat
            } else {
                0nat
            }),
        s.free.len() + s.ready.len() + opt_seq(s.armed).len() + held.len() == s.n,
        s.armed matches Some(slot) ==> held.count(slot) == 0 && !s.free.contains(slot)
            && !s.ready.contains(slot),
{
    lemma_full_bag(s.n);
    lemma_bag(s.free);
    lemma_bag(s.ready);
    assert forall|x: u8|
        #![trigger held.count(x)]
        s.free.to_multiset().count(x) + s.ready.to_multiset().count(x) + opt_bag(s.armed).count(x)
            + held.count(x) == (if x < s.n {
            1nat
        } else {
            0nat
        }) by {
        assert(rx_slots(s, held).count(x) == full_bag(s.n).count(x));
    }
    match s.armed {
        Some(slot) => {
            assert(held.count(slot) == 0);
            assert(rx_slots(s, held).count(slot) == full_bag(s.n).count(slot));
        },
        None => {},
    }
}

/// A pipe that was just attached or reset is in order when the reader holds nothing. A
/// slot granted before the reset counts as free again; a buffer that is still held on to
/// from then is outside these laws, and giving it back would bring its slot in twice.
pub proof fn law_rx_reset_is_in_order(s: RxState)
    requires
        s.ok(),
    ensures
        rx_owned(s.refilled(), Multiset::empty()),
{
    let r = s.refilled();
    lemma_bag(r.ready);
    assert(r.ready.to_multiset() =~= Multiset::<u8>::empty());
    assert(rx_slots(r, Multiset::empty()) =~= full_bag(r.n));
}

/// Starting an idle pipe moves the oldest free slot to the peripheral.
proof fn lemma_advanced(s: RxState, held: Multiset<u8>)
    requires
        s.ok(),
        s.armed is None,
        rx_slots(s, held) == full_bag(s.n),
    ensures
        rx_owned(s.advanced(), held),
        rx_owned(s.kicked(), held),
{
    let r = s.advanced();
    if s.free.len() > 0 {
        lemma_skip_bag(s.free);
        assert(s.free[0] < RING);
        assert(slots_ok(r.free));
    }
    assert(rx_slots(r, held) =~= rx_slots(s, held));
    assert(rx_slots(s.kicked(), held) =~= rx_slots(s, held));
}

/// What the reader holds after it asked for a packet.
pub open spec fn rx_held_after_poll(s: RxState, held: Multiset<u8>) -> Multiset<u8> {
    if s.ready.len() > 0 {
        held.insert(s.ready[0])
    } else {
        held
    }
}

/// Asking for a packet keeps the pipe in order: the reader holds the slot it got.
pub proof fn law_rx_recv_keeps_order(s: RxState, held: Multiset<u8>)
    requires
        rx_owned(s, held),
    ensures
        rx_owned(s.polled(), rx_held_after_poll(s, held)),
{
    if s.ready.len() > 0 {
        lemma_skip_bag(s.ready);
        assert(slots_ok(s.polled().ready));
        assert(rx_slots(s.polled(), held.insert(s.ready[0])) =~= rx_slots(s, held));
    } else if s.armed is None {
        lemma_advanced(s, held);
    }
}

/// Giving back a held slot keeps the pipe in order.
pub proof fn law_rx_release_keeps_order(s: RxState, held: Multiset<u8>, slot: u8)
    requires
        rx_owned(s, held),
        held.count(slot) > 0,
    ensures
        rx_owned(s.released(slot), held.remove(slot)),
{
    law_rx_each_slot_in_one_place(s, held);
    assert(held.count(slot) > 0);
    lemma_push_bag(s.free, slot);
    let r = s.returned(slot);
    assert(r.ok());
    assert(rx_slots(r, held.remove(slot)) =~= rx_slots(s, held));
    if s.armed is None {
        lemma_advanced(r, held.remove(slot));
    }
}

/// A packet that comes in keeps the pipe in order: its slot is ready.
pub proof fn law_rx_received_keeps_order(s: RxState, held: Multiset<u8>, len: u16)
    requires
        rx_owned(s, held),
    ensures
        rx_owned(s.received(len), held),
{
    law_rx_each_slot_in_one_place(s, held);
    let done = match s.armed {
        Some(slot) => RxState {
            lens: s.lens.update(slot as int, len),
            ready: ring_push(s.ready, slot),
            armed: None,
            ..s
        },
        None => s,
    };
    match s.armed {
        Some(slot) => {
            lemma_push_bag(s.ready, slot);
        },
        None => {},
    }
    assert(rx_slots(done, held) =~= rx_slots(s, held));
    lemma_advanced(done, held);
    assert(s.received(len) =~= done.advanced());
}

/// The packets that wait for the reader, oldest first, each as slot and length.
pub open spec fn rx_packets(s: RxState) -> Seq<(u8, u16)> {
    s.ready.map_values(|slot: u8| (slot, s.lens[slot as int]))
}

/// A packet that comes in goes to the end of the line with its length.
pub proof fn law_rx_received_appends(s: RxState, held: Multiset<u8>, len: u16)
    requires
        rx_owned(s, held),
        s.armed is Some,
    ensures
        rx_packets(s.received(len)) == rx_packets(s).push((s.armed->0, len)),
{
    law_rx_each_slot_in_one_place(s, held);
    let slot = s.armed->0;
    lemma_push_bag(s.ready, slot);
    assert forall|i: int| 0 <= i < s.ready.len() implies s.ready[i] != slot by {
        assert(s.ready.contains(s.ready[i]));
    }
    assert(rx_packets(s.received(len)) =~= rx_packets(s).push((slot, len)));
}

/// What happens to an OUT pipe.
pub enum RxEvent {
    /// The peripheral reports a packet of this length.
    Received(u16),
    /// The reader asks for a packet.
    Recv,
    /// The reader gives a slot back.
    Release(u8),
}

/// An OUT pipe with its past.
#[verifier::ext_equal]
pub struct RxTrace {
    pub s: RxState,
    /// Slots that the reader holds.
    pub held: Multiset<u8>,
    /// Every packet that came in, as slot and length, in order.
    pub received: Seq<(u8, u16)>,
    /// Every packet that the reader got, as slot and length, in order.
    pub delivered: Seq<(u8, u16)>,
}

/// One event; a reader cannot give back what it does not hold.
pub open spec fn rx_step(t: RxTrace, e: RxEvent) -> RxTrace {
    match e {
        RxEvent::Received(len) => RxTrace {
            s: t.s.received(len),
            received: match t.s.armed {
                Some(slot) => t.received.push((slot, len)),
                None => t.received,
            },
            ..t
        },
        RxEvent::Recv => RxTrace {
            s: t.s.polled(),
            held: rx_held_after_poll(t.s, t.held),
            delivered: if t.s.ready.len() > 0 {
                t.delivered.push((t.s.ready[0], t.s.lens[t.s.ready[0] as int]))
            } else {
                t.delivered
            },
            ..t
        },
        RxEvent::Release(slot) => if t.held.count(slot) > 0 {
            RxTrace { s: t.s.released(slot), held: t.held.remove(slot), ..t }
        } else {
            t
        },
    }
}

/// A run of events.
pub open spec fn rx_run(t: RxTrace, events: Seq<RxEvent>) -> RxTrace
    decreases events.len(),
{
    if events.len() == 0 {
        t
    } else {
        rx_step(rx_run(t, events.drop_last()), events.last())
    }
}

/// Whatever the peripheral and the reader, who holds no buffer from before, do after a
/// reset: the pipe stays in order, and the delivered packets followed by those that wait
/// are the received packets, each with the length it came in with, in the order of
/// arrival.
pub proof fn law_rx_delivers_what_was_received(s: RxState, events: Seq<RxEvent>)
    requires
        s.ok(),
    ensures
        ({
            let t = rx_run(
                RxTrace {
                    s: s.refilled(),
                    held: Multiset::empty(),
                    received: Seq::empty(),
                    delivered: Seq::empty(),
                },
                events,
            );
            rx_owned(t.s, t.held) && t.received == t.delivered + rx_packets(t.s)
        }),
    decreases events.len(),
{
    let start = RxTrace {
        s: s.refilled(),
        held: Multiset::empty(),
        received: Seq::empty(),
        delivered: Seq::empty(),
    };
    if events.len() == 0 {
        law_rx_reset_is_in_order(s);
        assert(start.received =~= start.delivered + rx_packets(start.s));
    } else {
        law_rx_delivers_what_was_received(s, events.drop_last());
        let t = rx_run(start, events.drop_last());
        let r = rx_step(t, events.last());
        match events.last() {
            RxEvent::Received(len) => {
                law_rx_received_keeps_order(t.s, t.held, len);
                if t.s.armed is Some {
                    law_rx_received_appends(t.s, t.held, len);
                    assert(r.received =~= r.delivered + rx_packets(r.s));
                } else {
                    assert(rx_packets(r.s) =~= rx_packets(t.s));
                }
            },
            RxEvent::Recv => {
                law_rx_recv_keeps_order(t.s, t.held);
                if t.s.ready.len() > 0 {
                    assert(rx_packets(r.s) =~= rx_packets(t.s).skip(1));
                    assert(rx_packets(t.s)[0] == (
                        t.s.ready[0],
                        t.s.lens[t.s.ready[0] as int],
                    ));
                    assert(r.received =~= r.delivered + rx_packets(r.s));
                } else {
                    assert(rx_packets(r.s) =~= rx_packets(t.s));
                }
            },
            RxEvent::Release(slot) => {
                if t.held.count(slot) > 0 {
                    law_rx_release_keeps_order(t.s, t.held, slot);
                    assert(rx_packets(r.s) =~= rx_packets(t.s));
                }
            },
        }
    }
}

/// The registers of endpoint `index` are those of the armed slot: its address, ACK, and
/// the synchronisation state before the one to come. An idle endpoint answers NAK.
pub open spec fn rx_hw(s: RxState, index: int, regs: RegFile) -> bool {
    match s.armed {
        Some(slot) => {
            &&& regs.rx_dma[index - 1] == s.addrs[slot as int]
            &&& regs.rx_ctrl[index] == ctrl_value(!s.tog, true, false)
        },
        None => answers_nak(regs.rx_ctrl[index]),
    }
}

/// The writes of an advance put the registers in the state of the next slot.
pub proof fn lemma_advance_regs(s: RxState, index: usize, regs: RegFile)
    requires
        s.ok(),
        index < EP_N,
        s.free.len() > 0 ==> index >= 1,
    ensures
        rx_hw(s.advanced(), index as int, regs.after_all(s.advance_ops(index))),
        s.armed is None ==> rx_hw(s.kicked(), index as int, regs.after_all(s.advance_ops(index))),
        forall|i: int|
            0 <= i < s.advance_ops(index).len() ==> !(#[trigger] s.advance_ops(index)[i] is IntFg),
{
    let ops = s.advance_ops(index);
    if s.free.len() > 0 {
        lemma_after_short(regs, ops[0], ops[1], ops[1]);
        assert(ops =~= seq![ops[0], ops[1]]);
    } else {
        lemma_after_short(regs, ops[0], ops[0], ops[0]);
        assert(ops =~= seq![ops[0]]);
    }
}

/// When a packet has come in, the registers are those of the next slot before the
/// transfer flag is cleared; clearing it is the last action and the only one of its
/// kind. Two packets received back to back expect opposite synchronisation states.
pub proof fn law_rx_received_registers_before_flag(
    s: RxState,
    len: u16,
    index: usize,
    pad: u32,
    regs: RegFile,
)
    requires
        s.ok(),
        1 <= index < EP_N,
        rx_hw(s, index as int, regs),
    ensures
        ({
            let ops = s.received_ops(index, pad);
            let before_flag = regs.after_all(ops.drop_last());
            let end = regs.after_all(ops);
            &&& ops.last() == HwOp::IntFg { value: TRANSFER_FLAG }
            &&& forall|i: int| 0 <= i < ops.len() - 1 ==> !(#[trigger] ops[i] is IntFg)
            &&& rx_hw(s.received(len), index as int, before_flag)
            &&& end == RegFile { transfer: false, ..before_flag }
            &&& s.armed is Some && s.received(len).armed is Some ==> regs.rx_ctrl[index as int]
                == ctrl_value(!s.tog, true, false) && end.rx_ctrl[index as int] == ctrl_value(
                s.tog,
                true,
                false,
            )
        }),
{
    let adv = s.advance_ops(index);
    let ops = s.received_ops(index, pad);
    assert(ops.drop_last() =~= adv + pad_ops(pad));
    lemma_advance_regs(s, index, regs);
    let mid = regs.after_all(adv);
    lemma_after_all_add(regs, adv, pad_ops(pad));
    let p = HwOp::Pad { ticks: pad };
    lemma_after_short(mid, p, p, p);
    assert(regs.after_all(ops.drop_last()) == mid);
    assert(2u8 & 2 == 2) by (bit_vector);
    assert(s.received(len).armed == s.advanced().armed);
    assert(s.received(len).addrs == s.advanced().addrs);
    assert forall|i: int| 0 <= i < ops.len() - 1 implies !(#[trigger] ops[i] is IntFg) by {
        if i < adv.len() {
            assert(ops[i] == adv[i]);
        } else {
            assert(ops[i] == pad_ops(pad)[i - adv.len()]);
        }
    }
}

/// Asking for a packet and giving a slot back keep the registers those of the armed
/// slot.
pub proof fn law_rx_reader_registers(s: RxState, slot: u8, index: usize, regs: RegFile)
    requires
        s.ok(),
        slot < RING,
        1 <= index < EP_N,
        rx_hw(s, index as int, regs),
    ensures
        rx_hw(s.polled(), index as int, regs.after_all(s.polled_ops(index))),
        rx_hw(s.released(slot), index as int, regs.after_all(s.released_ops(slot, index))),
{
    let p = HwOp::Pad { ticks: 0 };
    lemma_after_short(regs, p, p, p);
    if s.ready.len() == 0 && s.armed is None {
        lemma_advance_regs(s, index, regs);
    }
    if s.armed is None {
        let r = s.returned(slot);
        assert(slots_ok(r.free)) by {
            assert forall|i: int| 0 <= i < r.free.len() implies #[trigger] r.free[i] < RING by {
                if i < s.free.len() {
                    assert(s.free[i] < RING);
                }
            }
        }
        lemma_advance_regs(r, index, regs);
    }
}

/// A reader that found nothing is waiting on a listening endpoint whose next packet
/// wakes it, unless it holds every slot itself.
pub proof fn law_rx_waiting_reader_is_served(p: PipesState, index: usize, held: Multiset<u8>)
    requires
        p.ok(),
        1 <= index < EP_N,
        rx_owned(p.rx[index as int], held),
        p.rx[index as int].n != 0,
        p.rx[index as int].ready.len() == 0,
    ensures
        p.rx_polled(index).rx[index as int].armed is Some ==> p.rx_polled(index).out_wakes(index),
        p.rx_polled(index).rx[index as int].armed is None ==> held.len() == p.rx[index as int].n,
{
    law_rx_each_slot_in_one_place(p.rx[index as int], held);
}

/// The reader of an endpoint with a queue is woken exactly when the ready packets go
/// from none to one.
pub proof fn law_rx_wakes_on_first_packet(p: PipesState, index: usize, len: u16)
    requires
        p.ok(),
        1 <= index < EP_N,
        p.rx[index as int].n != 0,
    ensures
        p.out_wakes(index) <==> p.rx[index as int].ready.len() == 0 && p.after_out(
            index,
            len,
        ).rx[index as int].ready.len() == 1,
{
}

/// An idle endpoint, whether it ran out of free slots or was reset, starts with the
/// first slot that comes back.
pub proof fn law_rx_release_restarts(s: RxState, held: Multiset<u8>, slot: u8)
    requires
        rx_owned(s, held),
        held.count(slot) > 0,
        s.armed is None,
    ensures
        s.released(slot).armed is Some,
        !s.released(slot).stopped,
{
    law_rx_each_slot_in_one_place(s, held);
    assert(held.count(slot) > 0);
    lemma_push_bag(s.free, slot);
}

} // verus!
