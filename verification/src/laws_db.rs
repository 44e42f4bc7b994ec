//! Laws of a double-buffered IN pipe.

use vstd::multiset::Multiset;
use vstd::prelude::*;

use crate::hw::{ctrl_value, len_value, tx_dma_reg_op, HwOp, EP_N, TRANSFER_FLAG};
use crate::laws_tx::{tx_given_up, tx_handed_out, TxEvent, TxTrace};
use crate::regs::{answers_ack, answers_nak, lemma_after_all_add, lemma_after_short, RegFile};
use crate::ring::{slots_ok, RING};
use crate::slots::{
    full_bag, lemma_bag, lemma_full_bag, lemma_push_bag, lemma_skip_bag, opt_bag, opt_seq,
};
use crate::tx::TxState;

verus! {

/// All slots of a pipe, wherever they are: free, submitted, in one of the two blocks,
/// or `held` by the producer.
pub open spec fn db_slots(s: TxState, held: Multiset<u8>) -> Multiset<u8> {
    s.free.to_multiset().add(s.queue.to_multiset()).add(opt_bag(s.dbuf[0])).add(
        opt_bag(s.dbuf[1]),
    ).add(held)
}

/// The blocks are filled in the order of use, and nothing waits while one is empty.
pub open spec fn db_packed(s: TxState) -> bool {
    &&& s.dbuf[s.cur as int] is None ==> s.dbuf[s.other() as int] is None
    &&& s.dbuf[s.other() as int] is None ==> s.queue.len() == 0
}

/// A double-buffered pipe in order, while the producer holds `held`: each slot is in
/// one place, the blocks are packed, the armed slot is the one in the block used next,
/// and the endpoint answers NAK exactly while that block is empty.
pub open spec fn db_owned(s: TxState, held: Multiset<u8>) -> bool {
    &&& s.ok()
    &&& db_packed(s)
    &&& s.armed == s.dbuf[s.cur as int]
    &&& s.stopped == (s.armed is None)
    &&& db_slots(s, held) == full_bag(s.n)
}

/// In a pipe in order every slot below the depth is in exactly one place, no other slot
/// occurs anywhere, and no queue comes near its capacity.
pub proof fn law_db_each_slot_in_one_place(s: TxState, held: Multiset<u8>)
    requires
        db_owned(s, held),
    ensures
        forall|x: u8|
            #![trigger held.count(x)]
            s.free.to_multiset().count(x) + s.queue.to_multiset().count(x) + opt_bag(
                s.dbuf[0],
            ).count(x) + opt_bag(s.dbuf[1]).count(x) + held.count(x) == (if x < s.n {
                1nat
            } else {
                0nat
            }),
        s.free.len() + s.queue.len() + opt_seq(s.dbuf[0]).len() + opt_seq(s.dbuf[1]).len()
            + held.len() == s.n,
{
    lemma_full_bag(s.n);
    lemma_bag(s.free);
    lemma_bag(s.queue);
    assert forall|x: u8|
        #![trigger held.count(x)]
        s.free.to_multiset().count(x) + s.queue.to_multiset().count(x) + opt_bag(s.dbuf[0]).count(
            x,
        ) + opt_bag(s.dbuf[1]).count(x) + held.count(x) == (if x < s.n {
            1nat
        } else {
            0nat
        }) by {
        assert(db_slots(s, held).count(x) == full_bag(s.n).count(x));
    }
}

/// The packets under way, oldest first: those in the two blocks in the order of use,
/// then the submitted ones; each as slot and submitted length.
pub open spec fn db_packets(s: TxState) -> Seq<(u8, u16)> {
    (opt_seq(s.dbuf[s.cur as int]) + opt_seq(s.dbuf[s.other() as int]) + s.queue).map_values(
        |slot: u8| (slot, s.lens[slot as int]),
    )
}

/// A pipe that was just attached or reset is in order when the producer holds nothing.
/// A slot granted before the reset counts as free again; a buffer that is still held on
/// to from then is outside these laws, and handing it in would bring its slot in twice.
pub proof fn law_db_reset_is_in_order(s: TxState)
    requires
        s.ok(),
    ensures
        db_owned(s.refilled(), Multiset::empty()),
{
    let r = s.refilled();
    lemma_bag(r.queue);
    assert(r.queue.to_multiset() =~= Multiset::<u8>::empty());
    assert(db_slots(r, Multiset::empty()) =~= full_bag(r.n));
}

/// Filling one block moves a slot from the queue to the block.
proof fn lemma_block_filled(s: TxState, b: u8, held: Multiset<u8>)
    requires
        s.ok(),
        b < 2,
    ensures
        s.block_filled(b).ok(),
        db_slots(s.block_filled(b), held) == db_slots(s, held),
{
    let r = s.block_filled(b);
    if s.dbuf[b as int] is None && s.queue.len() > 0 {
        lemma_skip_bag(s.queue);
        assert(s.queue[0] < RING);
        assert(slots_ok(r.queue));
    }
    assert(db_slots(r, held) =~= db_slots(s, held));
}

/// Filling both blocks packs them and keeps the line of packets.
proof fn lemma_refilled(s: TxState, held: Multiset<u8>)
    requires
        s.ok(),
        s.dbuf[s.cur as int] is None ==> s.dbuf[s.other() as int] is None,
    ensures
        ({
            let r = s.refilled_db();
            &&& r.ok()
            &&& db_packed(r)
            &&& db_slots(r, held) == db_slots(s, held)
            &&& db_packets(r) == db_packets(s)
            &&& r.cur == s.cur
            &&& s.dbuf[s.cur as int] is Some ==> r.dbuf[r.cur as int] == s.dbuf[s.cur as int]
                && r.armed == s.armed && r.stopped == s.stopped
            &&& s.dbuf[s.cur as int] is None && s.queue.len() > 0 ==> r.dbuf[r.cur as int] is Some
                && r.armed == r.dbuf[r.cur as int] && !r.stopped
            &&& s.dbuf[s.cur as int] is None && s.queue.len() == 0 ==> r == s
        }),
{
    let m = s.block_filled(s.cur);
    lemma_block_filled(s, s.cur, held);
    lemma_block_filled(m, s.other(), held);
    let r = s.refilled_db();
    assert(db_packets(r) =~= db_packets(s));
    if s.dbuf[s.cur as int] is None && s.queue.len() == 0 {
        assert(r =~= s);
    }
}

/// Handing out a free slot keeps the pipe in order.
pub proof fn law_db_alloc_keeps_order(s: TxState, held: Multiset<u8>)
    requires
        db_owned(s, held),
        s.free.len() > 0,
    ensures
        db_owned(tx_handed_out(s), held.insert(s.free[0])),
        db_packets(tx_handed_out(s)) == db_packets(s),
{
    lemma_skip_bag(s.free);
    let r = tx_handed_out(s);
    assert(slots_ok(r.free));
    assert(db_slots(r, held.insert(s.free[0])) =~= db_slots(s, held));
    assert(db_packets(r) =~= db_packets(s));
}

/// Giving up a held slot keeps the pipe in order.
pub proof fn law_db_discard_keeps_order(s: TxState, held: Multiset<u8>, slot: u8)
    requires
        db_owned(s, held),
        held.count(slot) > 0,
    ensures
        db_owned(tx_given_up(s, slot), held.remove(slot)),
        db_packets(tx_given_up(s, slot)) == db_packets(s),
{
    law_db_each_slot_in_one_place(s, held);
    assert(held.count(slot) > 0);
    lemma_push_bag(s.free, slot);
    let r = tx_given_up(s, slot);
    assert(db_slots(r, held.remove(slot)) =~= db_slots(s, held));
    assert(db_packets(r) =~= db_packets(s));
}

/// A held slot is neither in a block nor in the queue.
proof fn lemma_held_is_elsewhere(s: TxState, held: Multiset<u8>, slot: u8)
    requires
        db_owned(s, held),
        held.count(slot) > 0,
    ensures
        slot < s.n,
        s.queue.len() < 8,
        s.dbuf[0] != Some(slot),
        s.dbuf[1] != Some(slot),
        !s.queue.contains(slot),
{
    law_db_each_slot_in_one_place(s, held);
    assert(held.count(slot) > 0);
    lemma_bag(s.queue);
    assert(held.count(slot) <= held.len());
}

/// Submitting a held slot keeps the pipe in order and puts the packet at the end of
/// the line.
pub proof fn law_db_submit_keeps_order(s: TxState, held: Multiset<u8>, slot: u8, len: u16)
    requires
        db_owned(s, held),
        held.count(slot) > 0,
    ensures
        db_owned(s.submitted(slot, len, true), held.remove(slot)),
        db_packets(s.submitted(slot, len, true)) == db_packets(s).push((slot, len)),
{
    lemma_held_is_elsewhere(s, held, slot);
    lemma_push_bag(s.queue, slot);
    let q = s.queued(slot, len);
    assert(q.ok());
    assert(db_slots(q, held.remove(slot)) =~= db_slots(s, held));
    assert forall|i: int| 0 <= i < s.queue.len() implies s.queue[i] != slot by {
        assert(s.queue.contains(s.queue[i]));
    }
    assert(db_packets(q) =~= db_packets(s).push((slot, len)));
    lemma_refilled(q, held.remove(slot));
    let r = q.refilled_db();
    assert(db_slots(q.kicked_db(), held.remove(slot)) =~= db_slots(r, held.remove(slot)));
    assert(db_packets(q.kicked_db()) =~= db_packets(r));
}

/// A packet that goes out keeps the pipe in order and leaves the line at the front; its
/// slot is the last to be handed out again.
pub proof fn law_db_sent_keeps_order(s: TxState, held: Multiset<u8>)
    requires
        db_owned(s, held),
    ensures
        db_owned(s.sent_db(), held),
        s.armed is Some ==> db_packets(s.sent_db()) == db_packets(s).skip(1),
        s.armed matches Some(slot) ==> s.sent_db().free == s.free.push(slot),
        s.armed is None ==> db_packets(s.sent_db()) == db_packets(s),
{
    law_db_each_slot_in_one_place(s, held);
    match s.armed {
        Some(done) => {
            lemma_push_bag(s.free, done);
        },
        None => {},
    }
    let m = s.returned_db();
    assert(m.ok());
    assert(db_slots(m, held) =~= db_slots(s, held));
    assert(s.armed is Some ==> db_packets(m) =~= db_packets(s).skip(1));
    assert(s.armed is None ==> db_packets(m) =~= db_packets(s));
    lemma_refilled(m, held);
    let r = m.refilled_db();
    assert(db_slots(s.sent_db(), held) =~= db_slots(r, held));
    assert(db_packets(s.sent_db()) =~= db_packets(r));
}

/// One event on a double-buffered pipe.
pub open spec fn db_step(t: TxTrace, e: TxEvent) -> TxTrace {
    match e {
        TxEvent::Alloc => if t.s.free.len() > 0 {
            TxTrace { s: tx_handed_out(t.s), held: t.held.insert(t.s.free[0]), ..t }
        } else {
            t
        },
        TxEvent::Submit(slot, len) => if t.held.count(slot) > 0 {
            TxTrace {
                s: t.s.submitted(slot, len, true),
                held: t.held.remove(slot),
                submitted: t.submitted.push((slot, len)),
                ..t
            }
        } else {
            t
        },
        TxEvent::Discard(slot) => if t.held.count(slot) > 0 {
            TxTrace { s: tx_given_up(t.s, slot), held: t.held.remove(slot), ..t }
        } else {
            t
        },
        TxEvent::Sent => TxTrace {
            s: t.s.sent_db(),
            sent: match t.s.armed {
                Some(slot) => t.sent.push((slot, t.s.lens[slot as int])),
                None => t.sent,
            },
            ..t
        },
    }
}

/// A run of events on a double-buffered pipe.
pub open spec fn db_run(t: TxTrace, events: Seq<TxEvent>) -> TxTrace
    decreases events.len(),
{
    if events.len() == 0 {
        t
    } else {
        db_step(db_run(t, events.drop_last()), events.last())
    }
}

/// Whatever the producer, who holds no buffer from before, and the peripheral do after a
/// reset: the pipe stays in order, and the slots sent followed by those under way are the
/// submitted slots, in the order of submission.
pub proof fn law_db_sends_in_order(s: TxState, events: Seq<TxEvent>)
    requires
        s.ok(),
    ensures
        ({
            let t = db_run(
                TxTrace {
                    s: s.refilled(),
                    held: Multiset::empty(),
                    submitted: Seq::empty(),
                    sent: Seq::empty(),
                },
                events,
            );
            db_owned(t.s, t.held) && t.submitted == t.sent + db_packets(t.s)
        }),
    decreases events.len(),
{
    let start = TxTrace {
        s: s.refilled(),
        held: Multiset::empty(),
        submitted: Seq::empty(),
        sent: Seq::empty(),
    };
    if events.len() == 0 {
        law_db_reset_is_in_order(s);
        assert(start.submitted =~= start.sent + db_packets(start.s));
    } else {
        law_db_sends_in_order(s, events.drop_last());
        let t = db_run(start, events.drop_last());
        let r = db_step(t, events.last());
        match events.last() {
            TxEvent::Alloc => {
                if t.s.free.len() > 0 {
                    law_db_alloc_keeps_order(t.s, t.held);
                }
            },
            TxEvent::Submit(slot, len) => {
                if t.held.count(slot) > 0 {
                    law_db_submit_keeps_order(t.s, t.held, slot, len);
                    assert(r.submitted =~= r.sent + db_packets(r.s));
                }
            },
            TxEvent::Discard(slot) => {
                if t.held.count(slot) > 0 {
                    law_db_discard_keeps_order(t.s, t.held, slot);
                }
            },
            TxEvent::Sent => {
                law_db_sent_keeps_order(t.s, t.held);
                match t.s.armed {
                    Some(slot) => {
                        assert(db_packets(t.s)[0] == (slot, t.s.lens[slot as int]));
                        assert(r.submitted =~= r.sent + db_packets(r.s));
                    },
                    None => {},
                }
            },
        }
    }
}

/// Each filled block has the address of its slot in its DMA register: block 0 in the
/// transmit register, block 1 in the receive register.
pub open spec fn db_blocks_hw(s: TxState, index: int, regs: RegFile) -> bool {
    &&& s.dbuf[0] matches Some(slot) ==> regs.tx_dma[index - 1] == s.addrs[slot as int]
    &&& s.dbuf[1] matches Some(slot) ==> regs.rx_dma[index - 1] == s.addrs[slot as int]
}

/// The registers of endpoint `index` are those of the filled blocks, and the endpoint
/// answers ACK exactly while the block used next is filled.
pub open spec fn db_hw(s: TxState, index: int, regs: RegFile) -> bool {
    &&& db_blocks_hw(s, index, regs)
    &&& s.dbuf[s.cur as int] is Some ==> answers_ack(regs.tx_ctrl[index])
    &&& s.dbuf[s.cur as int] is None ==> answers_nak(regs.tx_ctrl[index])
}

/// The length register holds the remembered length, and that is the length of the
/// packet in the block used next.
pub open spec fn db_len_hw(s: TxState, index: int, regs: RegFile) -> bool {
    &&& regs.t_len[index] == len_value(s.tlen)
    &&& s.dbuf[s.cur as int] matches Some(slot) ==> s.tlen == s.lens[slot as int]
}

/// What the writes for one block do.
proof fn lemma_block_regs(s: TxState, b: u8, index: usize, auto_tog: bool, regs: RegFile)
    requires
        s.ok(),
        b < 2,
        1 <= index < EP_N,
        db_blocks_hw(s, index as int, regs),
    ensures
        ({
            let r = s.block_filled(b);
            let end = regs.after_all(s.block_filled_ops(b, index, auto_tog));
            let filled = s.dbuf[b as int] is None && s.queue.len() > 0;
            &&& db_blocks_hw(r, index as int, end)
            &&& !filled ==> end == regs
            &&& !(filled && b == s.cur) ==> end.tx_ctrl == regs.tx_ctrl && end.t_len == regs.t_len
            &&& filled && b == s.cur && s.stopped ==> answers_ack(end.tx_ctrl[index as int])
            &&& !s.stopped ==> end.tx_ctrl == regs.tx_ctrl
            &&& filled && b == s.cur && regs.t_len[index as int] == len_value(s.tlen)
                ==> end.t_len[index as int] == len_value(r.tlen)
        }),
{
    let ops = s.block_filled_ops(b, index, auto_tog);
    let r = s.block_filled(b);
    if s.dbuf[b as int] is None && s.queue.len() > 0 {
        let slot = s.queue[0] as int;
        assert(s.queue[0] < RING);
        let a = tx_dma_reg_op(index, b, s.addrs[slot]);
        let l = HwOp::TLen { ep: index, value: len_value(s.lens[slot]) };
        let g = HwOp::TxCtrl { ep: index, value: ctrl_value(s.cur == 1, true, auto_tog) };
        lemma_after_short(regs, a, l, g);
        lemma_after_short(regs, a, g, g);
        if b != s.cur {
            assert(ops =~= seq![a]);
        } else if s.tlen != s.lens[slot] && s.stopped {
            assert(ops =~= seq![a, l, g]);
        } else if s.tlen != s.lens[slot] {
            assert(ops =~= seq![a, l]);
        } else if s.stopped {
            assert(ops =~= seq![a, g]);
        } else {
            assert(ops =~= seq![a]);
        }
    } else {
        assert(r == s);
        assert(ops =~= Seq::<HwOp>::empty());
        assert(regs.after_all(ops) == regs);
    }
}

/// What the writes for both blocks do.
proof fn lemma_refill_regs(s: TxState, index: usize, auto_tog: bool, regs: RegFile)
    requires
        s.ok(),
        1 <= index < EP_N,
        db_blocks_hw(s, index as int, regs),
        s.dbuf[s.cur as int] is None ==> s.dbuf[s.other() as int] is None && s.stopped,
        s.dbuf[s.cur as int] is Some ==> answers_ack(regs.tx_ctrl[index as int]) && !s.stopped,
        s.dbuf[s.cur as int] is None ==> answers_nak(regs.tx_ctrl[index as int]),
    ensures
        ({
            let end = regs.after_all(s.refilled_db_ops(index, auto_tog));
            &&& db_hw(s.refilled_db(), index as int, end)
            &&& db_len_hw(s, index as int, regs) ==> db_len_hw(
                s.refilled_db(),
                index as int,
                end,
            )
        }),
{
    let m = s.block_filled(s.cur);
    let first = s.block_filled_ops(s.cur, index, auto_tog);
    let second = m.block_filled_ops(s.other(), index, auto_tog);
    lemma_block_filled(s, s.cur, Multiset::empty());
    lemma_block_regs(s, s.cur, index, auto_tog, regs);
    lemma_block_regs(m, s.other(), index, auto_tog, regs.after_all(first));
    lemma_after_all_add(regs, first, second);
    assert(m.cur == s.cur);
}

/// What the writes around the flag do when a packet has gone out: those before it, and
/// all of them.
pub proof fn lemma_sent_regs(
    s: TxState,
    held: Multiset<u8>,
    index: usize,
    auto_tog: bool,
    regs: RegFile,
)
    requires
        db_owned(s, held),
        1 <= index < EP_N,
        db_hw(s, index as int, regs),
    ensures
        ({
            let before = regs.after_all(s.switched_db_ops(index, auto_tog));
            let end = regs.after_all(s.sent_db_ops(index, auto_tog));
            &&& db_hw(s.switched_db(), index as int, before)
            &&& db_hw(s.sent_db(), index as int, end)
            &&& db_len_hw(s, index as int, regs) ==> db_len_hw(
                s.switched_db(),
                index as int,
                before,
            ) && db_len_hw(s.sent_db(), index as int, end)
        }),
{
    let ops = s.switched_db_ops(index, auto_tog);
    let flag_op = HwOp::IntFg { value: TRANSFER_FLAG };
    let m = s.returned_db();
    let after = m.refilled_db_ops(index, auto_tog);
    let len = HwOp::TLen { ep: index, value: len_value(s.switched_db().tlen) };
    let go = HwOp::TxCtrl {
        ep: index,
        value: ctrl_value(s.other() == 1, s.dbuf[s.other() as int] is Some, auto_tog),
    };
    lemma_after_short(regs, len, go, go);
    lemma_after_short(regs, go, go, go);
    if ops.len() == 2 {
        assert(ops =~= seq![len, go]);
    } else if ops.len() == 0 {
        assert(ops =~= Seq::<HwOp>::empty());
    } else if s.switched_db().tlen != s.tlen {
        assert(ops =~= seq![len]);
    } else {
        assert(ops =~= seq![go]);
    }
    let before = regs.after_all(ops);
    lemma_after_short(before, flag_op, flag_op, flag_op);
    lemma_after_all_add(regs, ops, seq![flag_op]);
    lemma_after_all_add(regs, ops + seq![flag_op], after);
    law_db_each_slot_in_one_place(s, held);
    match s.armed {
        Some(done) => {
            lemma_push_bag(s.free, done);
        },
        None => {},
    }
    assert(m.ok());
    lemma_refill_regs(m, index, auto_tog, before.after(flag_op));
    lemma_refilled(m, held);
}

/// When a packet has gone out, the registers are those of the packet in the other block
/// before the transfer flag is cleared, its length among them; if that block is empty,
/// the endpoint answers NAK by then. With the automatic flip, nothing need be written
/// for a packet as long as the one before. What follows the flag refills the blocks, and
/// while the other block is filled it writes the address register of the emptied block
/// and nothing else.
pub proof fn law_db_sent_registers_before_flag(
    s: TxState,
    held: Multiset<u8>,
    index: usize,
    auto_tog: bool,
    regs: RegFile,
)
    requires
        db_owned(s, held),
        1 <= index < EP_N,
        db_hw(s, index as int, regs),
    ensures
        ({
            let before = s.switched_db_ops(index, auto_tog);
            let flag_op = HwOp::IntFg { value: TRANSFER_FLAG };
            let after = s.returned_db().refilled_db_ops(index, auto_tog);
            let at_flag = regs.after_all(before);
            &&& s.sent_db_ops(index, auto_tog) == before + seq![flag_op] + after
            &&& db_hw(s.switched_db(), index as int, at_flag)
            &&& db_len_hw(s, index as int, regs) ==> db_len_hw(
                s.switched_db(),
                index as int,
                at_flag,
            )
            &&& db_hw(
                s.sent_db(),
                index as int,
                regs.after_all(s.sent_db_ops(index, auto_tog)),
            )
            &&& s.dbuf[s.other() as int] is Some && auto_tog && s.switched_db().tlen == s.tlen
                ==> before.len() == 0
            &&& s.dbuf[s.other() as int] is Some ==> forall|i: int|
                0 <= i < after.len() ==> exists|addr: u32|
                    #[trigger] after[i] == tx_dma_reg_op(index, s.cur, addr)
        }),
{
    let m = s.returned_db();
    let after = m.refilled_db_ops(index, auto_tog);
    lemma_sent_regs(s, held, index, auto_tog, regs);
    if s.dbuf[s.other() as int] is Some {
        let first = m.block_filled_ops(m.cur, index, auto_tog);
        assert(first =~= Seq::<HwOp>::empty());
        assert(m.block_filled(m.cur) == m);
        if m.queue.len() > 0 {
            let addr = m.addrs[m.queue[0] as int];
            assert(after =~= seq![tx_dma_reg_op(index, s.cur, addr)]);
            assert(after[0] == tx_dma_reg_op(index, s.cur, addr));
        } else {
            assert(after =~= Seq::<HwOp>::empty());
        }
    }
}

/// Submitting keeps the registers those of the filled blocks, and the length register
/// that of the packet in the block used next.
pub proof fn law_db_submit_registers(
    s: TxState,
    held: Multiset<u8>,
    slot: u8,
    len: u16,
    index: usize,
    auto_tog: bool,
    regs: RegFile,
)
    requires
        db_owned(s, held),
        held.count(slot) > 0,
        1 <= index < EP_N,
        db_hw(s, index as int, regs),
    ensures
        ({
            let r = s.submitted(slot, len, true);
            let end = regs.after_all(s.submitted_ops(slot, len, index, true, auto_tog));
            &&& db_hw(r, index as int, end)
            &&& db_len_hw(s, index as int, regs) ==> db_len_hw(r, index as int, end)
        }),
{
    lemma_held_is_elsewhere(s, held, slot);
    lemma_push_bag(s.queue, slot);
    let q = s.queued(slot, len);
    assert(q.ok());
    let none = HwOp::Pad { ticks: 0 };
    lemma_after_short(regs, none, none, none);
    if q.needs_kick() {
        lemma_refill_regs(q, index, auto_tog, regs);
        lemma_refilled(q, held);
        let ops = q.refilled_db_ops(index, auto_tog);
        assert(q.kicked_db_ops(index, auto_tog) =~= ops);
    }
}

/// A packet that goes out leaves the length register that of the packet in the block
/// used next, whatever the lengths of the packets under way.
pub proof fn law_db_sent_keeps_length(
    s: TxState,
    held: Multiset<u8>,
    index: usize,
    auto_tog: bool,
    regs: RegFile,
)
    requires
        db_owned(s, held),
        1 <= index < EP_N,
        db_hw(s, index as int, regs),
        db_len_hw(s, index as int, regs),
    ensures
        db_len_hw(
            s.sent_db(),
            index as int,
            regs.after_all(s.sent_db_ops(index, auto_tog)),
        ),
{
    lemma_sent_regs(s, held, index, auto_tog, regs);
}

/// The first packet on an idle endpoint puts the length register right whatever it
/// holds, unless the packet is as long as the remembered length; after a reset that is
/// an empty packet.
pub proof fn law_db_first_submit_sets_length(
    s: TxState,
    held: Multiset<u8>,
    slot: u8,
    len: u16,
    index: usize,
    auto_tog: bool,
    regs: RegFile,
)
    requires
        db_owned(s, held),
        held.count(slot) > 0,
        s.armed is None,
        len != s.tlen,
        1 <= index < EP_N,
    ensures
        db_len_hw(
            s.submitted(slot, len, true),
            index as int,
            regs.after_all(s.submitted_ops(slot, len, index, true, auto_tog)),
        ),
{
    lemma_held_is_elsewhere(s, held, slot);
    let q = s.queued(slot, len);
    let a = tx_dma_reg_op(index, s.cur, s.addrs[slot as int]);
    let l = HwOp::TLen { ep: index, value: len_value(len) };
    let g = HwOp::TxCtrl { ep: index, value: ctrl_value(s.cur == 1, true, auto_tog) };
    lemma_after_short(regs, a, l, g);
    assert(s.submitted_ops(slot, len, index, true, auto_tog) =~= seq![a, l, g]);
}

} // verus!
