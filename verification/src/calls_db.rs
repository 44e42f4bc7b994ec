//! Laws over single calls on a double-buffered IN pipe.

use vstd::multiset::Multiset;
use vstd::prelude::*;

use crate::calls::{
    appended, counts_kept, grew, lemma_appended, lemma_others_untouched, on_endpoint, one_up,
    only_in_side, others_untouched, settings_kept,
};
use crate::hw::{ctrl_value, len_value, HwOp};
use crate::laws_db::{
    db_hw, db_len_hw, db_owned, db_packets, law_db_each_slot_in_one_place, law_db_sent_keeps_order,
    law_db_submit_keeps_order, law_db_submit_registers, lemma_sent_regs,
};
use crate::pipe::{on_in, Counters, Pipes, TxBuf, TxPipe};
use crate::regs::{answers_ack, answers_nak, lemma_after_all_add, lemma_after_short, RegFile};
use crate::slots::lemma_push_bag;
use crate::tx::TxState;

verus! {

/// The action belongs to a double-buffered IN endpoint, which has both address registers.
pub open spec fn db_action(op: HwOp, index: int) -> bool {
    on_endpoint(op, index) && (op is TxDma || op is RxDma || op is TLen || op is TxCtrl
        || op is IntFg)
}

/// The packet in block `b` can go out from these registers: its address is in the register
/// of that block (transmit for block 0, receive for block 1), its length in the length
/// register, and the endpoint answers ACK. With the block empty it answers NAK.
pub open spec fn block_ready(s: TxState, b: int, index: int, regs: RegFile) -> bool {
    match s.dbuf[b] {
        Some(slot) => {
            &&& b == 0 ==> regs.tx_dma[index - 1] == s.addrs[slot as int]
            &&& b == 1 ==> regs.rx_dma[index - 1] == s.addrs[slot as int]
            &&& regs.t_len[index] == len_value(s.lens[slot as int])
            &&& answers_ack(regs.tx_ctrl[index])
        },
        None => answers_nak(regs.tx_ctrl[index]),
    }
}

/// When a double-buffered IN packet has gone out: it leaves the line at the front and its
/// slot goes to the end of the free ones. The packet in the other block can go out before
/// the flag is cleared, at the position `k` of the actions, and is not written for at all
/// where the peripheral flips by itself and the length stays the same. If the other block
/// is empty, the endpoint answers NAK by then, and that counts as dry. Every control word
/// has the synchronisation state of the block used next. The blocks are refilled after the
/// flag. Nothing else changes, and the producer is woken once half of the slots are free.
#[verifier::rlimit(60)]
#[verifier::spinoff_prover]
pub proof fn law_on_in_db(
    p: &mut Pipes,
    index: usize,
    log: &mut Vec<HwOp>,
    wake: bool,
    held: Multiset<u8>,
    regs: RegFile,
) -> (k: int)
    requires
        old(p).wf(),
        1 <= index < 16,
        old(p)@.switches.dbuf_tx,
        old(p)@.tx[index as int].n != 0,
        db_owned(old(p)@.tx[index as int], held),
        db_hw(old(p)@.tx[index as int], index as int, regs),
        db_len_hw(old(p)@.tx[index as int], index as int, regs),
        call_ensures(on_in, (p, index, log), wake),
    ensures
        grew(old(log)@, final(log)@),
        settings_kept(old(p)@, final(p)@),
        only_in_side(old(p)@, final(p)@, index as int),
        one_up(old(p)@.evt_tx, final(p)@.evt_tx),
        final(p)@.evt_rx == old(p)@.evt_rx,
        ({
            let s = old(p)@.tx[index as int];
            let q = final(p)@.tx[index as int];
            let auto_tog = old(p)@.switches.dbuf_tx_auto_tog;
            let ops = appended(old(log)@, final(log)@);
            let next = s.dbuf[1 - s.cur];
            let dry = next is None && (!auto_tog || !s.stopped);
            let at_flag = regs.after_all(ops.take(k));
            let end = regs.after_all(ops);
            &&& db_owned(q, held)
            &&& q.lens == s.lens && q.tog == s.tog
            &&& q.cur == 1 - s.cur
            &&& s.armed is Some ==> db_packets(q) == db_packets(s).skip(1) && q.free
                == s.free.push(db_packets(s)[0].0)
            &&& s.armed is None ==> db_packets(q) == db_packets(s) && q.free == s.free
            &&& 0 <= k < ops.len() && ops[k] == HwOp::IntFg { value: 2 }
            &&& forall|i: int|
                0 <= i < ops.len() ==> db_action(#[trigger] ops[i], index as int) && (
                ops[i] is IntFg ==> i == k)
            &&& block_ready(s, 1 - s.cur, index as int, at_flag)
            &&& auto_tog && (next matches Some(x) ==> s.lens[x as int] == s.tlen) && !dry ==> k == 0
            &&& forall|i: int|
                0 <= i < ops.len() ==> (#[trigger] ops[i] is TxCtrl ==> ops[i] == HwOp::TxCtrl {
                    ep: index,
                    value: ctrl_value(q.cur == 1, i > k || next is Some, auto_tog),
                })
            &&& !auto_tog ==> at_flag.tx_ctrl[index as int] == ctrl_value(
                q.cur == 1,
                next is Some,
                false,
            )
            &&& db_hw(q, index as int, end)
            &&& db_len_hw(q, index as int, end)
            &&& others_untouched(regs, end, index as int)
            &&& !end.transfer
            &&& wake == (2 * q.free.len() + 1 >= q.n && q.free.len() > 0)
            &&& if dry {
                one_up(old(p)@.counters.dry_tx, final(p)@.counters.dry_tx)
            } else {
                final(p)@.counters.dry_tx == old(p)@.counters.dry_tx
            }
            &&& final(p)@.counters == (Counters {
                dry_tx: final(p)@.counters.dry_tx,
                ..old(p)@.counters
            })
        }),
{
    let s = old(p)@.tx[index as int];
    let q = final(p)@.tx[index as int];
    let auto_tog = old(p)@.switches.dbuf_tx_auto_tog;
    let before = s.switched_db_ops(index, auto_tog);
    let flag_op = HwOp::IntFg { value: 2 };
    let m = s.returned_db();
    let after = m.refilled_db_ops(index, auto_tog);
    let ops = s.sent_db_ops(index, auto_tog);
    let k = before.len() as int;
    lemma_appended(old(log)@, ops);
    assert(q == s.sent_db());
    law_db_sent_keeps_order(s, held);
    lemma_sent_regs(s, held, index, auto_tog, regs);
    assert(ops.take(k) =~= before);
    assert(ops[k] == flag_op);
    let at_flag = regs.after_all(before);
    lemma_after_short(at_flag, flag_op, flag_op, flag_op);
    lemma_after_all_add(regs, before, seq![flag_op]);
    lemma_after_all_add(regs, before + seq![flag_op], after);
    assert(2u8 & 2 == 2) by (bit_vector);
    assert forall|i: int| 0 <= i < after.len() implies db_action(#[trigger] after[i], index as int)
        && !(after[i] is IntFg) && (after[i] is TxCtrl ==> after[i] == HwOp::TxCtrl {
        ep: index,
        value: ctrl_value(q.cur == 1, true, auto_tog),
    }) by {
        let first = m.block_filled_ops(m.cur, index, auto_tog);
        if i < first.len() {
            assert(after[i] == first[i]);
        } else {
            assert(after[i] == m.block_filled(m.cur).block_filled_ops(
                m.other(),
                index,
                auto_tog,
            )[i - first.len()]);
        }
    }
    assert forall|i: int| 0 <= i < ops.len() implies db_action(#[trigger] ops[i], index as int) && (
    ops[i] is IntFg ==> i == k) && (ops[i] is TxCtrl ==> ops[i] == HwOp::TxCtrl {
        ep: index,
        value: ctrl_value(q.cur == 1, i > k || s.dbuf[1 - s.cur] is Some, auto_tog),
    }) by {
        if i < k {
            assert(ops[i] == before[i]);
        } else if i > k {
            assert(ops[i] == after[i - k - 1]);
        }
    }
    lemma_others_untouched(regs, ops, index as int);
    let go = HwOp::TxCtrl {
        ep: index,
        value: ctrl_value(s.other() == 1, s.dbuf[s.other() as int] is Some, auto_tog),
    };
    let len = HwOp::TLen { ep: index, value: len_value(s.switched_db().tlen) };
    lemma_after_short(regs, len, go, go);
    lemma_after_short(regs, go, go, go);
    if !auto_tog {
        if s.switched_db().tlen != s.tlen {
            assert(before =~= seq![len, go]);
        } else {
            assert(before =~= seq![go]);
        }
    }
    lemma_flag_cleared(at_flag.after(flag_op), after);
    k
}

/// Actions cannot set the transfer flag.
proof fn lemma_flag_cleared(regs: RegFile, ops: Seq<HwOp>)
    requires
        !regs.transfer,
    ensures
        !regs.after_all(ops).transfer,
    decreases ops.len(),
{
    if ops.len() > 0 {
        lemma_flag_cleared(regs, ops.drop_last());
    }
}

/// Submitting a slot to a double-buffered IN pipe puts it at the end of the line with its
/// length, and leaves its bytes where they were written. Blocks that are empty are filled
/// from the line, the one used next first; an idle endpoint starts once that block has its
/// address and length, with the synchronisation state of the block.
#[verifier::rlimit(60)]
#[verifier::spinoff_prover]
pub proof fn law_submit_db(
    t: &TxPipe,
    p: &mut Pipes,
    buf: TxBuf<'_>,
    len: u16,
    log: &mut Vec<HwOp>,
    held: Multiset<u8>,
    regs: RegFile,
)
    requires
        old(p).wf(),
        1 <= t.index < 16,
        buf.wf(),
        old(p)@.switches.dbuf_tx,
        db_owned(old(p)@.tx[t.index as int], held),
        held.count(buf.spec_slot()) > 0,
        db_hw(old(p)@.tx[t.index as int], t.index as int, regs),
        db_len_hw(old(p)@.tx[t.index as int], t.index as int, regs),
        call_ensures(TxPipe::submit, (t, p, buf, len, log), ()),
    ensures
        grew(old(log)@, final(log)@),
        settings_kept(old(p)@, final(p)@),
        counts_kept(old(p)@, final(p)@),
        only_in_side(old(p)@, final(p)@, t.index as int),
        final(buf.data)@ == buf.bytes(),
        ({
            let index = t.index as int;
            let slot = buf.spec_slot();
            let auto_tog = old(p)@.switches.dbuf_tx_auto_tog;
            let s = old(p)@.tx[index];
            let q = final(p)@.tx[index];
            let ops = appended(old(log)@, final(log)@);
            let end = regs.after_all(ops);
            &&& db_owned(q, held.remove(slot))
            &&& db_packets(q) == db_packets(s).push((slot, len))
            &&& q.lens == s.lens.update(slot as int, len)
            &&& q.free == s.free && q.cur == s.cur && q.tog == s.tog
            &&& q.armed is Some
            &&& s.armed is Some ==> q.armed == s.armed && q.tlen == s.tlen
            &&& db_hw(q, index, end)
            &&& db_len_hw(q, index, end)
            &&& block_ready(q, q.cur as int, index, end)
            &&& s.armed is None ==> end.tx_ctrl[index] == ctrl_value(q.cur == 1, true, auto_tog)
            &&& forall|i: int|
                0 <= i < ops.len() ==> db_action(#[trigger] ops[i], index) && !(ops[i] is IntFg)
                    && (ops[i] is TxCtrl ==> s.armed is None && i == ops.len() - 1)
            &&& others_untouched(regs, end, index)
        }),
{
    let index = t.index as int;
    let slot = buf.spec_slot();
    let auto_tog = old(p)@.switches.dbuf_tx_auto_tog;
    let s = old(p)@.tx[index];
    let q = final(p)@.tx[index];
    let m = s.queued(slot, len);
    let ops = s.submitted_ops(slot, len, t.index, true, auto_tog);
    lemma_appended(old(log)@, ops);
    assert(q == s.submitted(slot, len, true));
    law_db_submit_keeps_order(s, held, slot, len);
    law_db_submit_registers(s, held, slot, len, t.index, auto_tog, regs);
    law_db_each_slot_in_one_place(s, held);
    assert(held.count(slot) > 0);
    lemma_push_bag(s.queue, slot);
    if m.needs_kick() {
        let first = m.block_filled_ops(m.cur, t.index, auto_tog);
        let m1 = m.block_filled(m.cur);
        let second = m1.block_filled_ops(m.other(), t.index, auto_tog);
        assert(ops =~= first + second);
        if s.armed is None {
            assert(m.queue =~= seq![slot]);
            assert(m1.queue =~= Seq::<u8>::empty());
            assert(second =~= Seq::<HwOp>::empty());
            let go = HwOp::TxCtrl { ep: t.index, value: ctrl_value(q.cur == 1, true, auto_tog) };
            assert(ops.last() == go);
            lemma_after_all_add(regs, ops.drop_last(), seq![go]);
            assert(ops =~= ops.drop_last() + seq![go]);
            lemma_after_short(regs.after_all(ops.drop_last()), go, go, go);
        } else {
            assert(first =~= Seq::<HwOp>::empty());
            assert(m1 == m);
        }
    } else {
        assert(ops =~= Seq::<HwOp>::empty());
    }
    lemma_others_untouched(regs, ops, index);
}

} // verus!
