//! Laws of the registry, the control registers, the probe and the single-buffer path.

use vstd::multiset::Multiset;
use vstd::prelude::*;

use crate::bufmap::{at_data0, start_ops, stop_ops};
use crate::endpoint::{done_token, transfer_done, Endpoint};
use crate::hw::{ctrl_changed, ctrl_value, CtrlChange, HwOp, EP_N, TRANSFER_FLAG};
use crate::laws_db::{db_owned, law_db_reset_is_in_order};
use crate::laws_rx::{law_rx_reset_is_in_order, rx_owned};
use crate::laws_tx::{law_tx_reset_is_in_order, tx_owned};
use crate::pipe::{pool_addrs, PipesState};
use crate::regs::{answers_nak, lemma_after_all_add, lemma_after_short, RegFile};
use crate::rx::RxState;
use crate::tx::{all_slots, TxState};

verus! {

/// A freshly attached queue is in order with every slot free, on the addresses it was
/// given, in either buffer mode.
pub proof fn law_attached_pipe_is_in_order(p: PipesState, index: usize, slots: Seq<u32>)
    requires
        p.ok(),
        p.attachable(index, slots.len()),
    ensures
        ({
            let s = p.tx_attached(index, slots).tx[index as int];
            &&& tx_owned(s, Multiset::empty())
            &&& db_owned(s, Multiset::empty())
            &&& s.free.len() == slots.len()
            &&& forall|i: int| 0 <= i < slots.len() ==> s.addrs[i] == slots[i]
        }),
        ({
            let s = p.rx_attached(index, slots).rx[index as int];
            &&& rx_owned(s, Multiset::empty())
            &&& s.free.len() == slots.len()
            &&& forall|i: int| 0 <= i < slots.len() ==> s.addrs[i] == slots[i]
        }),
{
    let t = TxState { addrs: pool_addrs(slots), n: slots.len() as u8, ..TxState::detached() };
    let r = RxState { addrs: pool_addrs(slots), n: slots.len() as u8, ..RxState::detached() };
    assert(t.ok());
    assert(r.ok());
    law_tx_reset_is_in_order(t);
    law_db_reset_is_in_order(t);
    law_rx_reset_is_in_order(r);
}

/// Resetting an endpoint that has been reset changes nothing, and resetting all
/// endpoints does what resetting each of them does.
pub proof fn law_reset_is_idempotent(p: PipesState, index: usize)
    requires
        p.ok(),
    ensures
        p.reset(index).reset(index) == p.reset(index),
        p.reset_all().reset_all() == p.reset_all(),
        p.reset_all().reset(index) == p.reset_all(),
        index < EP_N ==> p.reset_all().tx[index as int] == p.reset(index).tx[index as int]
            && p.reset_all().rx[index as int] == p.reset(index).rx[index as int],
{
    assert(p.reset(index).reset(index) =~= p.reset(index));
    assert(p.reset_all().reset_all() =~= p.reset_all());
    assert(p.reset_all().reset(index) =~= p.reset_all());
}

/// After all endpoints are reset, every one with memory has its slots back and is idle,
/// and every other one is as it was.
pub proof fn law_reset_all_makes_idle(p: PipesState, i: int)
    requires
        p.ok(),
        0 <= i < EP_N,
    ensures
        ({
            let s = p.reset_all().tx[i];
            if p.tx[i].n == 0 {
                s == p.tx[i]
            } else {
                s.armed is None && s.queue.len() == 0 && s.free == all_slots(s.n)
            }
        }),
        ({
            let s = p.reset_all().rx[i];
            if p.rx[i].n == 0 {
                s == p.rx[i]
            } else {
                s.armed is None && s.ready.len() == 0 && s.free == all_slots(s.n)
            }
        }),
{
}

/// Whatever happens on one side of an endpoint leaves the other side and all other
/// endpoints as they were.
pub proof fn law_endpoints_are_independent(
    p: PipesState,
    i: usize,
    j: int,
    slot: u8,
    len: u16,
)
    requires
        p.ok(),
        i < EP_N,
        0 <= j < EP_N,
    ensures
        p.after_in(i).rx == p.rx,
        p.tx_allocated(i).rx == p.rx,
        p.tx_submitted(i, slot, len).rx == p.rx,
        p.tx_discarded(i, slot).rx == p.rx,
        p.after_out(i, len).tx == p.tx,
        p.rx_polled(i).tx == p.tx,
        p.rx_released(i, slot).tx == p.tx,
        j != i ==> p.after_in(i).tx[j] == p.tx[j] && p.tx_allocated(i).tx[j] == p.tx[j]
            && p.tx_submitted(i, slot, len).tx[j] == p.tx[j] && p.tx_discarded(i, slot).tx[j]
            == p.tx[j],
        j != i ==> p.after_out(i, len).rx[j] == p.rx[j] && p.rx_polled(i).rx[j] == p.rx[j]
            && p.rx_released(i, slot).rx[j] == p.rx[j],
        j != i ==> p.reset(i).tx[j] == p.tx[j] && p.reset(i).rx[j] == p.rx[j],
{
}

/// Enabling an endpoint with a queue puts the buffer mode right whatever a bus reset
/// made of it, and a double-buffered IN endpoint then starts from DATA0 with NAK and
/// with the automatic flip as switched.
pub proof fn law_enable_restores_buffer_mode(
    p: PipesState,
    index: usize,
    dir_in: bool,
    regs: RegFile,
)
    requires
        p.ok(),
        1 <= index < EP_N,
    ensures
        ({
            let end = regs.after_all(p.enable_ops(index, dir_in));
            &&& dir_in && p.tx[index as int].n != 0 && p.switches.dbuf_tx ==> end.buf_mod.contains(
                index as int,
            ) && end.tx_ctrl[index as int] == ctrl_value(
                false,
                false,
                p.switches.dbuf_tx_auto_tog,
            )
            &&& !dir_in && p.rx[index as int].n != 0 ==> !end.buf_mod.contains(index as int)
        }),
{
    let ops = p.enable_ops(index, dir_in);
    if ops.len() == 2 {
        lemma_after_short(regs, ops[0], ops[1], ops[1]);
        assert(ops =~= seq![ops[0], ops[1]]);
    } else if ops.len() == 1 {
        lemma_after_short(regs, ops[0], ops[0], ops[0]);
        assert(ops =~= seq![ops[0]]);
    }
}

/// The action writes an address, a length or a control register whole, clears a flag
/// or pauses; none of these reads a register.
pub open spec fn only_writes(op: HwOp) -> bool {
    op is RxDma || op is TxDma || op is TLen || op is TxCtrl || op is RxCtrl || op is IntFg
        || op is Pad
}

/// The interrupt hooks never read a register. Without a pause, an OUT packet costs at
/// most two writes before the flag and a single-buffered IN packet three.
pub proof fn law_hooks_only_write(p: PipesState, index: usize)
    requires
        p.ok(),
        1 <= index < EP_N,
    ensures
        forall|i: int| 0 <= i < p.out_ops(index).len() ==> only_writes(#[trigger] p.out_ops(index)[i]),
        forall|i: int| 0 <= i < p.in_ops(index).len() ==> only_writes(#[trigger] p.in_ops(index)[i]),
        p.pad_rx == 0 ==> p.out_ops(index).len() <= 3,
        p.pad_tx == 0 && !p.switches.dbuf_tx ==> p.in_ops(index).len() <= 4,
{
}

proof fn lemma_ctrl_fields(v: u8, r: u8, t: u8, a: u8)
    by (bit_vector)
    requires
        r <= 3,
        t <= 1,
        a <= 1,
        v == r + 8 * t + 32 * a,
    ensures
        v & 0x03 == r,
        (v >> 3) & 0x03 == t,
        (v >> 5) & 0x01 == a,
{
}

/// The fields of a control register that was written whole are those it was written
/// with.
pub proof fn law_ctrl_fields(data1: bool, ack: bool, auto_tog: bool)
    ensures
        ({
            let v = ctrl_value(data1, ack, auto_tog);
            &&& v & 0x03 == (if ack {
                0u8
            } else {
                2u8
            })
            &&& (v >> 3) & 0x03 == (if data1 {
                1u8
            } else {
                0u8
            })
            &&& (v >> 5) & 0x01 == (if auto_tog {
                1u8
            } else {
                0u8
            })
        }),
{
    lemma_ctrl_fields(
        ctrl_value(data1, ack, auto_tog),
        if ack {
            0
        } else {
            2
        },
        if data1 {
            1
        } else {
            0
        },
        if auto_tog {
            1
        } else {
            0
        },
    );
}

proof fn lemma_complete(c: u8)
    by (bit_vector)
    ensures
        ((c & 0xe4) | 2 | 8) % 4 == 2,
        ((c & 0xe4) | 2 | 0) % 4 == 2,
        (((c & 0xe4) | 2 | 8) >> 3) & 0x03 == 1,
        (((c & 0xe4) | 2 | 0) >> 3) & 0x03 == 0,
        (((c & 0xe4) | 2 | 8) >> 5) & 0x01 == (c >> 5) & 0x01,
        (((c & 0xe4) | 2 | 0) >> 5) & 0x01 == (c >> 5) & 0x01,
{
}

/// A finished single-buffered transfer leaves NAK, the other synchronisation state of
/// the pair, and the automatic flip as it was.
pub proof fn law_complete_flips(ctrl: u8)
    ensures
        ({
            let v = ctrl_changed(ctrl, CtrlChange::Complete);
            &&& answers_nak(v)
            &&& (v >> 3) & 0x03 == (if (ctrl >> 3) & 0x03 == 0 {
                1u8
            } else {
                0u8
            })
            &&& (v >> 5) & 0x01 == (ctrl >> 5) & 0x01
        }),
{
    lemma_complete(ctrl);
}

/// While the software flips, the probe alternates between the two synchronisation
/// states, and so between the two buffers.
pub proof fn law_probe_alternates(data1: bool)
    ensures
        at_data0(ctrl_value(data1, true, false)) == !data1,
{
    law_ctrl_fields(data1, true, false);
}

/// A probe that is started and stopped leaves its endpoint in single-buffer mode with
/// NAK in the probed direction; while it runs, the register of the probed direction
/// holds buffer A and the other one buffer B.
pub proof fn law_probe_gives_endpoint_back(
    ep: usize,
    tx: bool,
    auto_tog: bool,
    addr_a: u32,
    addr_b: u32,
    regs: RegFile,
)
    requires
        1 <= ep < EP_N,
    ensures
        ({
            let on = regs.after_all(start_ops(ep, tx, auto_tog, addr_a, addr_b));
            let off = on.after_all(stop_ops(ep, tx));
            &&& on.buf_mod.contains(ep as int)
            &&& tx ==> on.tx_dma[ep - 1] == addr_a && on.rx_dma[ep - 1] == addr_b
            &&& !tx ==> on.rx_dma[ep - 1] == addr_a && on.tx_dma[ep - 1] == addr_b
            &&& !off.buf_mod.contains(ep as int)
            &&& tx ==> answers_nak(off.tx_ctrl[ep as int])
            &&& !tx ==> answers_nak(off.rx_ctrl[ep as int])
        }),
{
    let ops = start_ops(ep, tx, auto_tog, addr_a, addr_b);
    let a = ops.take(3);
    let b = ops.skip(3).take(2);
    let c = ops.skip(5);
    assert(ops =~= a + b + c);
    lemma_after_all_add(regs, a + b, c);
    lemma_after_all_add(regs, a, b);
    let r1 = regs.after_all(a);
    let r2 = r1.after_all(b);
    assert(a =~= seq![ops[0], ops[1], ops[2]]);
    assert(b =~= seq![ops[3], ops[4]]);
    lemma_after_short(regs, ops[0], ops[1], ops[2]);
    lemma_after_short(r1, ops[3], ops[4], ops[4]);
    if tx {
        assert(c =~= seq![ops[5], ops[6], ops[7]]);
        lemma_after_short(r2, ops[5], ops[6], ops[7]);
    } else {
        assert(c =~= seq![ops[5], ops[6]]);
        lemma_after_short(r2, ops[5], ops[6], ops[6]);
    }
    let on = regs.after_all(ops);
    let end = stop_ops(ep, tx);
    assert(end =~= seq![end[0], end[1]]);
    lemma_after_short(on, end[0], end[1], end[1]);
}

/// A single-buffered OUT packet is copied out before the endpoint lets the next one in:
/// the copy comes first and the transfer flag is cleared after it, with NAK already in
/// place.
pub proof fn law_data_out_copies_before_flag(
    e: Endpoint,
    fg: u8,
    st: u8,
    rx_len: u16,
    buf_len: usize,
    regs: RegFile,
)
    requires
        transfer_done(fg, st, e.spec_index()),
        done_token(st) == 0,
        rx_len <= buf_len,
    ensures
        ({
            let ops = e.data_out_ops(fg, st, rx_len, buf_len);
            &&& ops[0] == HwOp::ReadBuffer { len: rx_len as usize }
            &&& ops[2] == HwOp::IntFg { value: TRANSFER_FLAG }
            &&& answers_nak(regs.after_all(ops.take(2)).rx_ctrl[e.spec_index() as int])
        }),
{
    let ops = e.data_out_ops(fg, st, rx_len, buf_len);
    assert(ops.take(2) =~= seq![ops[0], ops[1]]);
    lemma_after_short(regs, ops[0], ops[1], ops[1]);
    law_complete_flips(regs.rx_ctrl[e.spec_index() as int]);
}

} // verus!
