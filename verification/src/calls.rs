//! What the laws over single calls share: which part of the registry a call may change,
//! and which registers its actions may touch.

use vstd::prelude::*;

use crate::hw::HwOp;
use crate::pipe::PipesState;
use crate::regs::RegFile;

verus! {

/// The actions that a call appended to a log.
pub open spec fn appended(before: Seq<HwOp>, after: Seq<HwOp>) -> Seq<HwOp> {
    after.skip(before.len() as int)
}

/// A log only grew: what was in it is still there, in front.
pub open spec fn grew(before: Seq<HwOp>, after: Seq<HwOp>) -> bool {
    before.len() <= after.len() && after.take(before.len() as int) == before
}

/// What a log grew by.
pub proof fn lemma_appended(before: Seq<HwOp>, ops: Seq<HwOp>)
    ensures
        grew(before, before + ops),
        appended(before, before + ops) == ops,
{
    assert((before + ops).take(before.len() as int) =~= before);
    assert((before + ops).skip(before.len() as int) =~= ops);
}

/// Neither the settings nor the set of queues changed.
pub open spec fn settings_kept(p: PipesState, q: PipesState) -> bool {
    &&& q.rings == p.rings
    &&& q.pad_rx == p.pad_rx
    &&& q.pad_tx == p.pad_tx
    &&& q.switches == p.switches
}

/// No counter changed.
pub open spec fn counts_kept(p: PipesState, q: PipesState) -> bool {
    &&& q.evt_rx == p.evt_rx
    &&& q.evt_tx == p.evt_tx
    &&& q.counters == p.counters
}

/// Of the queues, at most the IN side of endpoint `index` changed, and not its memory.
pub open spec fn only_in_side(p: PipesState, q: PipesState, index: int) -> bool {
    &&& q.rx == p.rx
    &&& q.tx.len() == p.tx.len()
    &&& forall|j: int| 0 <= j < 16 && j != index ==> #[trigger] q.tx[j] == p.tx[j]
    &&& q.tx[index].n == p.tx[index].n
    &&& q.tx[index].addrs == p.tx[index].addrs
}

/// Of the queues, at most the OUT side of endpoint `index` changed, and not its memory.
pub open spec fn only_out_side(p: PipesState, q: PipesState, index: int) -> bool {
    &&& q.tx == p.tx
    &&& q.rx.len() == p.rx.len()
    &&& forall|j: int| 0 <= j < 16 && j != index ==> #[trigger] q.rx[j] == p.rx[j]
    &&& q.rx[index].n == p.rx[index].n
    &&& q.rx[index].addrs == p.rx[index].addrs
}

/// The action touches no register of an endpoint other than `index`.
pub open spec fn on_endpoint(op: HwOp, index: int) -> bool {
    match op {
        HwOp::RxDma { n, .. } => n + 1 == index,
        HwOp::TxDma { n, .. } => n + 1 == index,
        HwOp::TLen { ep, .. } => ep == index,
        HwOp::MaxLen { ep, .. } => ep == index,
        HwOp::TxCtrl { ep, .. } => ep == index,
        HwOp::RxCtrl { ep, .. } => ep == index,
        HwOp::TxCtrlModify { ep, .. } => ep == index,
        HwOp::RxCtrlModify { ep, .. } => ep == index,
        HwOp::BufMod { ep, .. } => ep == index,
        _ => true,
    }
}

/// The action belongs to the IN side of a single-buffered endpoint.
pub open spec fn in_action(op: HwOp, index: int) -> bool {
    on_endpoint(op, index) && (op is TxDma || op is TLen || op is TxCtrl || op is IntFg
        || op is Pad)
}

/// The action belongs to the OUT side of an endpoint.
pub open spec fn out_action(op: HwOp, index: int) -> bool {
    on_endpoint(op, index) && (op is RxDma || op is RxCtrl || op is IntFg || op is Pad)
}

/// The registers of every endpoint other than `index` are as they were.
pub open spec fn others_untouched(a: RegFile, b: RegFile, index: int) -> bool {
    &&& forall|k: int| k + 1 != index ==> #[trigger] b.rx_dma[k] == a.rx_dma[k]
    &&& forall|k: int| k + 1 != index ==> #[trigger] b.tx_dma[k] == a.tx_dma[k]
    &&& forall|k: int| k != index ==> #[trigger] b.t_len[k] == a.t_len[k]
    &&& forall|k: int| k != index ==> #[trigger] b.max_len[k] == a.max_len[k]
    &&& forall|k: int| k != index ==> #[trigger] b.tx_ctrl[k] == a.tx_ctrl[k]
    &&& forall|k: int| k != index ==> #[trigger] b.rx_ctrl[k] == a.rx_ctrl[k]
    &&& forall|k: int|
        k != index ==> (#[trigger] b.buf_mod.contains(k) <==> a.buf_mod.contains(k))
}

/// Actions on one endpoint leave the registers of the others alone.
pub proof fn lemma_others_untouched(regs: RegFile, ops: Seq<HwOp>, index: int)
    requires
        forall|i: int| 0 <= i < ops.len() ==> on_endpoint(#[trigger] ops[i], index),
    ensures
        others_untouched(regs, regs.after_all(ops), index),
    decreases ops.len(),
{
    if ops.len() > 0 {
        lemma_others_untouched(regs, ops.drop_last(), index);
        assert(on_endpoint(ops.last(), index));
    }
}

/// The actions end with clearing the transfer flag and clear it only there. `pad` ticks
/// go by just before, or there is no pause if `pad` is 0.
pub open spec fn ends_with_flag(ops: Seq<HwOp>, pad: u32) -> bool {
    &&& ops.len() > 0
    &&& ops.last() == HwOp::IntFg { value: 2 }
    &&& forall|i: int| 0 <= i < ops.len() - 1 ==> !(#[trigger] ops[i] is IntFg)
    &&& forall|i: int| 0 <= i < ops.len() ==> (#[trigger] ops[i] is Pad ==> pad != 0 && i
        == ops.len() - 2 && ops[i] == HwOp::Pad { ticks: pad })
    &&& pad != 0 ==> ops.len() >= 2 && ops[ops.len() - 2] is Pad
}

/// A counter went one up; it wraps around at 32 bits.
pub open spec fn one_up(a: u32, b: u32) -> bool {
    b == (a + 1) % 0x1_0000_0000
}

} // verus!
