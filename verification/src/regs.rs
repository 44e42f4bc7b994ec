//! Model of the registers that a log of hardware actions writes.

use vstd::prelude::*;

use crate::hw::{ctrl_changed, HwOp};

verus! {

/// The registers of the peripheral, each array by index.
#[verifier::ext_equal]
pub struct RegFile {
    pub rx_dma: Map<int, u32>,
    pub tx_dma: Map<int, u32>,
    pub t_len: Map<int, u16>,
    pub max_len: Map<int, u16>,
    pub tx_ctrl: Map<int, u8>,
    pub rx_ctrl: Map<int, u8>,
    /// Endpoints in double-buffer mode.
    pub buf_mod: Set<int>,
    /// A finished transfer has not been acknowledged; until then every token is
    /// answered with NAK.
    pub transfer: bool,
}

impl RegFile {
    /// The registers after one action.
    pub open spec fn after(self, op: HwOp) -> RegFile {
        match op {
            HwOp::RxDma { n, addr } => RegFile {
                rx_dma: self.rx_dma.insert(n as int, addr),
                ..self
            },
            HwOp::TxDma { n, addr } => RegFile {
                tx_dma: self.tx_dma.insert(n as int, addr),
                ..self
            },
            HwOp::TLen { ep, value } => RegFile {
                t_len: self.t_len.insert(ep as int, value),
                ..self
            },
            HwOp::MaxLen { ep, value } => RegFile {
                max_len: self.max_len.insert(ep as int, value),
                ..self
            },
            HwOp::TxCtrl { ep, value } => RegFile {
                tx_ctrl: self.tx_ctrl.insert(ep as int, value),
                ..self
            },
            HwOp::RxCtrl { ep, value } => RegFile {
                rx_ctrl: self.rx_ctrl.insert(ep as int, value),
                ..self
            },
            HwOp::TxCtrlModify { ep, change } => RegFile {
                tx_ctrl: self.tx_ctrl.insert(
                    ep as int,
                    ctrl_changed(self.tx_ctrl[ep as int], change),
                ),
                ..self
            },
            HwOp::RxCtrlModify { ep, change } => RegFile {
                rx_ctrl: self.rx_ctrl.insert(
                    ep as int,
                    ctrl_changed(self.rx_ctrl[ep as int], change),
                ),
                ..self
            },
            HwOp::BufMod { ep, on } => RegFile {
                buf_mod: if on {
                    self.buf_mod.insert(ep as int)
                } else {
                    self.buf_mod.remove(ep as int)
                },
                ..self
            },
            HwOp::IntFg { value } => RegFile {
                transfer: self.transfer && value & 2 == 0,
                ..self
            },
            _ => self,
        }
    }

    /// The registers after a log was carried out from front to back.
    pub open spec fn after_all(self, ops: Seq<HwOp>) -> RegFile
        decreases ops.len(),
    {
        if ops.len() == 0 {
            self
        } else {
            self.after_all(ops.drop_last()).after(ops.last())
        }
    }
}

/// A control register answers ACK.
pub open spec fn answers_ack(ctrl: u8) -> bool {
    ctrl % 4 == 0
}

/// A control register answers NAK.
pub open spec fn answers_nak(ctrl: u8) -> bool {
    ctrl % 4 == 2
}

/// Carrying out two logs one after the other is carrying out the joined log.
pub proof fn lemma_after_all_add(regs: RegFile, a: Seq<HwOp>, b: Seq<HwOp>)
    ensures
        regs.after_all(a + b) == regs.after_all(a).after_all(b),
    decreases b.len(),
{
    if b.len() == 0 {
        assert(a + b =~= a);
    } else {
        assert((a + b).drop_last() =~= a + b.drop_last());
        lemma_after_all_add(regs, a, b.drop_last());
    }
}

/// What logs of up to three actions do.
pub proof fn lemma_after_short(regs: RegFile, x: HwOp, y: HwOp, z: HwOp)
    ensures
        regs.after_all(Seq::empty()) == regs,
        regs.after_all(seq![x]) == regs.after(x),
        regs.after_all(seq![x, y]) == regs.after(x).after(y),
        regs.after_all(seq![x, y, z]) == regs.after(x).after(y).after(z),
{
    reveal_with_fuel(RegFile::after_all, 4);
    assert(seq![x].drop_last() =~= Seq::<HwOp>::empty());
    assert(seq![x, y].drop_last() =~= seq![x]);
    assert(seq![x, y, z].drop_last() =~= seq![x, y]);
}

} // verus!
