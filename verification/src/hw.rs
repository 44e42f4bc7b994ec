//! Hardware actions and the register values in them.
//!
//! The state machine decides what the peripheral has to be told; it does not talk to
//! it. Each decision appends [`HwOp`]s to a log, and the caller carries the log out
//! from front to back. The order in the log is therefore the order on the bus.

use vstd::prelude::*;

use crate::pac::{
    buf_mod_set, ep_len_set, int_en_set_transfer, int_fg_set_transfer, rx_ctrl_set_auto,
    rx_ctrl_set_res, rx_ctrl_set_tog, rx_ctrl_tog, tx_ctrl_set_auto, tx_ctrl_set_res,
    tx_ctrl_set_tog, tx_ctrl_tog, RxResponse, Tog, TxResponse,
};

verus! {

/// Number of endpoints, endpoint 0 included.
pub const EP_N: usize = 16;

/// One of the two fixed buffers of the buffer-mode probe.
#[derive(Clone, Copy, Debug, PartialEq, Eq, Structural)]
pub enum Bank {
    A,
    B,
}

/// How a control register is rewritten in place.
#[derive(Clone, Copy, Debug, PartialEq, Eq, Structural)]
pub enum CtrlChange {
    /// Answer the next token with ACK.
    Ack,
    /// A transfer is over: answer NAK from here on, and flip the synchronisation state.
    Complete,
}

/// One action on the peripheral or on the memory it reads and writes.
#[allow(inconsistent_fields)]
#[derive(Clone, Copy, Debug, PartialEq, Eq, Structural)]
pub enum HwOp {
    /// Write `addr` to receive DMA register `n` (endpoint `n + 1`).
    RxDma { n: usize, addr: u32 },
    /// Write `addr` to transmit DMA register `n` (endpoint `n + 1`).
    TxDma { n: usize, addr: u32 },
    /// Write the transmit length register of `ep`.
    TLen { ep: usize, value: u16 },
    /// Write the maximum length register of `ep`.
    MaxLen { ep: usize, value: u16 },
    /// Write the transmit control register of `ep`.
    TxCtrl { ep: usize, value: u8 },
    /// Write the receive control register of `ep`.
    RxCtrl { ep: usize, value: u8 },
    /// Replace the transmit control register of `ep` by [`tx_ctrl_changed`] of it.
    TxCtrlModify { ep: usize, change: CtrlChange },
    /// Replace the receive control register of `ep` by [`rx_ctrl_changed`] of it.
    RxCtrlModify { ep: usize, change: CtrlChange },
    /// Replace the buffer mode register by [`buf_mod_changed`] of it.
    BufMod { ep: usize, on: bool },
    /// Write the interrupt flag register; a set bit clears that flag.
    IntFg { value: u8 },
    /// Replace the interrupt enable register by [`int_en_changed`] of it.
    IntEnModify,
    /// Let this many counter ticks go by.
    Pad { ticks: u32 },
    /// Write word `word` of the SysTick block.
    SysTick { word: usize, value: u32 },
    /// Set every byte of a probe buffer.
    Fill { bank: Bank, value: u8 },
    /// Copy the first `len` bytes of the endpoint buffer to the caller.
    ReadBuffer { len: usize },
    /// Copy the caller's `len` bytes to the endpoint buffer.
    WriteBuffer { len: usize },
}

/// A control register that was written whole: bits 0 and 1 hold 0 for ACK and 2 for
/// NAK, bits 3 and 4 hold 0 for DATA0 and 1 for DATA1, bit 5 turns the automatic
/// flip on.
pub open spec fn ctrl_value(data1: bool, ack: bool, auto_tog: bool) -> u8 {
    ((if ack { 0int } else { 2int }) + (if data1 { 8int } else { 0int }) + (if auto_tog {
        32int
    } else {
        0int
    })) as u8
}

/// A length register: the low eleven bits of the length.
pub open spec fn len_value(len: u16) -> u16 {
    len & 0x07ff
}

/// The interrupt flag word that clears the transfer flag and no other.
pub const TRANSFER_FLAG: u8 = 2;

/// A control register after a [`CtrlChange`].
pub open spec fn ctrl_changed(ctrl: u8, change: CtrlChange) -> u8 {
    match change {
        CtrlChange::Ack => ctrl & 0xfc,
        CtrlChange::Complete => (ctrl & 0xe4) | 2 | (if (ctrl >> 3) & 0x03 == 0 {
            8u8
        } else {
            0u8
        }),
    }
}

proof fn lemma_ctrl_bits(t: u8, r: u8, a: u8)
    by (bit_vector)
    requires
        t <= 3,
        r <= 3,
        a <= 1,
    ensures
        ((((((0u8 & !(0x03u8 << 3)) | (t << 3)) & !0x03u8) | r) & !(0x01u8 << 5)) | (a << 5)) == r
            + 8 * t + 32 * a,
        0x01u8 << 5 == 32,
        0u8 << 5 == 0,
        1u8 << 5 == 32,
{
}

proof fn lemma_changed_bits(c: u8)
    by (bit_vector)
    ensures
        (c & !0x03u8) | 0 == c & 0xfc,
        ((((c & !0x03u8) | 2) & !(0x03u8 << 3)) | (1u8 << 3)) == (c & 0xe4) | 2 | 8,
        ((((c & !0x03u8) | 2) & !(0x03u8 << 3)) | (0u8 << 3)) == (c & 0xe4) | 2 | 0,
        ((((c & !0x03u8) | 2) >> 3) & 0x03) == (c >> 3) & 0x03,
{
}

/// The transmit control word for a packet.
pub fn tx_ctrl_word(data1: bool, ack: bool, auto_tog: bool) -> (r: u8)
    ensures
        r == ctrl_value(data1, ack, auto_tog),
{
    let tog = if data1 {
        Tog::Data1
    } else {
        Tog::Data0
    };
    let res = if ack {
        TxResponse::Ack
    } else {
        TxResponse::Nak
    };
    proof {
        lemma_ctrl_bits(
            tog.bits(),
            res.bits(),
            if auto_tog {
                1
            } else {
                0
            },
        );
    }
    tx_ctrl_set_auto(tx_ctrl_set_res(tx_ctrl_set_tog(0, tog), res), auto_tog)
}

/// The receive control word for a packet.
pub fn rx_ctrl_word(data1: bool, ack: bool, auto_tog: bool) -> (r: u8)
    ensures
        r == ctrl_value(data1, ack, auto_tog),
{
    let tog = if data1 {
        Tog::Data1
    } else {
        Tog::Data0
    };
    let res = if ack {
        RxResponse::Ack
    } else {
        RxResponse::Nak
    };
    proof {
        lemma_ctrl_bits(
            tog.bits(),
            res.bits(),
            if auto_tog {
                1
            } else {
                0
            },
        );
    }
    rx_ctrl_set_auto(rx_ctrl_set_res(rx_ctrl_set_tog(0, tog), res), auto_tog)
}

/// What a transmit control register becomes under `change`.
pub fn tx_ctrl_changed(ctrl: u8, change: CtrlChange) -> (r: u8)
    ensures
        r == ctrl_changed(ctrl, change),
{
    proof {
        lemma_changed_bits(ctrl);
    }
    match change {
        CtrlChange::Ack => tx_ctrl_set_res(ctrl, TxResponse::Ack),
        CtrlChange::Complete => {
            let idle: u8 = tx_ctrl_set_res(ctrl, TxResponse::Nak);
            tx_ctrl_set_tog(idle, tx_ctrl_tog(idle).flipped())
        },
    }
}

/// What a receive control register becomes under `change`.
pub fn rx_ctrl_changed(ctrl: u8, change: CtrlChange) -> (r: u8)
    ensures
        r == ctrl_changed(ctrl, change),
{
    proof {
        lemma_changed_bits(ctrl);
    }
    match change {
        CtrlChange::Ack => rx_ctrl_set_res(ctrl, RxResponse::Ack),
        CtrlChange::Complete => {
            let idle: u8 = rx_ctrl_set_res(ctrl, RxResponse::Nak);
            rx_ctrl_set_tog(idle, rx_ctrl_tog(idle).flipped())
        },
    }
}

/// What the buffer mode register becomes when endpoint `ep` is switched.
pub fn buf_mod_changed(reg: u32, ep: usize, on: bool) -> (r: u32)
    requires
        ep < EP_N,
    ensures
        on ==> r == reg | (1u32 << ep),
        !on ==> r == reg & !(1u32 << ep),
{
    proof {
        let m: u32 = 1u32 << ep;
        assert((reg & !m) | m == reg | m) by (bit_vector);
        assert((reg & !m) | 0 == reg & !m) by (bit_vector);
    }
    buf_mod_set(reg, ep, on)
}

/// What the interrupt enable register becomes when transfer interrupts are enabled.
pub fn int_en_changed(reg: u8) -> (r: u8)
    ensures
        r == reg | 2,
{
    assert((reg & !(0x01u8 << 1)) | (0x01u8 << 1) == reg | 2) by (bit_vector);
    int_en_set_transfer(reg, true)
}

/// The word of a length register.
pub fn len_word(len: u16) -> (r: u16)
    ensures
        r == len_value(len),
{
    assert((0u16 & !0x07ffu16) | (len & 0x07ff) == len & 0x07ff) by (bit_vector);
    ep_len_set(0, len)
}

/// Logs the write that points endpoint `index` at the buffer that receives next.
pub fn set_rx_dma(index: usize, addr: u32, log: &mut Vec<HwOp>)
    requires
        1 <= index < EP_N,
    ensures
        final(log)@ == old(log)@.push(HwOp::RxDma { n: (index - 1) as usize, addr }),
{
    log.push(HwOp::RxDma { n: index - 1, addr });
}

/// The writes that point endpoint `index` at the bytes to send next.
pub open spec fn tx_dma_ops(index: usize, addr: u32, len: u16) -> Seq<HwOp> {
    seq![
        HwOp::TxDma { n: (index - 1) as usize, addr },
        HwOp::TLen { ep: index, value: len_value(len) },
    ]
}

/// Logs the writes that point endpoint `index` at the bytes to send next.
pub fn set_tx_dma(index: usize, addr: u32, len: u16, log: &mut Vec<HwOp>)
    requires
        1 <= index < EP_N,
    ensures
        final(log)@ == old(log)@ + tx_dma_ops(index, addr, len),
{
    log.push(HwOp::TxDma { n: index - 1, addr });
    set_t_len(index, len, log);
    assert(log@ =~= old(log)@ + tx_dma_ops(index, addr, len));
}

/// Logs the write that ends the window in which the peripheral answers every token
/// with NAK by itself.
pub fn clear_transfer(log: &mut Vec<HwOp>)
    ensures
        final(log)@ == old(log)@.push(HwOp::IntFg { value: TRANSFER_FLAG }),
{
    assert((0u8 & !(0x01u8 << 1)) | (0x01u8 << 1) == 2) by (bit_vector);
    log.push(HwOp::IntFg { value: int_fg_set_transfer(0, true) });
}

/// Logs the transmit control write of a single-buffered packet.
pub fn write_tx_ctrl(index: usize, data1: bool, ack: bool, log: &mut Vec<HwOp>)
    requires
        index < EP_N,
    ensures
        final(log)@ == old(log)@.push(
            HwOp::TxCtrl { ep: index, value: ctrl_value(data1, ack, false) },
        ),
{
    log.push(HwOp::TxCtrl { ep: index, value: tx_ctrl_word(data1, ack, false) });
}

/// Logs the receive control write of a packet.
pub fn write_rx_ctrl(index: usize, data1: bool, ack: bool, log: &mut Vec<HwOp>)
    requires
        index < EP_N,
    ensures
        final(log)@ == old(log)@.push(
            HwOp::RxCtrl { ep: index, value: ctrl_value(data1, ack, false) },
        ),
{
    log.push(HwOp::RxCtrl { ep: index, value: rx_ctrl_word(data1, ack, false) });
}

/// Logs the switch of endpoint `index` to or from double buffering.
pub fn set_buf_mod(index: usize, on: bool, log: &mut Vec<HwOp>)
    requires
        index < EP_N,
    ensures
        final(log)@ == old(log)@.push(HwOp::BufMod { ep: index, on }),
{
    log.push(HwOp::BufMod { ep: index, on });
}

/// The write that hangs a buffer into one of the two DMA registers of a
/// double-buffered IN endpoint: block 0 is the transmit register, block 1 the receive
/// register.
pub open spec fn tx_dma_reg_op(index: usize, buf: u8, addr: u32) -> HwOp {
    if buf == 0 {
        HwOp::TxDma { n: (index - 1) as usize, addr }
    } else {
        HwOp::RxDma { n: (index - 1) as usize, addr }
    }
}

/// Logs [`tx_dma_reg_op`].
pub fn set_tx_dma_reg(index: usize, buf: u8, addr: u32, log: &mut Vec<HwOp>)
    requires
        1 <= index < EP_N,
    ensures
        final(log)@ == old(log)@.push(tx_dma_reg_op(index, buf, addr)),
{
    if buf == 0 {
        log.push(HwOp::TxDma { n: index - 1, addr });
    } else {
        log.push(HwOp::RxDma { n: index - 1, addr });
    }
}

/// Logs the transmit length write.
pub fn set_t_len(index: usize, len: u16, log: &mut Vec<HwOp>)
    requires
        index < EP_N,
    ensures
        final(log)@ == old(log)@.push(HwOp::TLen { ep: index, value: len_value(len) }),
{
    log.push(HwOp::TLen { ep: index, value: len_word(len) });
}

/// Logs the transmit control write that leaves the automatic flip on.
pub fn write_tx_ctrl_auto(index: usize, data1: bool, ack: bool, log: &mut Vec<HwOp>)
    requires
        index < EP_N,
    ensures
        final(log)@ == old(log)@.push(
            HwOp::TxCtrl { ep: index, value: ctrl_value(data1, ack, true) },
        ),
{
    log.push(HwOp::TxCtrl { ep: index, value: tx_ctrl_word(data1, ack, true) });
}

/// Logs the transmit control write of a double-buffered packet; `auto_tog` says
/// whether the peripheral or the software flips the synchronisation state.
pub fn write_tx_ctrl_db(
    index: usize,
    data1: bool,
    ack: bool,
    auto_tog: bool,
    log: &mut Vec<HwOp>,
)
    requires
        index < EP_N,
    ensures
        final(log)@ == old(log)@.push(
            HwOp::TxCtrl { ep: index, value: ctrl_value(data1, ack, auto_tog) },
        ),
{
    if auto_tog {
        write_tx_ctrl_auto(index, data1, ack, log);
    } else {
        write_tx_ctrl(index, data1, ack, log);
    }
}

/// The pause before the flag is cleared; none when `n` is 0.
pub open spec fn pad_ops(n: u32) -> Seq<HwOp> {
    if n != 0 {
        seq![HwOp::Pad { ticks: n }]
    } else {
        Seq::empty()
    }
}

/// Logs [`pad_ops`].
pub fn pad_window(n: u32, log: &mut Vec<HwOp>)
    ensures
        final(log)@ == old(log)@ + pad_ops(n),
{
    if n != 0 {
        log.push(HwOp::Pad { ticks: n });
    }
    assert(log@ =~= old(log)@ + pad_ops(n));
}

/// Whether a pause of `n` ticks that began at counter value `t0` still goes on at
/// `now`. The counter wraps around.
pub fn pad_pending(t0: u32, now: u32, n: u32) -> (r: bool)
    ensures
        r == ((now - t0) % 0x1_0000_0000 < n),
{
    now.wrapping_sub(t0) < n
}

} // verus!
