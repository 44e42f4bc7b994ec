//! Laws over single calls that compute register words or log one register access.

use vstd::prelude::*;

use crate::hw::{
    buf_mod_changed, clear_transfer, ctrl_changed, ctrl_value, int_en_changed, len_value, len_word, pad_pending,
    pad_window, rx_ctrl_changed, rx_ctrl_word, set_buf_mod, set_rx_dma, set_t_len, set_tx_dma,
    set_tx_dma_reg, tx_ctrl_changed, tx_ctrl_word, write_rx_ctrl, write_tx_ctrl,
    write_tx_ctrl_auto, write_tx_ctrl_db, CtrlChange, HwOp,
};
use crate::laws::law_ctrl_fields;
use crate::pac::{RxResponse, Tog, TxResponse};
use crate::ring::{qlen, wrap};
use crate::tx::tx_wake_water;

verus! {

/// A control word holds these fields and no other bit: the answer in bits 0 and 1 (0 is ACK,
/// 2 is NAK), the synchronisation state in bits 3 and 4 (0 is DATA0, 1 is DATA1), and the
/// automatic flip in bit 5.
pub open spec fn ctrl_fields(word: u8, data1: bool, ack: bool, auto_tog: bool) -> bool {
    &&& word & 0x03 == (if ack {
        0u8
    } else {
        2u8
    })
    &&& (word >> 3) & 0x03 == (if data1 {
        1u8
    } else {
        0u8
    })
    &&& ((word >> 5) & 0x01 == 1) == auto_tog
    &&& word & 0xc4 == 0
}

proof fn lemma_no_other_bit()
    by (bit_vector)
    ensures
        0u8 & 0xc4 == 0,
        2u8 & 0xc4 == 0,
        8u8 & 0xc4 == 0,
        10u8 & 0xc4 == 0,
        32u8 & 0xc4 == 0,
        34u8 & 0xc4 == 0,
        40u8 & 0xc4 == 0,
        42u8 & 0xc4 == 0,
{
}

/// Control words hold the fields that were asked for, in both directions.
pub proof fn law_ctrl_words(data1: bool, ack: bool, auto_tog: bool, tx: u8, rx: u8)
    requires
        call_ensures(tx_ctrl_word, (data1, ack, auto_tog), tx),
        call_ensures(rx_ctrl_word, (data1, ack, auto_tog), rx),
    ensures
        ctrl_fields(tx, data1, ack, auto_tog),
        ctrl_fields(rx, data1, ack, auto_tog),
        ctrl_fields(ctrl_value(data1, ack, auto_tog), data1, ack, auto_tog),
{
    law_ctrl_fields(data1, ack, auto_tog);
    lemma_no_other_bit();
}

/// The fields of a control word, for any fields.
pub proof fn lemma_ctrl_value(data1: bool, ack: bool, auto_tog: bool)
    ensures
        ctrl_fields(ctrl_value(data1, ack, auto_tog), data1, ack, auto_tog),
{
    law_ctrl_fields(data1, ack, auto_tog);
    lemma_no_other_bit();
}

/// What rewriting a control register in place does to its fields. A new answer leaves all
/// other bits alone. The end of a transfer answers NAK and moves on from DATA0 to DATA1,
/// or from anything else to DATA0; bits 2, 5, 6 and 7 stay.
pub open spec fn rewritten(before: u8, change: CtrlChange, after: u8) -> bool {
    match change {
        CtrlChange::Ack => after & 0x03 == 0 && after & 0xfc == before & 0xfc,
        CtrlChange::Complete => {
            &&& after & 0x03 == 2
            &&& (after >> 3) & 0x03 == (if (before >> 3) & 0x03 == 0 {
                1u8
            } else {
                0u8
            })
            &&& after & 0xe4 == before & 0xe4
        },
    }
}

proof fn lemma_rewritten(c: u8)
    by (bit_vector)
    ensures
        (c & 0xfc) & 0x03 == 0,
        (c & 0xfc) & 0xfc == c & 0xfc,
        ((c & 0xe4) | 2 | 8) & 0x03 == 2,
        ((c & 0xe4) | 2 | 0) & 0x03 == 2,
        (((c & 0xe4) | 2 | 8) >> 3) & 0x03 == 1,
        (((c & 0xe4) | 2 | 0) >> 3) & 0x03 == 0,
        ((c & 0xe4) | 2 | 8) & 0xe4 == c & 0xe4,
        ((c & 0xe4) | 2 | 0) & 0xe4 == c & 0xe4,
{
}

/// Rewriting a control register in place, in both directions.
pub proof fn law_ctrl_rewrite(ctrl: u8, change: CtrlChange, tx: u8, rx: u8)
    requires
        call_ensures(tx_ctrl_changed, (ctrl, change), tx),
        call_ensures(rx_ctrl_changed, (ctrl, change), rx),
    ensures
        rewritten(ctrl, change, tx),
        rewritten(ctrl, change, rx),
{
    lemma_rewritten(ctrl);
}

proof fn lemma_one_bit(reg: u32, ep: usize, k: usize)
    by (bit_vector)
    requires
        ep < 16,
        k < 32,
    ensures
        ((reg | (1u32 << ep)) >> k) & 1 == (if k == ep {
            1u32
        } else {
            (reg >> k) & 1
        }),
        ((reg & !(1u32 << ep)) >> k) & 1 == (if k == ep {
            0u32
        } else {
            (reg >> k) & 1
        }),
{
}

/// Switching the buffer mode of an endpoint sets or clears its bit and no other.
pub proof fn law_buf_mod_rewrite(reg: u32, ep: usize, on: bool, r: u32, k: usize)
    requires
        ep < 16,
        k < 32,
        call_ensures(buf_mod_changed, (reg, ep, on), r),
    ensures
        k == ep ==> ((r >> k) & 1 == 1) == on,
        k != ep ==> (r >> k) & 1 == (reg >> k) & 1,
{
    lemma_one_bit(reg, ep, k);
}

proof fn lemma_word_bits(reg: u8, len: u16)
    by (bit_vector)
    ensures
        (reg | 2) & 0x02 == 2,
        (reg | 2) & 0xfd == reg & 0xfd,
        len & 0x07ff == len % 0x0800,
{
}

/// Enabling transfer interrupts sets bit 1 and keeps the others, and a length register
/// holds the length up to eleven bits.
pub proof fn law_other_words(reg: u8, en: u8, len: u16, word: u16)
    requires
        call_ensures(int_en_changed, (reg,), en),
        call_ensures(len_word, (len,), word),
    ensures
        en & 0x02 == 2,
        en & 0xfd == reg & 0xfd,
        word == len % 2048,
        len < 2048 ==> word == len,
        len_value(len) == len % 2048,
{
    lemma_word_bits(reg, len);
}

/// The word of a length register, for any length.
pub proof fn lemma_len_value(len: u16)
    ensures
        len_value(len) == len % 2048,
{
    lemma_word_bits(0, len);
}

/// What rewriting does, for any register.
pub proof fn lemma_rewritten_value(ctrl: u8, change: CtrlChange)
    ensures
        rewritten(ctrl, change, ctrl_changed(ctrl, change)),
{
    lemma_rewritten(ctrl);
}

/// The field values of the register enumerations, and the state that follows another.
pub proof fn law_field_values(
    tog: Tog,
    tog_bits: u8,
    next: Tog,
    tx: TxResponse,
    tx_bits: u8,
    rx: RxResponse,
    rx_bits: u8,
)
    requires
        call_ensures(Tog::to_bits, (tog,), tog_bits),
        call_ensures(Tog::flipped, (tog,), next),
        call_ensures(TxResponse::to_bits, (tx,), tx_bits),
        call_ensures(RxResponse::to_bits, (rx,), rx_bits),
    ensures
        tog_bits <= 3 && tx_bits <= 3 && rx_bits <= 3,
        (tog_bits == 0) == (tog is Data0) && (tog_bits == 1) == (tog is Data1) && (tog_bits == 2)
            == (tog is Data2),
        (tx_bits == 0) == (tx is Ack) && (tx_bits == 2) == (tx is Nak) && (tx_bits == 3) == (
        tx is Stall),
        (rx_bits == 0) == (rx is Ack) && (rx_bits == 2) == (rx is Nak) && (rx_bits == 3) == (
        rx is Stall),
        tog is Data0 ==> next is Data1,
        !(tog is Data0) ==> next is Data0,
{
}

/// Exactly this action was appended to a log.
pub open spec fn logged(before: Seq<HwOp>, after: Seq<HwOp>, op: HwOp) -> bool {
    after.len() == before.len() + 1 && after.drop_last() == before && after.last() == op
}

/// Each address and length access is logged as one action on the register of that endpoint;
/// endpoint 1 has the first address register.
pub proof fn law_logged_addresses(
    index: usize,
    addr: u32,
    len: u16,
    block: u8,
    rx: &mut Vec<HwOp>,
    tx: &mut Vec<HwOp>,
    t_len: &mut Vec<HwOp>,
    reg: &mut Vec<HwOp>,
)
    requires
        1 <= index < 16,
        call_ensures(set_rx_dma, (index, addr, rx), ()),
        call_ensures(set_tx_dma, (index, addr, len, tx), ()),
        call_ensures(set_t_len, (index, len, t_len), ()),
        call_ensures(set_tx_dma_reg, (index, block, addr, reg), ()),
    ensures
        logged(old(rx)@, final(rx)@, HwOp::RxDma { n: (index - 1) as usize, addr }),
        final(tx)@.len() == old(tx)@.len() + 2,
        final(tx)@.take(old(tx)@.len() as int) == old(tx)@,
        final(tx)@[old(tx)@.len() as int] == (HwOp::TxDma { n: (index - 1) as usize, addr }),
        final(tx)@.last() == (HwOp::TLen { ep: index, value: (len % 2048) as u16 }),
        logged(old(t_len)@, final(t_len)@, HwOp::TLen { ep: index, value: (len % 2048) as u16 }),
        block == 0 ==> logged(
            old(reg)@,
            final(reg)@,
            HwOp::TxDma { n: (index - 1) as usize, addr },
        ),
        block != 0 ==> logged(
            old(reg)@,
            final(reg)@,
            HwOp::RxDma { n: (index - 1) as usize, addr },
        ),
{
    lemma_word_bits(0, len);
    assert(final(tx)@.take(old(tx)@.len() as int) =~= old(tx)@);
    assert(final(rx)@.drop_last() =~= old(rx)@);
    assert(final(t_len)@.drop_last() =~= old(t_len)@);
    assert(final(reg)@.drop_last() =~= old(reg)@);
}

/// One control write to this endpoint was logged, and its word has these fields.
pub open spec fn logged_ctrl(
    before: Seq<HwOp>,
    after: Seq<HwOp>,
    ep: usize,
    tx: bool,
    data1: bool,
    ack: bool,
    auto_tog: bool,
) -> bool {
    &&& after.len() == before.len() + 1
    &&& after.drop_last() == before
    &&& match after.last() {
        HwOp::TxCtrl { ep: e, value } => tx && e == ep && ctrl_fields(value, data1, ack, auto_tog),
        HwOp::RxCtrl { ep: e, value } => !tx && e == ep && ctrl_fields(value, data1, ack, auto_tog),
        _ => false,
    }
}

/// Each control access is logged as one write whose word has the fields asked for. The
/// plain writes turn the automatic flip off, the automatic one on, and the double-buffered
/// one as asked.
pub proof fn law_logged_control(
    index: usize,
    data1: bool,
    ack: bool,
    auto_tog: bool,
    tx: &mut Vec<HwOp>,
    rx: &mut Vec<HwOp>,
    flip: &mut Vec<HwOp>,
    db: &mut Vec<HwOp>,
)
    requires
        index < 16,
        call_ensures(write_tx_ctrl, (index, data1, ack, tx), ()),
        call_ensures(write_rx_ctrl, (index, data1, ack, rx), ()),
        call_ensures(write_tx_ctrl_auto, (index, data1, ack, flip), ()),
        call_ensures(write_tx_ctrl_db, (index, data1, ack, auto_tog, db), ()),
    ensures
        logged_ctrl(old(tx)@, final(tx)@, index, true, data1, ack, false),
        logged_ctrl(old(rx)@, final(rx)@, index, false, data1, ack, false),
        logged_ctrl(old(flip)@, final(flip)@, index, true, data1, ack, true),
        logged_ctrl(old(db)@, final(db)@, index, true, data1, ack, auto_tog),
{
    law_ctrl_fields(data1, ack, false);
    law_ctrl_fields(data1, ack, true);
    lemma_no_other_bit();
    assert(final(tx)@.drop_last() =~= old(tx)@);
    assert(final(rx)@.drop_last() =~= old(rx)@);
    assert(final(flip)@.drop_last() =~= old(flip)@);
    assert(final(db)@.drop_last() =~= old(db)@);
}

/// Clearing the transfer flag, switching the buffer mode and pausing are logged as one
/// action each; no pause is logged for 0 ticks.
pub proof fn law_logged_rest(
    flag: &mut Vec<HwOp>,
    index: usize,
    on: bool,
    mode: &mut Vec<HwOp>,
    n: u32,
    pad: &mut Vec<HwOp>,
)
    requires
        call_ensures(clear_transfer, (flag,), ()),
        call_ensures(set_buf_mod, (index, on, mode), ()),
        call_ensures(pad_window, (n, pad), ()),
    ensures
        logged(old(flag)@, final(flag)@, HwOp::IntFg { value: 2 }),
        logged(old(mode)@, final(mode)@, HwOp::BufMod { ep: index, on }),
        n == 0 ==> final(pad)@ == old(pad)@,
        n != 0 ==> logged(old(pad)@, final(pad)@, HwOp::Pad { ticks: n }),
{
    assert(final(flag)@.drop_last() =~= old(flag)@);
    assert(final(mode)@.drop_last() =~= old(mode)@);
    assert(n == 0 ==> final(pad)@ =~= old(pad)@);
    assert(n != 0 ==> final(pad)@.drop_last() =~= old(pad)@);
}

/// A pause of `n` ticks is over exactly once `n` ticks have gone by, also where the counter
/// has wrapped around.
pub proof fn law_pause(t0: u32, now: u32, n: u32, d: u32, r: bool)
    requires
        (t0 + d) % 0x1_0000_0000 == now as int,
        call_ensures(pad_pending, (t0, now, n), r),
    ensures
        r == (d < n),
{
}

/// Ring indices go round from 15 to 0; the distance from head to tail is the number of
/// steps from one to the other; and the wake level is half of the depth, rounded down, but
/// at least 1.
pub proof fn law_small_numbers(i: u8, next: u8, head: u8, tail: u8, len: u8, n: u8, water: u8)
    requires
        i < 16,
        head < 16,
        tail < 16,
        call_ensures(wrap, (i,), next),
        call_ensures(qlen, (head, tail), len),
        call_ensures(tx_wake_water, (n,), water),
    ensures
        i < 15 ==> next == i + 1,
        i == 15 ==> next == 0,
        len < 16,
        head + len == tail || head + len == tail + 16,
        water >= 1,
        n >= 2 ==> 2 * water <= n < 2 * water + 2,
        n < 2 ==> water == 1,
{
}

} // verus!
