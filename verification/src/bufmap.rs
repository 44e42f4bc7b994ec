//! Probe for the buffer mode: which DMA register belongs to which synchronisation
//! state, and whether the automatic flip works.
//!
//! The probe takes an endpoint away from its queue, hangs one fixed buffer into each
//! of the two DMA registers, and from then on only counts packets and, on request,
//! flips the synchronisation state. The report tells what arrived where.

use vstd::prelude::*;

use crate::hw::{
    clear_transfer, ctrl_value, len_value, len_word, set_buf_mod, set_t_len, write_rx_ctrl,
    write_tx_ctrl, rx_ctrl_word, tx_ctrl_word, Bank, HwOp, EP_N, TRANSFER_FLAG,
};
use crate::pac::{
    buf_mod_get, rx_ctrl_auto, rx_ctrl_res, rx_ctrl_tog, tx_ctrl_auto, tx_ctrl_res, tx_ctrl_tog,
    Tog,
};
use crate::pipe::{bumped, reset, Pipes};

verus! {

/// Whether the probe can be started; off in production.
pub const ENABLE: bool = false;

/// Size of each probe buffer.
pub const BUF_LEN: usize = 512;

/// Background of the buffers of an OUT probe: tells untouched from received.
pub const FILL_RX_A: u8 = 0xA5;

pub const FILL_RX_B: u8 = 0x5A;

/// Contents of the buffers of an IN probe: tells the host which one was sent.
pub const FILL_TX_A: u8 = 0xA1;

pub const FILL_TX_B: u8 = 0xB1;

/// Stands for "no packet yet" where the report gives a toggle check.
pub const NOT_SEEN: u32 = 0xFFFF_FFFF;

/// State of the probe.
#[derive(Clone, Copy, Debug, PartialEq, Eq, Structural)]
pub struct Probe {
    /// The probe can be started.
    pub enable: bool,
    /// The probe has the endpoint.
    pub active: bool,
    pub ep: u32,
    /// The IN direction is probed.
    pub is_tx: bool,
    /// The software flips the synchronisation state after each packet.
    pub flip: bool,
    /// The peripheral does.
    pub auto_tog: bool,
    /// Packets.
    pub count: u32,
    /// Toggle check of the first packet.
    pub first_tog_ok: u32,
    /// Toggle check of the last packet.
    pub last_tog_ok: u32,
    /// Length of the last packet.
    pub last_len: u32,
}

/// Numbers that can be probed: data endpoints.
pub open spec fn probe_ep(ep: int) -> bool {
    1 <= ep < EP_N
}

/// A toggle check as a number.
pub open spec fn flag(b: bool) -> u32 {
    if b {
        1
    } else {
        0
    }
}

impl Probe {
    /// An idle probe.
    pub fn new(enable: bool) -> (r: Self)
        ensures
            r == (Probe {
                enable,
                active: false,
                ep: 0,
                is_tx: false,
                flip: false,
                auto_tog: false,
                count: 0,
                first_tog_ok: NOT_SEEN,
                last_tog_ok: NOT_SEEN,
                last_len: 0,
            }),
    {
        Probe {
            enable,
            active: false,
            ep: 0,
            is_tx: false,
            flip: false,
            auto_tog: false,
            count: 0,
            first_tog_ok: NOT_SEEN,
            last_tog_ok: NOT_SEEN,
            last_len: 0,
        }
    }

    /// After a packet.
    pub open spec fn noted(self, tog_ok: bool, len: u16) -> Probe {
        Probe {
            count: bumped(self.count),
            first_tog_ok: if bumped(self.count) == 1 {
                flag(tog_ok)
            } else {
                self.first_tog_ok
            },
            last_tog_ok: flag(tog_ok),
            last_len: len as u32,
            ..self
        }
    }
}

/// Whether the probe has endpoint `ep`.
pub fn active(p: &Probe, ep: usize) -> (r: bool)
    ensures
        r == (p.active && p.ep == ep),
{
    p.active && p.ep as usize == ep
}

/// The hardware actions that start a probe: packet size, buffer mode, both buffers
/// filled, the register of the probed direction on buffer A and the other one on B,
/// and ACK from DATA0 on.
pub open spec fn start_ops(
    ep: usize,
    tx: bool,
    auto_tog: bool,
    addr_a: u32,
    addr_b: u32,
) -> Seq<HwOp> {
    let n = (ep - 1) as usize;
    let head = seq![
        HwOp::MaxLen { ep, value: len_value(BUF_LEN as u16) },
        HwOp::BufMod { ep, on: true },
    ];
    head + if tx {
        seq![
            HwOp::Fill { bank: Bank::A, value: FILL_TX_A },
            HwOp::Fill { bank: Bank::B, value: FILL_TX_B },
            HwOp::TxDma { n, addr: addr_a },
            HwOp::RxDma { n, addr: addr_b },
            HwOp::TLen { ep, value: len_value(BUF_LEN as u16) },
            HwOp::TxCtrl { ep, value: ctrl_value(false, true, auto_tog) },
        ]
    } else {
        seq![
            HwOp::Fill { bank: Bank::A, value: FILL_RX_A },
            HwOp::Fill { bank: Bank::B, value: FILL_RX_B },
            HwOp::RxDma { n, addr: addr_a },
            HwOp::TxDma { n, addr: addr_b },
            HwOp::RxCtrl { ep, value: ctrl_value(false, true, auto_tog) },
        ]
    }
}

/// Starts the probe on endpoint `ep`, IN direction if `tx`, with its buffers at the
/// given addresses. `flip` lets the software flip the synchronisation state,
/// `auto_tog` the peripheral. Says whether that worked: the probe has to be enabled
/// and the endpoint a data endpoint.
pub fn start(
    p: &mut Probe,
    ep: usize,
    tx: bool,
    flip: bool,
    auto_tog: bool,
    addr_a: u32,
    addr_b: u32,
    log: &mut Vec<HwOp>,
) -> (r: bool)
    ensures
        r == (old(p).enable && probe_ep(ep as int)),
        !r ==> *final(p) == *old(p) && final(log)@ == old(log)@,
        r ==> *final(p) == (Probe {
            enable: old(p).enable,
            active: true,
            ep: ep as u32,
            is_tx: tx,
            flip,
            auto_tog,
            count: 0,
            first_tog_ok: NOT_SEEN,
            last_tog_ok: NOT_SEEN,
            last_len: 0,
        }) && final(log)@ == old(log)@ + start_ops(ep, tx, auto_tog, addr_a, addr_b),
{
    if !p.enable || ep == 0 || ep >= EP_N {
        return false;
    }
    p.active = false;
    let n: usize = ep - 1;
    log.push(HwOp::MaxLen { ep, value: len_word(BUF_LEN as u16) });
    set_buf_mod(ep, true, log);
    if tx {
        log.push(HwOp::Fill { bank: Bank::A, value: FILL_TX_A });
        log.push(HwOp::Fill { bank: Bank::B, value: FILL_TX_B });
        log.push(HwOp::TxDma { n, addr: addr_a });
        log.push(HwOp::RxDma { n, addr: addr_b });
        set_t_len(ep, BUF_LEN as u16, log);
        log.push(HwOp::TxCtrl { ep, value: tx_ctrl_word(false, true, auto_tog) });
    } else {
        log.push(HwOp::Fill { bank: Bank::A, value: FILL_RX_A });
        log.push(HwOp::Fill { bank: Bank::B, value: FILL_RX_B });
        log.push(HwOp::RxDma { n, addr: addr_a });
        log.push(HwOp::TxDma { n, addr: addr_b });
        log.push(HwOp::RxCtrl { ep, value: rx_ctrl_word(false, true, auto_tog) });
    }
    p.ep = ep as u32;
    p.is_tx = tx;
    p.flip = flip;
    p.auto_tog = auto_tog;
    p.count = 0;
    p.first_tog_ok = NOT_SEEN;
    p.last_tog_ok = NOT_SEEN;
    p.last_len = 0;
    p.active = true;
    assert(log@ =~= old(log)@ + start_ops(ep, tx, auto_tog, addr_a, addr_b));
    true
}

/// Counts a packet.
pub fn note(p: &mut Probe, tog_ok: bool, len: u16)
    ensures
        *final(p) == old(p).noted(tog_ok, len),
{
    let n: u32 = p.count.wrapping_add(1);
    let ok: u32 = if tog_ok {
        1
    } else {
        0
    };
    p.count = n;
    if n == 1 {
        p.first_tog_ok = ok;
    }
    p.last_tog_ok = ok;
    p.last_len = len as u32;
}

/// The synchronisation state in a control register is DATA0.
pub open spec fn at_data0(ctrl: u8) -> bool {
    (ctrl >> 3) & 0x03 == 0
}

/// An OUT packet came in on the probed endpoint. `ctrl` is the receive control
/// register; it matters only if the software flips. No DMA register changes.
pub fn on_out(p: &mut Probe, ep: usize, tog_ok: bool, len: u16, ctrl: u8, log: &mut Vec<HwOp>)
    requires
        old(p).flip ==> ep < EP_N,
    ensures
        *final(p) == old(p).noted(tog_ok, len),
        final(log)@ == old(log)@ + if old(p).flip {
            seq![
                HwOp::RxCtrl { ep, value: ctrl_value(at_data0(ctrl), true, false) },
                HwOp::IntFg { value: TRANSFER_FLAG },
            ]
        } else {
            seq![HwOp::IntFg { value: TRANSFER_FLAG }]
        },
{
    note(p, tog_ok, len);
    if p.flip {
        let next = rx_ctrl_tog(ctrl).flipped();
        write_rx_ctrl(ep, next == Tog::Data1, true, log);
    }
    clear_transfer(log);
    assert(log@ =~= old(log)@ + if old(p).flip {
        seq![
            HwOp::RxCtrl { ep, value: ctrl_value(at_data0(ctrl), true, false) },
            HwOp::IntFg { value: TRANSFER_FLAG },
        ]
    } else {
        seq![HwOp::IntFg { value: TRANSFER_FLAG }]
    });
}

/// An IN packet went out on the probed endpoint. `ctrl` is the transmit control
/// register; it matters only if the software flips. No DMA register changes.
pub fn on_in(p: &mut Probe, ep: usize, tog_ok: bool, ctrl: u8, log: &mut Vec<HwOp>)
    requires
        old(p).flip ==> ep < EP_N,
    ensures
        *final(p) == old(p).noted(tog_ok, BUF_LEN as u16),
        final(log)@ == old(log)@ + if old(p).flip {
            seq![
                HwOp::TxCtrl { ep, value: ctrl_value(at_data0(ctrl), true, false) },
                HwOp::IntFg { value: TRANSFER_FLAG },
            ]
        } else {
            seq![HwOp::IntFg { value: TRANSFER_FLAG }]
        },
{
    note(p, tog_ok, BUF_LEN as u16);
    if p.flip {
        let next = tx_ctrl_tog(ctrl).flipped();
        write_tx_ctrl(ep, next == Tog::Data1, true, log);
    }
    clear_transfer(log);
    assert(log@ =~= old(log)@ + if old(p).flip {
        seq![
            HwOp::TxCtrl { ep, value: ctrl_value(at_data0(ctrl), true, false) },
            HwOp::IntFg { value: TRANSFER_FLAG },
        ]
    } else {
        seq![HwOp::IntFg { value: TRANSFER_FLAG }]
    });
}

/// The register writes that give an endpoint back: single buffer, NAK.
pub open spec fn stop_ops(ep: usize, tx: bool) -> Seq<HwOp> {
    seq![
        HwOp::BufMod { ep, on: false },
        if tx {
            HwOp::TxCtrl { ep, value: ctrl_value(false, false, false) }
        } else {
            HwOp::RxCtrl { ep, value: ctrl_value(false, false, false) }
        },
    ]
}

/// Stops the probe and gives the endpoint back to its queue, which starts over. Says
/// which endpoint to wake.
pub fn stop(p: &mut Probe, pipes: &mut Pipes, log: &mut Vec<HwOp>) -> (r: Option<usize>)
    requires
        old(pipes).wf(),
    ensures
        final(pipes).wf(),
        *final(p) == (Probe { active: false, ..*old(p) }),
        r == (if probe_ep(old(p).ep as int) {
            Some(old(p).ep as usize)
        } else {
            None
        }),
        final(pipes)@ == old(pipes)@.reset(old(p).ep as usize),
        final(log)@ == old(log)@ + if probe_ep(old(p).ep as int) {
            stop_ops(old(p).ep as usize, old(p).is_tx)
        } else {
            Seq::empty()
        },
{
    let ep: usize = p.ep as usize;
    p.active = false;
    if ep == 0 || ep >= EP_N {
        assert(log@ =~= old(log)@ + Seq::<HwOp>::empty());
        return None;
    }
    set_buf_mod(ep, false, log);
    if p.is_tx {
        write_tx_ctrl(ep, false, false, log);
    } else {
        write_rx_ctrl(ep, false, false, log);
    }
    reset(pipes, ep);
    assert(log@ =~= old(log)@ + stop_ops(ep, p.is_tx));
    Some(ep)
}

/// Four bytes from `off` on, lowest first, as a number.
pub open spec fn le_word(bytes: Seq<u8>, off: int) -> u32 {
    (bytes[off] + 0x100 * bytes[off + 1] + 0x1_0000 * bytes[off + 2] + 0x100_0000 * bytes[off
        + 3]) as u32
}

/// Reads [`le_word`].
fn rd_u32(bytes: &[u8; 512], off: usize) -> (r: u32)
    requires
        off + 3 < BUF_LEN,
    ensures
        r == le_word(bytes@, off as int),
{
    (bytes[off] as u32) + 0x100 * (bytes[off + 1] as u32) + 0x1_0000 * (bytes[off + 2] as u32)
        + 0x100_0000 * (bytes[off + 3] as u32)
}

/// A control register as the report gives it: the answer in bits 0 and 1, the
/// synchronisation state in bits 2 and 3, the automatic flip in bit 4.
pub open spec fn ctrl_report(ctrl: u8) -> u32 {
    ((ctrl & 0x03) + 4 * ((ctrl >> 3) & 0x03) + 16 * flag((ctrl >> 5) & 0x01 != 0)) as u32
}

/// Computes [`ctrl_report`], in the probed direction.
fn ctrl_summary(is_tx: bool, ctrl: u8) -> (r: u32)
    ensures
        r == ctrl_report(ctrl),
{
    if is_tx {
        (tx_ctrl_res(ctrl).to_bits() as u32) + 4 * (tx_ctrl_tog(ctrl).to_bits() as u32) + 16
            * bit_of(tx_ctrl_auto(ctrl))
    } else {
        (rx_ctrl_res(ctrl).to_bits() as u32) + 4 * (rx_ctrl_tog(ctrl).to_bits() as u32) + 16
            * bit_of(rx_ctrl_auto(ctrl))
    }
}

/// The report, word by word:
///
/// - 0: packets
/// - 1: toggle check of the first packet, 2: of the last one ([`NOT_SEEN`] if none)
/// - 3: the control register, see [`ctrl_report`]
/// - 4: length of the last packet
/// - 5 to 8: buffer A, bytes 0 to 3, bytes 4 to 7, byte 8, bytes 16 to 19
/// - 9 to 12: buffer B likewise
/// - 13: the endpoint
/// - 14: software flip in bit 0, automatic flip in bit 1, IN direction in bit 2
/// - 15: the buffer mode bit of the endpoint
pub open spec fn report_words(
    p: Probe,
    a: Seq<u8>,
    b: Seq<u8>,
    ctrl: u8,
    buf_mod: u32,
) -> Seq<u32> {
    let valid = probe_ep(p.ep as int);
    seq![
        p.count,
        p.first_tog_ok,
        p.last_tog_ok,
        if valid {
            ctrl_report(ctrl)
        } else {
            0
        },
        p.last_len,
        le_word(a, 0),
        le_word(a, 4),
        a[8] as u32,
        le_word(a, 16),
        le_word(b, 0),
        le_word(b, 4),
        b[8] as u32,
        le_word(b, 16),
        p.ep,
        (flag(p.flip) + 2 * flag(p.auto_tog) + 4 * flag(p.is_tx)) as u32,
        if valid {
            flag((buf_mod >> p.ep) & 0x01 != 0)
        } else {
            0
        },
    ]
}

/// The report, given both buffers, the control register of the probed direction and
/// the buffer mode register. The two registers matter only while an endpoint is set.
#[verifier::rlimit(40)]
pub fn report(p: &Probe, a: &[u8; 512], b: &[u8; 512], ctrl: u8, buf_mod: u32) -> (r: [u32; 16])
    ensures
        r@ == report_words(*p, a@, b@, ctrl, buf_mod),
{
    let ep: usize = p.ep as usize;
    let mut out: [u32; 16] = [0u32;16];
    out[0] = p.count;
    out[1] = p.first_tog_ok;
    out[2] = p.last_tog_ok;
    out[4] = p.last_len;
    out[5] = rd_u32(a, 0);
    out[6] = rd_u32(a, 4);
    out[7] = a[8] as u32;
    out[8] = rd_u32(a, 16);
    out[9] = rd_u32(b, 0);
    out[10] = rd_u32(b, 4);
    out[11] = b[8] as u32;
    out[12] = rd_u32(b, 16);
    out[13] = p.ep;
    out[14] = bit_of(p.flip) + 2 * bit_of(p.auto_tog) + 4 * bit_of(p.is_tx);
    if ep != 0 && ep < EP_N {
        out[3] = ctrl_summary(p.is_tx, ctrl);
        out[15] = bit_of(buf_mod_get(buf_mod, ep));
    }
    assert(out@ =~= report_words(*p, a@, b@, ctrl, buf_mod));
    out
}

/// Computes [`flag`].
fn bit_of(b: bool) -> (r: u32)
    ensures
        r == flag(b),
{
    if b {
        1
    } else {
        0
    }
}

} // verus!
