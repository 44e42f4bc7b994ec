//! Laws over single calls on the buffer-mode probe.

use vstd::prelude::*;

use crate::bufmap::{active, note, on_in, on_out, report, start, start_ops, stop, Probe};
use crate::calls::{
    appended, grew, lemma_appended, lemma_others_untouched, one_up, others_untouched,
};
use crate::calls_hw::{ctrl_fields, lemma_ctrl_value, lemma_len_value};
use crate::calls_registry::{lemma_one_started_over, one_started_over};
use crate::hw::{Bank, HwOp};
use crate::pipe::Pipes;
use crate::regs::{lemma_after_all_add, lemma_after_short, RegFile};

verus! {

/// A probe that has not been started: it has no endpoint and has seen no packet. Whether it
/// can be started is as asked.
pub proof fn law_new_probe(enable: bool, p: Probe)
    requires
        call_ensures(Probe::new, (enable,), p),
    ensures
        p.enable == enable && !p.active && p.ep == 0,
        !p.is_tx && !p.flip && !p.auto_tog,
        p.count == 0 && p.last_len == 0,
        p.first_tog_ok == 0xFFFF_FFFF && p.last_tog_ok == 0xFFFF_FFFF,
{
}

/// The probe has one endpoint at most: the one it was started on, until it is stopped.
pub proof fn law_active(p: &Probe, ep: usize, r: bool)
    requires
        call_ensures(active, (p, ep), r),
    ensures
        r ==> p.active && ep == p.ep,
        !r ==> !p.active || ep != p.ep,
{
}

/// A buffer of the probe is filled with this byte at this place of the log.
pub open spec fn fills(op: HwOp, bank: Bank, value: u8) -> bool {
    op == HwOp::Fill { bank, value }
}

/// Starting the probe works on a data endpoint if the probe is enabled, and else changes
/// nothing. It forgets all packets, remembers what was asked for, sets packets of 512 bytes
/// and double buffering, marks both buffers, hangs buffer A into the address register of
/// the probed direction and buffer B into the other, and last lets the endpoint answer ACK
/// from DATA0 on.
#[verifier::rlimit(60)]
#[verifier::spinoff_prover]
pub proof fn law_start(
    p: &mut Probe,
    ep: usize,
    tx: bool,
    flip: bool,
    auto_tog: bool,
    addr_a: u32,
    addr_b: u32,
    log: &mut Vec<HwOp>,
    ok: bool,
    regs: RegFile,
)
    requires
        call_ensures(start, (p, ep, tx, flip, auto_tog, addr_a, addr_b, log), ok),
    ensures
        ok == (old(p).enable && 1 <= ep <= 15),
        !ok ==> *final(p) == *old(p) && final(log)@ == old(log)@,
        ok ==> {
            let q = *final(p);
            let ops = appended(old(log)@, final(log)@);
            let end = regs.after_all(ops);
            &&& grew(old(log)@, final(log)@)
            &&& q.enable && q.active && q.ep == ep
            &&& q.is_tx == tx && q.flip == flip && q.auto_tog == auto_tog
            &&& q.count == 0 && q.last_len == 0
            &&& q.first_tog_ok == 0xFFFF_FFFF && q.last_tog_ok == 0xFFFF_FFFF
            &&& end.max_len[ep as int] == 512
            &&& end.buf_mod.contains(ep as int)
            &&& fills(ops[2], Bank::A, if tx {
                0xA1u8
            } else {
                0xA5u8
            })
            &&& fills(ops[3], Bank::B, if tx {
                0xB1u8
            } else {
                0x5Au8
            })
            &&& tx ==> {
                &&& end.tx_dma[ep - 1] == addr_a && end.rx_dma[ep - 1] == addr_b
                &&& end.t_len[ep as int] == 512
                &&& ctrl_fields(end.tx_ctrl[ep as int], false, true, auto_tog)
                &&& end.rx_ctrl == regs.rx_ctrl
                &&& ops.len() == 8 && ops.last() is TxCtrl
            }
            &&& !tx ==> {
                &&& end.rx_dma[ep - 1] == addr_a && end.tx_dma[ep - 1] == addr_b
                &&& ctrl_fields(end.rx_ctrl[ep as int], false, true, auto_tog)
                &&& end.tx_ctrl == regs.tx_ctrl && end.t_len == regs.t_len
                &&& ops.len() == 7 && ops.last() is RxCtrl
            }
            &&& others_untouched(regs, end, ep as int)
        },
{
    if ok {
        let ops = start_ops(ep, tx, auto_tog, addr_a, addr_b);
        lemma_appended(old(log)@, ops);
        lemma_len_value(512);
        lemma_ctrl_value(false, true, auto_tog);
        lemma_others_untouched(regs, ops, ep as int);
        let a = ops.take(3);
        let b = ops.skip(3).take(2);
        let c = ops.skip(5);
        assert(ops =~= a + b + c);
        lemma_after_all_add(regs, a + b, c);
        lemma_after_all_add(regs, a, b);
        let r1 = regs.after_all(a);
        let r2 = r1.after_all(b);
        assert(a =~= seq![ops[0], ops[1], ops[2]]);
        assert(b =~= seq![ops[3], ops[4]]);
        lemma_after_short(regs, ops[0], ops[1], ops[2]);
        lemma_after_short(r1, ops[3], ops[4], ops[4]);
        if tx {
            assert(c =~= seq![ops[5], ops[6], ops[7]]);
            lemma_after_short(r2, ops[5], ops[6], ops[7]);
        } else {
            assert(c =~= seq![ops[5], ops[6]]);
            lemma_after_short(r2, ops[5], ops[6], ops[6]);
        }
    }
}

/// A packet was counted: the number goes up, the length and the toggle check are the last
/// ones, and the check of the first packet is kept. What was asked for stays.
pub open spec fn counted(p: Probe, q: Probe, tog_ok: bool, len: u16) -> bool {
    &&& one_up(p.count, q.count)
    &&& (q.last_tog_ok == 1) == tog_ok && q.last_tog_ok <= 1
    &&& q.last_len == len
    &&& p.count == 0 ==> q.first_tog_ok == q.last_tog_ok
    &&& p.count != 0 ==> q.first_tog_ok == p.first_tog_ok
    &&& (q.enable, q.active, q.ep, q.is_tx, q.flip, q.auto_tog) == (
        p.enable,
        p.active,
        p.ep,
        p.is_tx,
        p.flip,
        p.auto_tog,
    )
}

/// Noting a packet counts it.
pub proof fn law_note(p: &mut Probe, tog_ok: bool, len: u16)
    requires
        call_ensures(note, (p, tog_ok, len), ()),
    ensures
        counted(*old(p), *final(p), tog_ok, len),
{
}

proof fn lemma_tog_field(ctrl: u8)
    by (bit_vector)
    ensures
        (ctrl >> 3) & 0x03 == (ctrl / 8) % 4,
{
}

/// An OUT packet on the probed endpoint is counted with its length, and the flag is cleared
/// last. If the software flips, the endpoint goes on with ACK, without the automatic flip,
/// from DATA0 to DATA1 or from anything else to DATA0. Nothing else is written.
pub proof fn law_probe_on_out(
    p: &mut Probe,
    ep: usize,
    tog_ok: bool,
    len: u16,
    ctrl: u8,
    log: &mut Vec<HwOp>,
)
    requires
        call_ensures(on_out, (p, ep, tog_ok, len, ctrl, log), ()),
    ensures
        grew(old(log)@, final(log)@),
        counted(*old(p), *final(p), tog_ok, len),
        ({
            let ops = appended(old(log)@, final(log)@);
            &&& ops.last() == HwOp::IntFg { value: 2 }
            &&& !old(p).flip ==> ops.len() == 1
            &&& old(p).flip ==> ops.len() == 2 && match ops[0] {
                HwOp::RxCtrl { ep: e, value } => e == ep && ctrl_fields(
                    value,
                    (ctrl / 8) % 4 == 0,
                    true,
                    false,
                ),
                _ => false,
            }
        }),
{
    let ops = final(log)@.skip(old(log)@.len() as int);
    assert(final(log)@ =~= old(log)@ + ops);
    lemma_appended(old(log)@, ops);
    lemma_tog_field(ctrl);
    lemma_ctrl_value((ctrl / 8) % 4 == 0, true, false);
}

/// An IN packet on the probed endpoint is counted with 512 bytes, and the flag is cleared
/// last. If the software flips, the endpoint goes on as on the OUT side.
pub proof fn law_probe_on_in(
    p: &mut Probe,
    ep: usize,
    tog_ok: bool,
    ctrl: u8,
    log: &mut Vec<HwOp>,
)
    requires
        call_ensures(on_in, (p, ep, tog_ok, ctrl, log), ()),
    ensures
        grew(old(log)@, final(log)@),
        counted(*old(p), *final(p), tog_ok, 512),
        ({
            let ops = appended(old(log)@, final(log)@);
            &&& ops.last() == HwOp::IntFg { value: 2 }
            &&& !old(p).flip ==> ops.len() == 1
            &&& old(p).flip ==> ops.len() == 2 && match ops[0] {
                HwOp::TxCtrl { ep: e, value } => e == ep && ctrl_fields(
                    value,
                    (ctrl / 8) % 4 == 0,
                    true,
                    false,
                ),
                _ => false,
            }
        }),
{
    let ops = final(log)@.skip(old(log)@.len() as int);
    assert(final(log)@ =~= old(log)@ + ops);
    lemma_appended(old(log)@, ops);
    lemma_tog_field(ctrl);
    lemma_ctrl_value((ctrl / 8) % 4 == 0, true, false);
}

/// Stopping the probe lets its endpoint go and keeps what it has seen. A data endpoint is
/// switched to a single buffer, answers NAK in the probed direction, starts over in the
/// registry, and is named as the one to wake; of any other nothing is done.
pub proof fn law_stop(
    p: &mut Probe,
    pipes: &mut Pipes,
    log: &mut Vec<HwOp>,
    r: Option<usize>,
    regs: RegFile,
)
    requires
        old(pipes).wf(),
        call_ensures(stop, (p, pipes, log), r),
    ensures
        grew(old(log)@, final(log)@),
        !final(p).active,
        *final(p) == (Probe { active: final(p).active, ..*old(p) }),
        r is Some <==> 1 <= old(p).ep <= 15,
        r is None ==> final(pipes)@ == old(pipes)@ && final(log)@ == old(log)@,
        r matches Some(ep) ==> {
            let ops = appended(old(log)@, final(log)@);
            let end = regs.after_all(ops);
            &&& ep == old(p).ep
            &&& one_started_over(old(pipes)@, final(pipes)@, ep)
            &&& ops.len() == 2
            &&& !end.buf_mod.contains(ep as int)
            &&& old(p).is_tx ==> ctrl_fields(end.tx_ctrl[ep as int], false, false, false)
                && end.rx_ctrl == regs.rx_ctrl
            &&& !old(p).is_tx ==> ctrl_fields(end.rx_ctrl[ep as int], false, false, false)
                && end.tx_ctrl == regs.tx_ctrl
            &&& others_untouched(regs, end, ep as int)
        },
{
    let ops = final(log)@.skip(old(log)@.len() as int);
    assert(final(log)@ =~= old(log)@ + ops);
    lemma_appended(old(log)@, ops);
    if r is Some {
        lemma_one_started_over(old(pipes)@, r->0);
        lemma_ctrl_value(false, false, false);
        assert(ops =~= seq![ops[0], ops[1]]);
        lemma_after_short(regs, ops[0], ops[1], ops[1]);
        lemma_others_untouched(regs, ops, r->0 as int);
    }
}

/// Four bytes read as one number, the lowest first.
pub open spec fn number_at(bytes: Seq<u8>, off: int) -> int {
    bytes[off] + 256 * (bytes[off + 1] + 256 * (bytes[off + 2] + 256 * bytes[off + 3]))
}

proof fn lemma_ctrl_report(ctrl: u8, buf_mod: u32, k: u32)
    by (bit_vector)
    requires
        k < 16,
    ensures
        ctrl & 0x03 == ctrl % 4,
        (ctrl >> 3) & 0x03 == (ctrl / 8) % 4,
        (ctrl >> 5) & 0x01 == (ctrl / 32) % 2,
        (buf_mod >> k) & 0x01 != 0 <==> (buf_mod >> k) & 0x01 == 1,
{
}

/// The report tells what the probe has seen, what both buffers hold at their marks, and
/// what it was asked for; and, while it has a data endpoint, the answer, the
/// synchronisation state and the automatic flip in the control register, and the buffer
/// mode of the endpoint.
#[verifier::rlimit(60)]
#[verifier::spinoff_prover]
pub proof fn law_report(
    p: &Probe,
    a: &[u8; 512],
    b: &[u8; 512],
    ctrl: u8,
    buf_mod: u32,
    r: [u32; 16],
)
    requires
        call_ensures(report, (p, a, b, ctrl, buf_mod), r),
    ensures
        r@.len() == 16,
        r@[0] == p.count && r@[1] == p.first_tog_ok && r@[2] == p.last_tog_ok,
        r@[4] == p.last_len && r@[13] == p.ep,
        r@[5] == number_at(a@, 0) && r@[6] == number_at(a@, 4) && r@[8] == number_at(a@, 16),
        r@[7] == a@[8] && r@[11] == b@[8],
        r@[9] == number_at(b@, 0) && r@[10] == number_at(b@, 4) && r@[12] == number_at(b@, 16),
        r@[14] < 8,
        r@[14] % 2 == 1 <==> p.flip,
        (r@[14] / 2) % 2 == 1 <==> p.auto_tog,
        r@[14] / 4 == 1 <==> p.is_tx,
        1 <= p.ep <= 15 ==> {
            &&& r@[3] < 32
            &&& r@[3] % 4 == ctrl % 4
            &&& (r@[3] / 4) % 4 == (ctrl / 8) % 4
            &&& r@[3] / 16 == (ctrl / 32) % 2
            &&& r@[15] <= 1
            &&& (r@[15] == 1) == ((buf_mod >> p.ep) & 1 == 1)
        },
        !(1 <= p.ep <= 15) ==> r@[3] == 0 && r@[15] == 0,
{
    if 1 <= p.ep <= 15 {
        lemma_ctrl_report(ctrl, buf_mod, p.ep);
    }
}

} // verus!
