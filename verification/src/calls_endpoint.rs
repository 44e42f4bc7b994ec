//! Laws over single calls on an endpoint.

use vstd::prelude::*;

use crate::address::addr_index;
use crate::calls::{
    appended, counts_kept, grew, lemma_appended, lemma_others_untouched, only_out_side,
    others_untouched, settings_kept,
};
use crate::calls_hw::{lemma_len_value, lemma_rewritten_value, rewritten};
use crate::calls_registry::can_attach;
use crate::calls_rx::{lemma_resumed, rx_line, started_if_idle};
use crate::endpoint::{opened_ops, Endpoint, EndpointError, EndpointInfo, EndpointType, Path};
use crate::hw::{CtrlChange, HwOp};
use crate::laws_rx::rx_packets;
use crate::pipe::{init_rx, init_tx, Pipes, RxBuf, RxGrant, TxBuf, TxPipe};
use crate::regs::{lemma_after_short, RegFile};

verus! {

/// The number in an endpoint address is what is left without the direction bit.
pub open spec fn number_of(addr: u8) -> int {
    (addr % 128) as int
}

/// An endpoint address names an IN endpoint: the direction bit is set.
pub open spec fn is_in_addr(addr: u8) -> bool {
    addr >= 128
}

proof fn lemma_addr(addr: u8)
    by (bit_vector)
    ensures
        addr & 0x7f == addr % 128,
        addr & 0x80 != 0 <==> addr >= 128,
{
}

proof fn lemma_status(fg: u8, st: u8)
    by (bit_vector)
    ensures
        (fg >> 1) & 1 == (fg / 2) % 2,
        st & 0x0f == st % 16,
        (st >> 4) & 3 == (st / 16) % 4,
{
}

/// Opening an endpoint writes its packet size first. A data endpoint with packets of at
/// most 512 bytes gets a queue where the pool can be attached, and that is what attaching
/// it in the endpoint's direction does. Any other data endpoint has its own direction's
/// address register pointed at the single buffer. A control endpoint gets neither.
#[verifier::rlimit(60)]
#[verifier::spinoff_prover]
pub proof fn law_open(
    p: &mut Pipes,
    info: EndpointInfo,
    data_max: u16,
    buffer: u32,
    slots: &[u32],
    log: &mut Vec<HwOp>,
    e: Endpoint,
    p2: &mut Pipes,
    log2: &mut Vec<HwOp>,
    ok: bool,
)
    requires
        old(p).wf(),
        number_of(info.addr) < 16,
        info.ep_type != EndpointType::Control ==> number_of(info.addr) >= 1,
        call_ensures(Endpoint::new, (p, info, data_max, buffer, slots, log), e),
        *old(p2) == *old(p),
        is_in_addr(info.addr) ==> call_ensures(
            init_tx,
            (p2, number_of(info.addr) as usize, slots, log2),
            ok,
        ),
        !is_in_addr(info.addr) ==> call_ensures(
            init_rx,
            (p2, number_of(info.addr) as usize, slots, log2),
            ok,
        ),
    ensures
        grew(old(log)@, final(log)@),
        e.info == info && e.data_max == data_max,
        e.ring == (info.ep_type != EndpointType::Control && info.max_packet_size <= 512
            && can_attach(old(p)@, number_of(info.addr) as usize, slots@)),
        e.ring ==> ok && final(p)@ == final(p2)@,
        !e.ring ==> final(p)@ == old(p)@,
        ({
            let index = number_of(info.addr);
            let ops = appended(old(log)@, final(log)@);
            &&& ops.len() >= 1 && ops[0] == HwOp::MaxLen {
                ep: index as usize,
                value: (info.max_packet_size % 2048) as u16,
            }
            &&& e.ring ==> ops.skip(1) == appended(old(log2)@, final(log2)@)
            &&& info.ep_type == EndpointType::Control ==> ops.len() == 1
            &&& !e.ring && info.ep_type != EndpointType::Control ==> ops.len() == 2 && ops[1] == (
            if is_in_addr(info.addr) {
                HwOp::TxDma { n: (index - 1) as usize, addr: buffer }
            } else {
                HwOp::RxDma { n: (index - 1) as usize, addr: buffer }
            })
        }),
{
    lemma_addr(info.addr);
    lemma_len_value(info.max_packet_size);
    let ops = opened_ops(old(p)@, info, buffer, slots@);
    lemma_appended(old(log)@, ops);
    if e.ring {
        let index = addr_index(info.addr);
        if is_in_addr(info.addr) {
            lemma_appended(old(log2)@, old(p)@.tx_attached_ops(index));
            assert(ops.skip(1) =~= old(p)@.tx_attached_ops(index));
        } else {
            let op = HwOp::BufMod { ep: index, on: false };
            assert(final(log2)@ =~= old(log2)@ + seq![op]);
            lemma_appended(old(log2)@, seq![op]);
            assert(ops.skip(1) =~= seq![op]);
        }
    }
}

proof fn lemma_config_bit(config: u32, k: usize)
    by (bit_vector)
    requires
        k < 32,
    ensures
        (config >> k) & 1 != 0 <==> (config >> k) & 1 == 1,
{
}

/// An endpoint is enabled by the configuration bit of its number, counted from bit 0 for
/// IN and from bit 16 for OUT.
pub proof fn law_is_enabled(e: &Endpoint, index: usize, config: u32, r: bool)
    requires
        1 <= number_of(e.info.addr) < 16,
        call_ensures(Endpoint::index, (e,), index),
        call_ensures(Endpoint::is_enabled, (e, config), r),
    ensures
        index == number_of(e.info.addr),
        is_in_addr(e.info.addr) ==> r == ((config >> index) & 1 == 1),
        !is_in_addr(e.info.addr) ==> r == ((config >> ((16 + index) as usize)) & 1 == 1),
{
    lemma_addr(e.info.addr);
    lemma_config_bit(config, index);
    lemma_config_bit(config, (16 + index) as usize);
}

/// The interrupt registers report the end of a transfer on endpoint `index`: flag bit 1 is
/// set, and the low four status bits name the endpoint.
pub open spec fn over(fg: u8, st: u8, index: int) -> bool {
    (fg / 2) % 2 == 1 && st % 16 == index
}

/// The token of a finished transfer: 0 is OUT, 2 is IN.
pub open spec fn token_of(st: u8) -> int {
    ((st / 16) % 4) as int
}

/// A single-buffered OUT transfer goes on until its end is reported. A packet that fits
/// the reader's buffer is copied out in full before anything else; one that does not is an
/// overflow, and another token means that the endpoint was disabled. At the end the
/// endpoint answers NAK and expects the other synchronisation state before the flag is
/// cleared, and transfer interrupts are enabled again last.
#[verifier::rlimit(60)]
#[verifier::spinoff_prover]
pub proof fn law_data_out(
    e: &Endpoint,
    fg: u8,
    st: u8,
    rx_len: u16,
    buf_len: usize,
    log: &mut Vec<HwOp>,
    r: Option<Result<usize, EndpointError>>,
    regs: RegFile,
)
    requires
        number_of(e.info.addr) < 16,
        call_ensures(Endpoint::data_out, (e, fg, st, rx_len, buf_len, log), r),
    ensures
        grew(old(log)@, final(log)@),
        ({
            let index = number_of(e.info.addr);
            let ops = appended(old(log)@, final(log)@);
            let copies = if r matches Some(Ok(_)) {
                1int
            } else {
                0int
            };
            &&& r is Some <==> over(fg, st, index)
            &&& r is None ==> ops.len() == 0
            &&& r matches Some(Ok(n)) ==> token_of(st) == 0 && n == rx_len && n <= buf_len && ops[0]
                == HwOp::ReadBuffer { len: n }
            &&& r matches Some(Err(x)) ==> if token_of(st) == 0 {
                x == EndpointError::BufferOverflow && rx_len > buf_len
            } else {
                x == EndpointError::Disabled
            }
            &&& r is Some ==> {
                let at_flag = regs.after_all(ops.take(copies + 1));
                &&& ops.len() == copies + 3
                &&& ops[copies + 1] == HwOp::IntFg { value: 2 }
                &&& ops[copies + 2] is IntEnModify
                &&& rewritten(
                    regs.rx_ctrl[index],
                    CtrlChange::Complete,
                    at_flag.rx_ctrl[index],
                )
                &&& others_untouched(regs, regs.after_all(ops), index)
                &&& at_flag.tx_ctrl == regs.tx_ctrl
            }
        }),
{
    lemma_addr(e.info.addr);
    lemma_status(fg, st);
    let index = number_of(e.info.addr);
    let ops = e.data_out_ops(fg, st, rx_len, buf_len);
    lemma_appended(old(log)@, ops);
    if r is Some {
        let copies = if r matches Some(Ok(_)) {
            1int
        } else {
            0int
        };
        let first = ops.take(copies + 1);
        lemma_after_short(regs, ops[0], ops[1], ops[1]);
        if copies == 1 {
            assert(first =~= seq![ops[0], ops[1]]);
        } else {
            assert(first =~= seq![ops[0]]);
        }
        lemma_rewritten_value(regs.rx_ctrl[index], CtrlChange::Complete);
        lemma_others_untouched(regs, ops, index);
    }
}

/// A single-buffered IN transfer goes on until its end is reported, and ends well with an
/// IN token alone. At the end the endpoint answers NAK and goes on with the other
/// synchronisation state before the flag is cleared, and transfer interrupts are enabled
/// again last.
pub proof fn law_data_in_transfer(
    e: &Endpoint,
    fg: u8,
    st: u8,
    log: &mut Vec<HwOp>,
    r: Option<Result<(), EndpointError>>,
    regs: RegFile,
)
    requires
        number_of(e.info.addr) < 16,
        call_ensures(Endpoint::data_in_transfer, (e, fg, st, log), r),
    ensures
        grew(old(log)@, final(log)@),
        ({
            let index = number_of(e.info.addr);
            let ops = appended(old(log)@, final(log)@);
            &&& r is Some <==> over(fg, st, index)
            &&& r is None ==> ops.len() == 0
            &&& r matches Some(Ok(())) ==> token_of(st) == 2
            &&& r matches Some(Err(x)) ==> token_of(st) != 2 && x == EndpointError::Disabled
            &&& r is Some ==> {
                let at_flag = regs.after_all(ops.take(1));
                &&& ops.len() == 3
                &&& ops[1] == HwOp::IntFg { value: 2 }
                &&& ops[2] is IntEnModify
                &&& rewritten(
                    regs.tx_ctrl[index],
                    CtrlChange::Complete,
                    at_flag.tx_ctrl[index],
                )
                &&& others_untouched(regs, regs.after_all(ops), index)
                &&& at_flag.rx_ctrl == regs.rx_ctrl
            }
        }),
{
    lemma_addr(e.info.addr);
    lemma_status(fg, st);
    let index = number_of(e.info.addr);
    let ops = e.data_in_ops(fg, st);
    lemma_appended(old(log)@, ops);
    if r is Some {
        lemma_after_short(regs, ops[0], ops[0], ops[0]);
        assert(ops.take(1) =~= seq![ops[0]]);
        lemma_rewritten_value(regs.tx_ctrl[index], CtrlChange::Complete);
        lemma_others_untouched(regs, ops, index);
    }
}

/// Bytes go into the single buffer, and their number into the length register after them,
/// exactly if they fit; else it is an overflow and nothing is done.
pub proof fn law_data_in_write_buffer(
    e: &Endpoint,
    len: usize,
    log: &mut Vec<HwOp>,
    r: Result<(), EndpointError>,
)
    requires
        number_of(e.info.addr) < 16,
        call_ensures(Endpoint::data_in_write_buffer, (e, len, log), r),
    ensures
        grew(old(log)@, final(log)@),
        r is Ok <==> len <= e.data_max,
        r matches Err(x) ==> x == EndpointError::BufferOverflow,
        ({
            let ops = appended(old(log)@, final(log)@);
            &&& r is Err ==> ops.len() == 0
            &&& r is Ok ==> ops.len() == 2 && ops[0] == (HwOp::WriteBuffer { len }) && ops[1]
                == HwOp::TLen {
                ep: number_of(e.info.addr) as usize,
                value: (len % 2048) as u16,
            }
        }),
{
    lemma_addr(e.info.addr);
    lemma_len_value(len as u16);
    let ops = final(log)@.skip(old(log)@.len() as int);
    assert(final(log)@ =~= old(log)@ + ops);
    lemma_appended(old(log)@, ops);
}

/// A read is refused on a disabled endpoint, and with a buffer that a full packet may not
/// fit. Else it goes over the queue where there is one; over the single buffer, the
/// endpoint answers ACK from then on.
pub proof fn law_read(
    e: &Endpoint,
    config: u32,
    buf_len: usize,
    log: &mut Vec<HwOp>,
    r: Result<Path, EndpointError>,
    enabled: bool,
    regs: RegFile,
)
    requires
        1 <= number_of(e.info.addr) < 16,
        call_ensures(Endpoint::is_enabled, (e, config), enabled),
        call_ensures(Endpoint::read, (e, config, buf_len, log), r),
    ensures
        grew(old(log)@, final(log)@),
        r == (Err::<Path, EndpointError>(EndpointError::Disabled)) <==> !enabled,
        r == (Err::<Path, EndpointError>(EndpointError::BufferOverflow)) <==> enabled && buf_len
            < e.data_max,
        r matches Ok(path) ==> (path == Path::Ring) == e.ring,
        ({
            let index = number_of(e.info.addr);
            let ops = appended(old(log)@, final(log)@);
            let end = regs.after_all(ops);
            &&& r != Ok::<Path, EndpointError>(Path::Single) ==> ops.len() == 0
            &&& r == Ok::<Path, EndpointError>(Path::Single) ==> ops.len() == 1 && rewritten(
                regs.rx_ctrl[index],
                CtrlChange::Ack,
                end.rx_ctrl[index],
            ) && end.tx_ctrl == regs.tx_ctrl && others_untouched(regs, end, index)
        }),
{
    lemma_addr(e.info.addr);
    let index = number_of(e.info.addr);
    let ops = final(log)@.skip(old(log)@.len() as int);
    assert(final(log)@ =~= old(log)@ + ops);
    lemma_appended(old(log)@, ops);
    if r == Ok::<Path, EndpointError>(Path::Single) {
        let op = HwOp::RxCtrlModify { ep: index as usize, change: CtrlChange::Ack };
        assert(ops =~= seq![op]);
        lemma_after_short(regs, op, op, op);
        lemma_rewritten_value(regs.rx_ctrl[index], CtrlChange::Ack);
        lemma_others_untouched(regs, ops, index);
    }
}

/// A write is refused on a disabled endpoint, and if it is longer than a packet. Else it
/// goes over the queue where there is one; over the single buffer, the bytes and then their
/// number are put in place before the endpoint answers ACK.
pub proof fn law_write(
    e: &Endpoint,
    config: u32,
    len: usize,
    log: &mut Vec<HwOp>,
    r: Result<Path, EndpointError>,
    enabled: bool,
    regs: RegFile,
)
    requires
        1 <= number_of(e.info.addr) < 16,
        call_ensures(Endpoint::is_enabled, (e, config), enabled),
        call_ensures(Endpoint::write, (e, config, len, log), r),
    ensures
        grew(old(log)@, final(log)@),
        r == (Err::<Path, EndpointError>(EndpointError::Disabled)) <==> !enabled,
        r == (Err::<Path, EndpointError>(EndpointError::BufferOverflow)) <==> enabled && len
            > e.data_max,
        r matches Ok(path) ==> (path == Path::Ring) == e.ring,
        ({
            let index = number_of(e.info.addr);
            let ops = appended(old(log)@, final(log)@);
            let end = regs.after_all(ops);
            &&& r != Ok::<Path, EndpointError>(Path::Single) ==> ops.len() == 0
            &&& r == Ok::<Path, EndpointError>(Path::Single) ==> {
                &&& ops.len() == 3 && ops[0] == (HwOp::WriteBuffer { len })
                &&& ops[2] is TxCtrlModify
                &&& end.t_len[index] == len % 2048
                &&& rewritten(regs.tx_ctrl[index], CtrlChange::Ack, end.tx_ctrl[index])
                &&& end.rx_ctrl == regs.rx_ctrl
                &&& others_untouched(regs, end, index)
            }
        }),
{
    lemma_addr(e.info.addr);
    let index = number_of(e.info.addr);
    let ops = final(log)@.skip(old(log)@.len() as int);
    assert(final(log)@ =~= old(log)@ + ops);
    lemma_appended(old(log)@, ops);
    if r == Ok::<Path, EndpointError>(Path::Single) {
        lemma_len_value(len as u16);
        assert(ops =~= seq![ops[0], ops[1], ops[2]]);
        lemma_after_short(regs, ops[0], ops[1], ops[2]);
        lemma_rewritten_value(regs.tx_ctrl[index], CtrlChange::Ack);
        lemma_others_untouched(regs, ops, index);
    }
}

/// A read over the queue hands out the packet that has waited longest, with its length and
/// the address of its slot, if and only if one waits, and starts an idle endpoint either
/// way.
pub proof fn law_read_ring(
    e: &Endpoint,
    p: &mut Pipes,
    log: &mut Vec<HwOp>,
    got: Option<RxGrant>,
    regs: RegFile,
)
    requires
        old(p).wf(),
        1 <= number_of(e.info.addr) < 16,
        call_ensures(Endpoint::read_ring, (e, p, log), got),
    ensures
        grew(old(log)@, final(log)@),
        settings_kept(old(p)@, final(p)@),
        counts_kept(old(p)@, final(p)@),
        only_out_side(old(p)@, final(p)@, number_of(e.info.addr)),
        ({
            let index = number_of(e.info.addr);
            let s = old(p)@.rx[index];
            let q = final(p)@.rx[index];
            let ops = appended(old(log)@, final(log)@);
            &&& got is Some <==> s.ready.len() > 0
            &&& rx_line(q) == rx_line(s)
            &&& started_if_idle(s, q, ops, index, regs)
            &&& got is None ==> q.ready == s.ready
            &&& got matches Some(g) ==> {
                &&& rx_packets(s) == seq![(g.spec_slot(), g.spec_len())] + rx_packets(q)
                &&& g.spec_ep() == index
                &&& g.spec_addr() == s.addrs[g.spec_slot() as int]
                &&& g.wf()
            }
        }),
{
    lemma_addr(e.info.addr);
    let index = number_of(e.info.addr);
    let s = old(p)@.rx[index];
    let q = final(p)@.rx[index];
    lemma_appended(old(log)@, s.resumed_ops(index as usize));
    lemma_resumed(s, index as usize, regs);
    if got is Some {
        let g = got->0;
        assert(rx_line(q) =~= rx_line(s));
        assert(rx_packets(s) =~= seq![(g.spec_slot(), g.spec_len())] + rx_packets(q));
    }
}

/// Of a packet, as many bytes are copied as both it and the reader's buffer have, from the
/// front, and the rest of the buffer stays.
pub proof fn law_copy_packet(packet: &RxBuf<'_>, out: &mut [u8], r: usize, n: usize)
    requires
        packet.spec_len() <= packet.memory().len(),
        call_ensures(Endpoint::copy_packet, (packet, out), r),
        call_ensures(Endpoint::copy_len, (packet.spec_len(), old(out)@.len() as usize), n),
    ensures
        old(out)@.len() <= usize::MAX ==> r == n,
        r <= packet.spec_len() && r <= old(out)@.len(),
        r == packet.spec_len() || r == old(out)@.len(),
        final(out)@.len() == old(out)@.len(),
        forall|i: int| 0 <= i < r ==> final(out)@[i] == packet.memory()[i],
        forall|i: int| r <= i < old(out)@.len() ==> final(out)@[i] == old(out)@[i],
{
}

/// A write over the queue fills the slot from the front with the bytes given and submits it
/// on this endpoint with their number.
pub proof fn law_write_ring(
    e: &Endpoint,
    p: &mut Pipes,
    buf: TxBuf<'_>,
    data: &[u8],
    log: &mut Vec<HwOp>,
    t: &TxPipe,
    p2: &mut Pipes,
    buf2: TxBuf<'_>,
    log2: &mut Vec<HwOp>,
)
    requires
        old(p).wf(),
        buf.wf(),
        1 <= number_of(e.info.addr) < 16,
        data@.len() <= buf.bytes().len(),
        data@.len() <= 0xFFFF,
        call_ensures(Endpoint::write_ring, (e, p, buf, data, log), ()),
        t.index == number_of(e.info.addr),
        *old(p2) == *old(p),
        buf2.grant == buf.grant,
        call_ensures(TxPipe::submit, (t, p2, buf2, data@.len() as u16, log2), ()),
    ensures
        final(p)@ == final(p2)@,
        grew(old(log)@, final(log)@),
        appended(old(log)@, final(log)@) == appended(old(log2)@, final(log2)@),
        final(buf.data)@.len() == buf.bytes().len(),
        forall|i: int| 0 <= i < data@.len() ==> final(buf.data)@[i] == data@[i],
        forall|i: int|
            data@.len() <= i < buf.bytes().len() ==> final(buf.data)@[i] == buf.bytes()[i],
{
    lemma_addr(e.info.addr);
    let ops = old(p)@.tx_submitted_ops(t.index, buf.spec_slot(), data@.len() as u16);
    lemma_appended(old(log)@, ops);
    lemma_appended(old(log2)@, ops);
}

} // verus!
