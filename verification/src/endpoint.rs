//! Packet transfer on one endpoint, over a queue or over a single buffer.

use vstd::prelude::*;

use crate::address::{addr_direction, addr_index, address_direction, address_index, Direction};
use crate::hw::{
    clear_transfer, len_value, len_word, set_rx_dma, set_t_len, CtrlChange, HwOp, EP_N,
    TRANSFER_FLAG,
};
use crate::pac::{
    ep_config_r_en, ep_config_t_en, int_fg_transfer, int_st_endp, int_st_token, Token,
};
use crate::pipe::{
    init_rx, init_tx, resume_rx, Pipes, PipesState, RxBuf, RxGrant, RxPipe, TxBuf, TxPipe,
};

verus! {

/// Largest packet that travels over a queue.
pub const RING_PACKET: u16 = 512;

/// Transfer type of an endpoint.
#[derive(Clone, Copy, Debug, PartialEq, Eq, Structural)]
pub enum EndpointType {
    Control,
    Isochronous,
    Bulk,
    Interrupt,
}

/// Why a transfer failed.
#[derive(Clone, Copy, Debug, PartialEq, Eq, Structural)]
pub enum EndpointError {
    /// The packet does not fit.
    BufferOverflow,
    /// The endpoint is disabled.
    Disabled,
}

/// Description of an endpoint.
#[derive(Clone, Copy, Debug, PartialEq, Eq, Structural)]
pub struct EndpointInfo {
    /// Number and direction.
    pub addr: u8,
    pub ep_type: EndpointType,
    /// Largest packet in bytes.
    pub max_packet_size: u16,
    /// Polling interval in milliseconds.
    pub interval_ms: u8,
}

/// How a transfer that was let through goes on.
#[derive(Clone, Copy, Debug, PartialEq, Eq, Structural)]
pub enum Path {
    /// Over the queue.
    Ring,
    /// Over the single buffer, once the peripheral reports the end of the transfer.
    Single,
}

/// One endpoint.
pub struct Endpoint {
    pub info: EndpointInfo,
    /// Size of the single buffer.
    pub data_max: u16,
    /// Packets travel over a queue.
    pub ring: bool,
}

/// A new endpoint gets a queue: it is a data endpoint, its packets fit a slot, and the
/// pool can be attached.
pub open spec fn gets_ring(p: PipesState, info: EndpointInfo, pool: nat) -> bool {
    &&& info.ep_type != EndpointType::Control
    &&& info.max_packet_size <= RING_PACKET
    &&& p.attachable(addr_index(info.addr), pool)
}

/// The registry after an endpoint was opened.
pub open spec fn opened(p: PipesState, info: EndpointInfo, slots: Seq<u32>) -> PipesState {
    let index = addr_index(info.addr);
    if !gets_ring(p, info, slots.len()) {
        p
    } else if addr_direction(info.addr) == Direction::In {
        p.tx_attached(index, slots)
    } else {
        p.rx_attached(index, slots)
    }
}

/// The register writes when an endpoint is opened: its packet size, and for a data
/// endpoint either the mode of its queue or the address of its single buffer.
pub open spec fn opened_ops(
    p: PipesState,
    info: EndpointInfo,
    buffer: u32,
    slots: Seq<u32>,
) -> Seq<HwOp> {
    let index = addr_index(info.addr);
    let dir_in = addr_direction(info.addr) == Direction::In;
    let size = seq![HwOp::MaxLen { ep: index, value: len_value(info.max_packet_size) }];
    size + if info.ep_type == EndpointType::Control {
        Seq::empty()
    } else if gets_ring(p, info, slots.len()) {
        if dir_in {
            p.tx_attached_ops(index)
        } else {
            seq![HwOp::BufMod { ep: index, on: false }]
        }
    } else if dir_in {
        seq![HwOp::TxDma { n: (index - 1) as usize, addr: buffer }]
    } else {
        seq![HwOp::RxDma { n: (index - 1) as usize, addr: buffer }]
    }
}

/// The flags report the end of a transfer on endpoint `index`.
pub open spec fn transfer_done(fg: u8, st: u8, index: usize) -> bool {
    (fg >> 1) & 1 != 0 && st & 0x0f == index
}

/// The token of a finished transfer, as its field value: 0 is OUT, 2 is IN.
pub open spec fn done_token(st: u8) -> u8 {
    (st >> 4) & 3
}

/// Copies the first `n` bytes of `from` to the front of `to`.
fn copy_front(from: &[u8], n: usize, to: &mut [u8])
    requires
        n <= from@.len(),
        n <= old(to)@.len(),
    ensures
        final(to)@ == from@.take(n as int) + old(to)@.skip(n as int),
{
    let mut i: usize = 0;
    while i < n
        invariant
            i <= n <= from@.len(),
            n <= to@.len(),
            to@.len() == old(to)@.len(),
            forall|j: int| 0 <= j < i ==> to@[j] == from@[j],
            forall|j: int| i <= j < to@.len() ==> to@[j] == old(to)@[j],
        decreases n - i,
    {
        to[i] = from[i];
        i = i + 1;
    }
    assert(to@ =~= from@.take(n as int) + old(to)@.skip(n as int));
}

impl Endpoint {
    /// The endpoint number.
    pub open spec fn spec_index(&self) -> usize {
        addr_index(self.info.addr)
    }

    /// The direction.
    pub open spec fn spec_direction(&self) -> Direction {
        addr_direction(self.info.addr)
    }

    /// The endpoint number.
    pub fn index(&self) -> (r: usize)
        ensures
            r == self.spec_index(),
    {
        address_index(self.info.addr)
    }

    /// Opens an endpoint: over a queue on `slots` where it can get one, else over the
    /// single buffer of `data_max` bytes at `buffer`.
    pub fn new(
        p: &mut Pipes,
        info: EndpointInfo,
        data_max: u16,
        buffer: u32,
        slots: &[u32],
        log: &mut Vec<HwOp>,
    ) -> (r: Self)
        requires
            old(p).wf(),
            addr_index(info.addr) < EP_N,
            info.ep_type != EndpointType::Control ==> addr_index(info.addr) >= 1,
        ensures
            final(p).wf(),
            r.info == info,
            r.data_max == data_max,
            r.ring == gets_ring(old(p)@, info, slots@.len()),
            final(p)@ == opened(old(p)@, info, slots@),
            final(log)@ == old(log)@ + opened_ops(old(p)@, info, buffer, slots@),
    {
        let index: usize = address_index(info.addr);
        log.push(HwOp::MaxLen { ep: index, value: len_word(info.max_packet_size) });
        let mut ring = false;
        if info.ep_type != EndpointType::Control {
            let dir = address_direction(info.addr);
            if info.max_packet_size <= RING_PACKET {
                ring = match dir {
                    Direction::In => init_tx(p, index, slots, log),
                    Direction::Out => init_rx(p, index, slots, log),
                };
            }
            if !ring {
                match dir {
                    Direction::Out => {
                        set_rx_dma(index, buffer, log);
                    },
                    Direction::In => {
                        log.push(HwOp::TxDma { n: index - 1, addr: buffer });
                    },
                }
            }
        }
        assert(log@ =~= old(log)@ + opened_ops(old(p)@, info, buffer, slots@));
        Endpoint { info, data_max, ring }
    }

    /// The endpoint configuration word enables this endpoint: bit `index` for IN, bit
    /// `16 + index` for OUT.
    pub open spec fn enabled_in(&self, config: u32) -> bool {
        let index = self.spec_index();
        if self.spec_direction() == Direction::Out {
            (config >> ((16 + index) as usize)) & 1 != 0
        } else {
            (config >> index) & 1 != 0
        }
    }

    /// Whether the endpoint configuration word enables this endpoint.
    pub fn is_enabled(&self, config: u32) -> (r: bool)
        requires
            1 <= self.spec_index() < EP_N,
        ensures
            r == self.enabled_in(config),
    {
        let n: usize = self.index() - 1;
        match address_direction(self.info.addr) {
            Direction::Out => ep_config_r_en(config, n),
            Direction::In => ep_config_t_en(config, n),
        }
    }

    /// The actions that end a single-buffered OUT transfer.
    pub open spec fn data_out_ops(
        &self,
        fg: u8,
        st: u8,
        rx_len: u16,
        buf_len: usize,
    ) -> Seq<HwOp> {
        let tail = seq![
            HwOp::RxCtrlModify { ep: self.spec_index(), change: CtrlChange::Complete },
            HwOp::IntFg { value: TRANSFER_FLAG },
            HwOp::IntEnModify,
        ];
        if !transfer_done(fg, st, self.spec_index()) {
            Seq::empty()
        } else if done_token(st) == 0 && rx_len <= buf_len {
            seq![HwOp::ReadBuffer { len: rx_len as usize }] + tail
        } else {
            tail
        }
    }

    /// Polls a single-buffered OUT transfer, given the interrupt flags, the interrupt
    /// status, the received length and the size of the caller's buffer. `None` while
    /// the transfer goes on.
    pub fn data_out(&self, fg: u8, st: u8, rx_len: u16, buf_len: usize, log: &mut Vec<HwOp>) -> (r:
        Option<Result<usize, EndpointError>>)
        ensures
            r == (if !transfer_done(fg, st, self.spec_index()) {
                None::<Result<usize, EndpointError>>
            } else if done_token(st) != 0 {
                Some(Err(EndpointError::Disabled))
            } else if rx_len <= buf_len {
                Some(Ok(rx_len as usize))
            } else {
                Some(Err(EndpointError::BufferOverflow))
            }),
            final(log)@ == old(log)@ + self.data_out_ops(fg, st, rx_len, buf_len),
    {
        let index: usize = self.index();
        if int_fg_transfer(fg) && int_st_endp(st) as usize == index {
            let len: usize = rx_len as usize;
            let res = match int_st_token(st) {
                Token::Out => {
                    if len <= buf_len {
                        log.push(HwOp::ReadBuffer { len });
                        Ok(len)
                    } else {
                        Err(EndpointError::BufferOverflow)
                    }
                },
                _ => Err(EndpointError::Disabled),
            };
            log.push(HwOp::RxCtrlModify { ep: index, change: CtrlChange::Complete });
            clear_transfer(log);
            log.push(HwOp::IntEnModify);
            assert(log@ =~= old(log)@ + self.data_out_ops(fg, st, rx_len, buf_len));
            Some(res)
        } else {
            assert(log@ =~= old(log)@ + self.data_out_ops(fg, st, rx_len, buf_len));
            None
        }
    }

    /// Puts `len` bytes into the single buffer of an IN endpoint.
    pub fn data_in_write_buffer(&self, len: usize, log: &mut Vec<HwOp>) -> (r: Result<
        (),
        EndpointError,
    >)
        requires
            self.spec_index() < EP_N,
        ensures
            r == (if len > self.data_max {
                Err(EndpointError::BufferOverflow)
            } else {
                Ok::<(), EndpointError>(())
            }),
            len > self.data_max ==> final(log)@ == old(log)@,
            len <= self.data_max ==> final(log)@ == old(log)@ + seq![
                HwOp::WriteBuffer { len },
                HwOp::TLen { ep: self.spec_index(), value: len_value(len as u16) },
            ],
    {
        if len > self.data_max as usize {
            return Err(EndpointError::BufferOverflow);
        }
        log.push(HwOp::WriteBuffer { len });
        set_t_len(self.index(), len as u16, log);
        assert(log@ =~= old(log)@ + seq![
            HwOp::WriteBuffer { len },
            HwOp::TLen { ep: self.spec_index(), value: len_value(len as u16) },
        ]);
        Ok(())
    }

    /// The actions that end a single-buffered IN transfer.
    pub open spec fn data_in_ops(&self, fg: u8, st: u8) -> Seq<HwOp> {
        if transfer_done(fg, st, self.spec_index()) {
            seq![
                HwOp::TxCtrlModify { ep: self.spec_index(), change: CtrlChange::Complete },
                HwOp::IntFg { value: TRANSFER_FLAG },
                HwOp::IntEnModify,
            ]
        } else {
            Seq::empty()
        }
    }

    /// Polls a single-buffered IN transfer, given the interrupt flags and the interrupt
    /// status. `None` while the transfer goes on.
    pub fn data_in_transfer(&self, fg: u8, st: u8, log: &mut Vec<HwOp>) -> (r: Option<
        Result<(), EndpointError>,
    >)
        ensures
            r == (if !transfer_done(fg, st, self.spec_index()) {
                None::<Result<(), EndpointError>>
            } else if done_token(st) == 2 {
                Some(Ok(()))
            } else {
                Some(Err(EndpointError::Disabled))
            }),
            final(log)@ == old(log)@ + self.data_in_ops(fg, st),
    {
        let index: usize = self.index();
        if int_fg_transfer(fg) && int_st_endp(st) as usize == index {
            let res = match int_st_token(st) {
                Token::In => Ok(()),
                _ => Err(EndpointError::Disabled),
            };
            log.push(HwOp::TxCtrlModify { ep: index, change: CtrlChange::Complete });
            clear_transfer(log);
            log.push(HwOp::IntEnModify);
            assert(log@ =~= old(log)@ + self.data_in_ops(fg, st));
            Some(res)
        } else {
            assert(log@ =~= old(log)@ + self.data_in_ops(fg, st));
            None
        }
    }

    /// Begins a read into `buf_len` bytes, given the endpoint configuration word. The
    /// buffer has to take a full packet. On the single buffer, the endpoint answers ACK
    /// from here on.
    pub fn read(&self, config: u32, buf_len: usize, log: &mut Vec<HwOp>) -> (r: Result<
        Path,
        EndpointError,
    >)
        requires
            1 <= self.spec_index() < EP_N,
        ensures
            r == (if !self.enabled_in(config) {
                Err(EndpointError::Disabled)
            } else if buf_len < self.data_max {
                Err(EndpointError::BufferOverflow)
            } else if self.ring {
                Ok(Path::Ring)
            } else {
                Ok::<Path, EndpointError>(Path::Single)
            }),
            final(log)@ == (if r == Ok::<Path, EndpointError>(Path::Single) {
                old(log)@.push(
                    HwOp::RxCtrlModify { ep: self.spec_index(), change: CtrlChange::Ack },
                )
            } else {
                old(log)@
            }),
    {
        if !self.is_enabled(config) {
            return Err(EndpointError::Disabled);
        }
        if buf_len < self.data_max as usize {
            return Err(EndpointError::BufferOverflow);
        }
        if self.ring {
            return Ok(Path::Ring);
        }
        log.push(HwOp::RxCtrlModify { ep: self.index(), change: CtrlChange::Ack });
        Ok(Path::Single)
    }

    /// Polls a read over the queue: takes the oldest received slot, and starts an idle
    /// endpoint either way so that the stream does not break off.
    pub fn read_ring(&self, p: &mut Pipes, log: &mut Vec<HwOp>) -> (r: Option<RxGrant>)
        requires
            old(p).wf(),
            1 <= self.spec_index() < EP_N,
        ensures
            final(p).wf(),
            final(p)@ == old(p)@.rx_read(self.spec_index()),
            final(log)@ == old(log)@ + old(p)@.rx_read_ops(self.spec_index()),
            r is None <==> old(p)@.rx[self.spec_index() as int].ready.len() == 0,
            r matches Some(g) ==> g.wf() && g.spec_ep() == self.spec_index() && g.spec_slot()
                == old(p)@.rx[self.spec_index() as int].ready[0] && g.spec_addr()
                == old(p)@.rx[self.spec_index() as int].addrs[g.spec_slot() as int]
                && g.spec_len() == old(p)@.rx[self.spec_index() as int].lens[g.spec_slot() as int],
    {
        let index: usize = self.index();
        let pipe = RxPipe::new(index);
        let r = pipe.recv(p, log);
        if r.is_some() {
            resume_rx(p, index, log);
        }
        assert(log@ =~= old(log)@ + old(p)@.rx_read_ops(index));
        assert(p@ =~= old(p)@.rx_read(index));
        r
    }

    /// Bytes to copy from a received slot into a buffer of `buf_len` bytes.
    pub fn copy_len(len: u16, buf_len: usize) -> (r: usize)
        ensures
            r == (if len <= buf_len {
                len as usize
            } else {
                buf_len
            }),
    {
        if len as usize <= buf_len {
            len as usize
        } else {
            buf_len
        }
    }

    /// Copies the received bytes of a slot to the front of `out`, as many as fit, and says
    /// how many.
    pub fn copy_packet(packet: &RxBuf<'_>, out: &mut [u8]) -> (r: usize)
        requires
            packet.spec_len() <= packet.memory().len(),
        ensures
            r == (if packet.spec_len() <= old(out)@.len() {
                packet.spec_len() as nat
            } else {
                old(out)@.len()
            }),
            final(out)@ == packet.memory().take(r as int) + old(out)@.skip(r as int),
    {
        let data = packet.data();
        let n: usize = Endpoint::copy_len(packet.len() as u16, out.len());
        copy_front(data, n, out);
        assert(data@.take(n as int) =~= packet.memory().take(n as int));
        n
    }

    /// Goes on with a write over the queue, once the producer has a slot: `data` is copied
    /// to the front of the slot, and the slot is queued with that many bytes.
    pub fn write_ring(&self, p: &mut Pipes, buf: TxBuf<'_>, data: &[u8], log: &mut Vec<HwOp>)
        requires
            old(p).wf(),
            buf.wf(),
            1 <= self.spec_index() < EP_N,
            data@.len() <= buf.bytes().len(),
            data@.len() <= 0xFFFF,
        ensures
            final(p).wf(),
            final(p)@ == old(p)@.tx_submitted(
                self.spec_index(),
                buf.spec_slot(),
                data@.len() as u16,
            ),
            final(log)@ == old(log)@ + old(p)@.tx_submitted_ops(
                self.spec_index(),
                buf.spec_slot(),
                data@.len() as u16,
            ),
            final(buf.data)@ == data@ + buf.bytes().skip(data@.len() as int),
    {
        let mut slot = buf;
        copy_front(data, data.len(), slot.buf());
        assert(data@.take(data@.len() as int) =~= data@);
        let pipe = TxPipe::new(self.index());
        pipe.submit(p, slot, data.len() as u16, log);
    }

    /// Begins a write of `len` bytes, given the endpoint configuration word. On the
    /// single buffer, the bytes are put in place and the endpoint answers ACK from here
    /// on.
    pub fn write(&self, config: u32, len: usize, log: &mut Vec<HwOp>) -> (r: Result<
        Path,
        EndpointError,
    >)
        requires
            1 <= self.spec_index() < EP_N,
        ensures
            r == (if !self.enabled_in(config) {
                Err(EndpointError::Disabled)
            } else if len > self.data_max {
                Err(EndpointError::BufferOverflow)
            } else if self.ring {
                Ok(Path::Ring)
            } else {
                Ok::<Path, EndpointError>(Path::Single)
            }),
            final(log)@ == (if r == Ok::<Path, EndpointError>(Path::Single) {
                old(log)@ + seq![
                    HwOp::WriteBuffer { len },
                    HwOp::TLen { ep: self.spec_index(), value: len_value(len as u16) },
                    HwOp::TxCtrlModify { ep: self.spec_index(), change: CtrlChange::Ack },
                ]
            } else {
                old(log)@
            }),
    {
        if !self.is_enabled(config) {
            return Err(EndpointError::Disabled);
        }
        if self.ring {
            if len > self.data_max as usize {
                return Err(EndpointError::BufferOverflow);
            }
            return Ok(Path::Ring);
        }
        match self.data_in_write_buffer(len, log) {
            Err(e) => Err(e),
            Ok(()) => {
                log.push(HwOp::TxCtrlModify { ep: self.index(), change: CtrlChange::Ack });
                assert(log@ =~= old(log)@ + seq![
                    HwOp::WriteBuffer { len },
                    HwOp::TLen { ep: self.spec_index(), value: len_value(len as u16) },
                    HwOp::TxCtrlModify { ep: self.spec_index(), change: CtrlChange::Ack },
                ]);
                Ok(Path::Single)
            },
        }
    }
}

} // verus!
