//! Queue state of an OUT endpoint.

use vstd::prelude::*;

use crate::hw::{
    clear_transfer, ctrl_value, pad_ops, pad_window, set_rx_dma, write_rx_ctrl, HwOp, EP_N,
    TRANSFER_FLAG,
};
use crate::ring::{ring_push, slots_ok, SlotRing, RING};
use crate::tx::{all_slots, slot_num, slot_of, slot_opt_ok, NO_SLOT};

verus! {

/// What an [`RxCtx`] means.
#[verifier::ext_equal]
pub struct RxState {
    /// DMA address of each slot.
    pub addrs: Seq<u32>,
    /// Bytes received into each slot.
    pub lens: Seq<u16>,
    /// Received slots, oldest first.
    pub ready: Seq<u8>,
    /// Slots to receive into, oldest first.
    pub free: Seq<u8>,
    /// The slot that the peripheral receives into.
    pub armed: Option<u8>,
    /// Synchronisation state of the packet to expect next; `false` is DATA0.
    pub tog: bool,
    /// Number of slots; 0 while no memory is attached.
    pub n: u8,
    /// The endpoint answers NAK for want of a free slot.
    pub stopped: bool,
}

impl RxState {
    /// Every slot number is in range, and so is the depth.
    pub open spec fn ok(self) -> bool {
        &&& self.addrs.len() == RING
        &&& self.lens.len() == RING
        &&& slots_ok(self.ready)
        &&& slots_ok(self.free)
        &&& slot_opt_ok(self.armed)
        &&& self.n <= RING
    }

    /// No memory attached.
    pub open spec fn detached() -> RxState {
        RxState {
            addrs: Seq::new(RING as nat, |i: int| 0u32),
            lens: Seq::new(RING as nat, |i: int| 0u16),
            ready: Seq::empty(),
            free: Seq::empty(),
            armed: None,
            tog: false,
            n: 0,
            stopped: false,
        }
    }

    /// Every slot free, nothing armed, the next packet is DATA0.
    pub open spec fn refilled(self) -> RxState {
        RxState {
            ready: Seq::empty(),
            free: all_slots(self.n),
            armed: None,
            tog: false,
            stopped: false,
            ..self
        }
    }

    /// After a reset: as [`RxState::refilled`] where memory is attached.
    pub open spec fn reset(self) -> RxState {
        if self.n != 0 {
            self.refilled()
        } else {
            self
        }
    }

    /// The slot that has been free for longest becomes the armed one; with none, the
    /// endpoint stops.
    pub open spec fn advanced(self) -> RxState {
        if self.free.len() > 0 {
            RxState {
                armed: Some(self.free[0]),
                free: self.free.skip(1),
                stopped: false,
                tog: !self.tog,
                ..self
            }
        } else {
            RxState { armed: None, stopped: true, ..self }
        }
    }

    /// The register writes that go with [`RxState::advanced`]: address and ACK of the
    /// next slot, or NAK.
    pub open spec fn advance_ops(self, index: usize) -> Seq<HwOp> {
        if self.free.len() > 0 {
            seq![
                HwOp::RxDma { n: (index - 1) as usize, addr: self.addrs[self.free[0] as int] },
                HwOp::RxCtrl { ep: index, value: ctrl_value(self.tog, true, false) },
            ]
        } else {
            seq![HwOp::RxCtrl { ep: index, value: ctrl_value(self.tog, false, false) }]
        }
    }

    /// An idle endpoint is started: as [`RxState::advanced`], but with no free slot
    /// only `stopped` changes.
    pub open spec fn kicked(self) -> RxState {
        if self.free.len() > 0 {
            self.advanced()
        } else {
            RxState { stopped: true, ..self }
        }
    }

    /// A packet of `len` bytes came in: its slot is ready, and the next free slot is
    /// armed.
    pub open spec fn received(self, len: u16) -> RxState {
        let s = self.advanced();
        match self.armed {
            Some(done) => RxState {
                lens: self.lens.update(done as int, len),
                ready: ring_push(self.ready, done),
                ..s
            },
            None => s,
        }
    }

    /// The hardware actions of [`RxState::received`]: the next packet is set up
    /// completely before the transfer flag is cleared.
    pub open spec fn received_ops(self, index: usize, pad: u32) -> Seq<HwOp> {
        self.advance_ops(index) + pad_ops(pad) + seq![HwOp::IntFg { value: TRANSFER_FLAG }]
    }

    /// The reader asks for a packet: the oldest ready slot leaves the queue; with none
    /// ready, an idle endpoint is started.
    pub open spec fn polled(self) -> RxState {
        if self.ready.len() > 0 {
            RxState { ready: self.ready.skip(1), ..self }
        } else {
            self.resumed()
        }
    }

    /// The register writes of [`RxState::polled`].
    pub open spec fn polled_ops(self, index: usize) -> Seq<HwOp> {
        if self.ready.len() > 0 {
            Seq::empty()
        } else {
            self.resumed_ops(index)
        }
    }

    /// An idle endpoint is started.
    pub open spec fn resumed(self) -> RxState {
        if self.armed is None {
            self.kicked()
        } else {
            self
        }
    }

    /// The register writes of [`RxState::resumed`].
    pub open spec fn resumed_ops(self, index: usize) -> Seq<HwOp> {
        if self.armed is None {
            self.advance_ops(index)
        } else {
            Seq::empty()
        }
    }

    /// Depth, ready slots, armed slot, 0 and whether the endpoint is stopped, as
    /// numbers.
    pub open spec fn queue_numbers(self) -> (u8, u8, u8, u8, u8) {
        (
            self.n,
            self.ready.len() as u8,
            slot_num(self.armed),
            0,
            if self.stopped {
                1
            } else {
                0
            },
        )
    }

    /// `slot` is free again.
    pub open spec fn returned(self, slot: u8) -> RxState {
        RxState { free: ring_push(self.free, slot), ..self }
    }

    /// `slot` is free again, and an idle endpoint is started.
    pub open spec fn released(self, slot: u8) -> RxState {
        self.returned(slot).resumed()
    }

    /// The register writes of [`RxState::released`].
    pub open spec fn released_ops(self, slot: u8, index: usize) -> Seq<HwOp> {
        self.returned(slot).resumed_ops(index)
    }
}

/// Queue state of one OUT endpoint.
#[derive(Clone, Copy)]
pub struct RxCtx {
    addrs: [u32; 8],
    lens: [u16; 8],
    ready: SlotRing,
    free: SlotRing,
    armed: u8,
    tog: bool,
    n: u8,
    stopped: bool,
}

impl View for RxCtx {
    type V = RxState;

    closed spec fn view(&self) -> RxState {
        RxState {
            addrs: self.addrs@,
            lens: self.lens@,
            ready: self.ready@,
            free: self.free@,
            armed: slot_of(self.armed),
            tog: self.tog,
            n: self.n,
            stopped: self.stopped,
        }
    }
}

impl RxCtx {
    /// The indices of both queues are in range.
    pub closed spec fn indices_ok(&self) -> bool {
        self.ready.indices_ok() && self.free.indices_ok()
    }

    /// Every index and every slot number is in range.
    pub open spec fn wf(&self) -> bool {
        self.indices_ok() && self@.ok()
    }

    /// A context without memory.
    pub fn empty() -> (r: Self)
        ensures
            r.wf(),
            r@ == RxState::detached(),
    {
        let r = RxCtx {
            addrs: [0u32; 8],
            lens: [0u16; 8],
            ready: SlotRing::new(),
            free: SlotRing::new(),
            armed: NO_SLOT,
            tog: false,
            n: 0,
            stopped: false,
        };
        assert(r@ =~= RxState::detached());
        r
    }

    /// A context that owns `n` slots at the given addresses, all of them free.
    pub fn attached(addrs: [u32; 8], n: u8) -> (r: Self)
        requires
            n <= RING,
        ensures
            r.wf(),
            r@ == (RxState { addrs: addrs@, n, ..RxState::detached() }).refilled(),
    {
        let mut r = RxCtx::empty();
        r.addrs = addrs;
        r.n = n;
        r.refill_free();
        r
    }

    /// Takes every slot back.
    pub fn refill_free(&mut self)
        requires
            old(self).wf(),
        ensures
            final(self).wf(),
            final(self)@ == old(self)@.refilled(),
    {
        self.free = SlotRing::filled(self.n);
        self.ready = SlotRing::new();
        self.armed = NO_SLOT;
        self.tog = false;
        self.stopped = false;
    }

    /// Takes every slot back where memory is attached.
    pub fn reset(&mut self)
        requires
            old(self).wf(),
        ensures
            final(self).wf(),
            final(self)@ == old(self)@.reset(),
    {
        if self.n != 0 {
            self.refill_free();
        }
    }

    /// Number of slots.
    pub fn depth(&self) -> (r: u8)
        ensures
            r == self@.n,
    {
        self.n
    }

    /// DMA address of a slot.
    pub fn addr(&self, slot: u8) -> (r: u32)
        requires
            slot < RING,
        ensures
            r == self@.addrs[slot as int],
    {
        self.addrs[slot as usize]
    }

    /// Bytes received into a slot.
    pub fn received_len(&self, slot: u8) -> (r: u16)
        requires
            slot < RING,
        ensures
            r == self@.lens[slot as int],
    {
        self.lens[slot as usize]
    }

    /// Number of ready slots.
    pub fn ready_len(&self) -> (r: u8)
        requires
            self.wf(),
        ensures
            r == self@.ready.len(),
    {
        self.ready.len()
    }

    /// Whether the peripheral has a slot to receive into.
    pub fn is_armed(&self) -> (r: bool)
        ensures
            r == (self@.armed is Some),
    {
        self.armed != NO_SLOT
    }

    /// Takes the slot that has been ready for longest.
    pub fn pop_ready(&mut self) -> (r: Option<u8>)
        requires
            old(self).wf(),
        ensures
            final(self).wf(),
            r is None <==> old(self)@.ready.len() == 0,
            r is None ==> final(self)@ == old(self)@,
            r matches Some(slot) ==> slot < RING && slot == old(self)@.ready[0] && final(self)@
                == (RxState { ready: old(self)@.ready.skip(1), ..old(self)@ }),
    {
        let r = self.ready.pop();
        assert(r is None ==> self@ =~= old(self)@);
        r
    }

    /// Takes a slot back, and says whether none was free before.
    pub fn push_free(&mut self, slot: u8) -> (r: bool)
        requires
            old(self).wf(),
            slot < RING,
        ensures
            final(self).wf(),
            final(self)@ == old(self)@.returned(slot),
            r == (old(self)@.free.len() == 0),
    {
        let was_empty = self.free.is_empty();
        self.free.push(slot);
        was_empty
    }

    /// Starts an idle endpoint on the next free slot, and says whether there was one.
    pub fn kick_rx(&mut self, index: usize, log: &mut Vec<HwOp>) -> (r: bool)
        requires
            old(self).wf(),
            index < EP_N,
            old(self)@.free.len() > 0 ==> index >= 1,
        ensures
            final(self).wf(),
            final(self)@ == old(self)@.kicked(),
            final(log)@ == old(log)@ + old(self)@.advance_ops(index),
            r == (old(self)@.free.len() > 0),
    {
        if self.free.is_empty() {
            self.stopped = true;
            write_rx_ctrl(index, self.tog, false, log);
            assert(log@ =~= old(log)@ + old(self)@.advance_ops(index));
            return false;
        }
        let slot: u8 = self.free.front();
        self.free.advance();
        self.armed = slot;
        self.stopped = false;
        set_rx_dma(index, self.addrs[slot as usize], log);
        write_rx_ctrl(index, self.tog, true, log);
        self.tog = !self.tog;
        assert(log@ =~= old(log)@ + old(self)@.advance_ops(index));
        true
    }

    /// Starts an idle endpoint.
    pub fn resume(&mut self, index: usize, log: &mut Vec<HwOp>)
        requires
            old(self).wf(),
            index < EP_N,
            old(self)@.free.len() > 0 ==> index >= 1,
        ensures
            final(self).wf(),
            final(self)@ == old(self)@.resumed(),
            final(log)@ == old(log)@ + old(self)@.resumed_ops(index),
    {
        if self.armed == NO_SLOT {
            self.kick_rx(index, log);
        }
        assert(log@ =~= old(log)@ + old(self)@.resumed_ops(index));
    }

    /// A packet of `len` bytes came in. Says whether the endpoint ran dry.
    pub fn on_out(&mut self, index: usize, len: u16, pad: u32, log: &mut Vec<HwOp>) -> (dry: bool)
        requires
            old(self).wf(),
            1 <= index < EP_N,
        ensures
            final(self).wf(),
            final(self)@ == old(self)@.received(len),
            final(log)@ == old(log)@ + old(self)@.received_ops(index, pad),
            dry == (old(self)@.free.len() == 0),
    {
        let has = !self.free.is_empty();
        let next: u8 = if has {
            self.free.front()
        } else {
            NO_SLOT
        };
        let done: u8 = self.armed;
        let tog = self.tog;
        // The next packet has to have its place before the flag is cleared.
        if has {
            set_rx_dma(index, self.addrs[next as usize], log);
            write_rx_ctrl(index, tog, true, log);
        } else {
            write_rx_ctrl(index, tog, false, log);
        }
        pad_window(pad, log);
        clear_transfer(log);
        if has {
            self.armed = next;
            self.free.advance();
            self.stopped = false;
            self.tog = !tog;
        } else {
            self.armed = NO_SLOT;
            self.stopped = true;
        }
        if done != NO_SLOT {
            self.lens[done as usize] = len;
            self.ready.push(done);
        }
        assert(self@ =~= old(self)@.received(len));
        assert(log@ =~= old(log)@ + old(self)@.received_ops(index, pad));
        !has
    }

    /// Takes the slot that has been ready for longest; with none ready, starts an idle
    /// endpoint.
    pub fn poll(&mut self, index: usize, log: &mut Vec<HwOp>) -> (r: Option<u8>)
        requires
            old(self).wf(),
            index < EP_N,
            old(self)@.free.len() > 0 ==> index >= 1,
        ensures
            final(self).wf(),
            final(self)@ == old(self)@.polled(),
            final(log)@ == old(log)@ + old(self)@.polled_ops(index),
            r is None <==> old(self)@.ready.len() == 0,
            r matches Some(slot) ==> slot < RING && slot == old(self)@.ready[0],
    {
        let r = self.pop_ready();
        if r.is_none() {
            self.resume(index, log);
        }
        assert(log@ =~= old(log)@ + old(self)@.polled_ops(index));
        r
    }

    /// Takes a slot back and starts an idle endpoint.
    pub fn release(&mut self, slot: u8, index: usize, log: &mut Vec<HwOp>)
        requires
            old(self).wf(),
            slot < RING,
            1 <= index < EP_N,
        ensures
            final(self).wf(),
            final(self)@ == old(self)@.released(slot),
            final(log)@ == old(log)@ + old(self)@.released_ops(slot, index),
    {
        self.push_free(slot);
        self.resume(index, log);
    }

    /// [`RxState::queue_numbers`].
    pub fn queue_state(&self) -> (r: (u8, u8, u8, u8, u8))
        requires
            self.wf(),
        ensures
            r == self@.queue_numbers(),
    {
        (
            self.n,
            self.ready.len(),
            self.armed,
            0,
            if self.stopped {
                1
            } else {
                0
            },
        )
    }
}

} // verus!
