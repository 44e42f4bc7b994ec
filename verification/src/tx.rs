//! Queue state of an IN endpoint.

use vstd::prelude::*;

use crate::hw::{
    clear_transfer, ctrl_value, len_value, pad_ops, pad_window, set_t_len, set_tx_dma, set_tx_dma_reg, tx_dma_ops,
    tx_dma_reg_op, write_tx_ctrl, write_tx_ctrl_db, HwOp, EP_N, TRANSFER_FLAG,
};
use crate::ring::{ring_push, slots_ok, SlotRing, RING};

verus! {

/// Stands in a slot field for "no slot".
pub const NO_SLOT: u8 = 0xFF;

/// The producer is woken once the free queue has grown to `n / TX_WAKE_DIV` slots.
pub const TX_WAKE_DIV: u8 = 2;

/// The slot that a slot field names.
pub open spec fn slot_of(x: u8) -> Option<u8> {
    if x == NO_SLOT {
        None
    } else {
        Some(x)
    }
}

/// The slot field for a slot.
pub open spec fn slot_num(x: Option<u8>) -> u8 {
    match x {
        Some(slot) => slot,
        None => NO_SLOT,
    }
}

/// There is no slot, or it is one of [`RING`].
pub open spec fn slot_opt_ok(x: Option<u8>) -> bool {
    x matches Some(slot) ==> slot < RING
}

/// All slot numbers of a pipe of depth `n`, in order.
pub open spec fn all_slots(n: u8) -> Seq<u8> {
    Seq::new(n as nat, |i: int| i as u8)
}

/// Free slots at which the producer of a pipe of depth `n` is woken: half of them,
/// but at least one.
pub open spec fn wake_water(n: u8) -> u8 {
    if n < 2 {
        1
    } else {
        (n / 2) as u8
    }
}

/// The wake level of a pipe of depth `n`.
pub fn tx_wake_water(n: u8) -> (r: u8)
    ensures
        r == wake_water(n),
{
    let w: u8 = n / TX_WAKE_DIV;
    if w == 0 {
        1
    } else {
        w
    }
}

/// What a [`TxCtx`] means.
#[verifier::ext_equal]
pub struct TxState {
    /// DMA address of each slot.
    pub addrs: Seq<u32>,
    /// Bytes to send from each slot.
    pub lens: Seq<u16>,
    /// Submitted slots, oldest first.
    pub queue: Seq<u8>,
    /// Slots to hand out, oldest first.
    pub free: Seq<u8>,
    /// The slot that the peripheral sends.
    pub armed: Option<u8>,
    /// Synchronisation state of the packet to arm next; `false` is DATA0.
    pub tog: bool,
    /// Number of slots; 0 while no memory is attached.
    pub n: u8,
    /// The endpoint answers NAK.
    pub stopped: bool,
    /// The slots in the two DMA registers while double buffering.
    pub dbuf: Seq<Option<u8>>,
    /// The block that the peripheral uses next while double buffering, 0 or 1.
    pub cur: u8,
    /// The length last written while arming.
    pub tlen: u16,
}

impl TxState {
    /// Every slot number is in range, and so are the depth and the block number.
    pub open spec fn ok(self) -> bool {
        &&& self.addrs.len() == RING
        &&& self.lens.len() == RING
        &&& slots_ok(self.queue)
        &&& slots_ok(self.free)
        &&& slot_opt_ok(self.armed)
        &&& self.n <= RING
        &&& self.dbuf.len() == 2
        &&& slot_opt_ok(self.dbuf[0])
        &&& slot_opt_ok(self.dbuf[1])
        &&& self.cur < 2
    }

    /// No memory attached.
    pub open spec fn detached() -> TxState {
        TxState {
            addrs: Seq::new(RING as nat, |i: int| 0u32),
            lens: Seq::new(RING as nat, |i: int| 0u16),
            queue: Seq::empty(),
            free: Seq::empty(),
            armed: None,
            tog: false,
            n: 0,
            stopped: false,
            dbuf: seq![None, None],
            cur: 0,
            tlen: 0,
        }
    }

    /// Every slot free, nothing armed, the next packet is DATA0, the endpoint answers
    /// NAK.
    pub open spec fn refilled(self) -> TxState {
        TxState {
            queue: Seq::empty(),
            free: all_slots(self.n),
            armed: None,
            tog: false,
            stopped: true,
            dbuf: seq![None, None],
            cur: 0,
            tlen: 0,
            ..self
        }
    }

    /// After a reset: as [`TxState::refilled`] where memory is attached.
    pub open spec fn reset(self) -> TxState {
        if self.n != 0 {
            self.refilled()
        } else {
            self
        }
    }

    /// Slots that are not free.
    pub open spec fn used(self) -> u8 {
        if self.free.len() < self.n {
            (self.n - self.free.len()) as u8
        } else {
            0
        }
    }

    /// The oldest submitted slot becomes the armed one; with none, the endpoint stops.
    pub open spec fn advanced(self) -> TxState {
        if self.queue.len() > 0 {
            TxState {
                armed: Some(self.queue[0]),
                queue: self.queue.skip(1),
                stopped: false,
                tog: !self.tog,
                ..self
            }
        } else {
            TxState { armed: None, stopped: true, ..self }
        }
    }

    /// The register writes that go with [`TxState::advanced`]: address, length and ACK
    /// of the oldest submitted slot, or NAK.
    pub open spec fn advance_ops(self, index: usize) -> Seq<HwOp> {
        if self.queue.len() > 0 {
            let slot = self.queue[0] as int;
            tx_dma_ops(index, self.addrs[slot], self.lens[slot]).push(
                HwOp::TxCtrl { ep: index, value: ctrl_value(self.tog, true, false) },
            )
        } else {
            seq![HwOp::TxCtrl { ep: index, value: ctrl_value(self.tog, false, false) }]
        }
    }

    /// An idle endpoint is started: as [`TxState::advanced`], and the length of the
    /// armed slot is remembered. With nothing submitted, only `stopped` changes.
    pub open spec fn kicked(self) -> TxState {
        if self.queue.len() > 0 {
            TxState { tlen: self.lens[self.queue[0] as int], ..self.advanced() }
        } else {
            TxState { stopped: true, ..self }
        }
    }

    /// A single-buffered packet went out: its slot is free again and the oldest
    /// submitted slot is armed.
    pub open spec fn sent(self) -> TxState {
        let returned = match self.armed {
            Some(done) => ring_push(self.free, done),
            None => self.free,
        };
        TxState { free: returned, ..self.advanced() }
    }

    /// The hardware actions of [`TxState::sent`]: the next packet is set up completely
    /// before the transfer flag is cleared.
    pub open spec fn sent_ops(self, index: usize, pad: u32) -> Seq<HwOp> {
        self.advance_ops(index) + pad_ops(pad) + seq![HwOp::IntFg { value: TRANSFER_FLAG }]
    }

    /// The free queue has reached the wake level.
    pub open spec fn wakes(self) -> bool {
        self.free.len() >= wake_water(self.n)
    }

    /// One of the two blocks is empty.
    pub open spec fn needs_kick(self) -> bool {
        self.dbuf[0] is None || self.dbuf[1] is None
    }

    /// Block `b` takes the oldest submitted slot if it is empty and there is one. In
    /// the block that the peripheral uses next, that slot counts as armed.
    pub open spec fn block_filled(self, b: u8) -> TxState {
        if self.dbuf[b as int] is None && self.queue.len() > 0 {
            let slot = self.queue[0];
            let s = TxState {
                queue: self.queue.skip(1),
                dbuf: self.dbuf.update(b as int, Some(slot)),
                ..self
            };
            if b == self.cur {
                TxState { armed: Some(slot), tlen: self.lens[slot as int], stopped: false, ..s }
            } else {
                s
            }
        } else {
            self
        }
    }

    /// The register writes of [`TxState::block_filled`]: the address; and in the block
    /// that is used next, the length if it differs from the last one, and ACK if the
    /// endpoint was stopped.
    pub open spec fn block_filled_ops(self, b: u8, index: usize, auto_tog: bool) -> Seq<HwOp> {
        if self.dbuf[b as int] is None && self.queue.len() > 0 {
            let slot = self.queue[0] as int;
            let head = seq![tx_dma_reg_op(index, b, self.addrs[slot])];
            if b == self.cur {
                let len = if self.tlen != self.lens[slot] {
                    seq![HwOp::TLen { ep: index, value: len_value(self.lens[slot]) }]
                } else {
                    Seq::empty()
                };
                let go = if self.stopped {
                    seq![
                        HwOp::TxCtrl {
                            ep: index,
                            value: ctrl_value(self.cur == 1, true, auto_tog),
                        },
                    ]
                } else {
                    Seq::empty()
                };
                head + len + go
            } else {
                head
            }
        } else {
            Seq::empty()
        }
    }

    /// The block that the peripheral does not use next.
    pub open spec fn other(self) -> u8 {
        (1 - self.cur) as u8
    }

    /// Both blocks take submitted slots, the one that is used next first.
    pub open spec fn refilled_db(self) -> TxState {
        self.block_filled(self.cur).block_filled(self.other())
    }

    /// The register writes of [`TxState::refilled_db`].
    pub open spec fn refilled_db_ops(self, index: usize, auto_tog: bool) -> Seq<HwOp> {
        self.block_filled_ops(self.cur, index, auto_tog) + self.block_filled(
            self.cur,
        ).block_filled_ops(self.other(), index, auto_tog)
    }

    /// As [`TxState::refilled_db`]; an endpoint with nothing armed stops.
    pub open spec fn kicked_db(self) -> TxState {
        let s = self.refilled_db();
        TxState { stopped: s.stopped || s.armed is None, ..s }
    }

    /// The register writes of [`TxState::kicked_db`].
    pub open spec fn kicked_db_ops(self, index: usize, auto_tog: bool) -> Seq<HwOp> {
        let s = self.refilled_db();
        self.refilled_db_ops(index, auto_tog) + if s.armed is None && !s.stopped {
            seq![HwOp::TxCtrl { ep: index, value: ctrl_value(s.cur == 1, false, auto_tog) }]
        } else {
            Seq::empty()
        }
    }

    /// A double-buffered packet went out and the peripheral moved on to the other
    /// block: what holds when the flag is cleared, before anything is refilled. The
    /// length of the packet in that block is the remembered one.
    pub open spec fn switched_db(self) -> TxState {
        TxState {
            cur: self.other(),
            tlen: match self.dbuf[self.other() as int] {
                Some(next) => self.lens[next as int],
                None => self.tlen,
            },
            stopped: self.stopped || self.dbuf[self.other() as int] is None,
            ..self
        }
    }

    /// The register writes of [`TxState::switched_db`]: the length if it changes, and
    /// the control register. With the automatic flip, the latter is written only when
    /// the endpoint runs dry.
    pub open spec fn switched_db_ops(self, index: usize, auto_tog: bool) -> Seq<HwOp> {
        let next_armed = self.dbuf[self.other() as int] is Some;
        let tlen = self.switched_db().tlen;
        let len = if tlen != self.tlen {
            seq![HwOp::TLen { ep: index, value: len_value(tlen) }]
        } else {
            Seq::empty()
        };
        len + if !auto_tog || (!next_armed && !self.stopped) {
            seq![
                HwOp::TxCtrl {
                    ep: index,
                    value: ctrl_value(self.other() == 1, next_armed, auto_tog),
                },
            ]
        } else {
            Seq::empty()
        }
    }

    /// The switch to the other block counts as the endpoint running dry.
    pub open spec fn runs_dry_db(self, auto_tog: bool) -> bool {
        self.dbuf[self.other() as int] is None && (!auto_tog || !self.stopped)
    }

    /// After the flag is cleared: the sent slot is free and its block empty.
    pub open spec fn returned_db(self) -> TxState {
        let returned = match self.dbuf[self.cur as int] {
            Some(done) => ring_push(self.free, done),
            None => self.free,
        };
        TxState {
            free: returned,
            dbuf: self.dbuf.update(self.cur as int, None),
            ..self.switched_db()
        }
    }

    /// A double-buffered packet went out: its slot is free again, both blocks are
    /// refilled, and the armed slot is the one that is used next.
    pub open spec fn sent_db(self) -> TxState {
        let s = self.returned_db().refilled_db();
        TxState { armed: s.dbuf[s.cur as int], ..s }
    }

    /// The hardware actions of [`TxState::sent_db`]: refilling comes after the flag is
    /// cleared.
    pub open spec fn sent_db_ops(self, index: usize, auto_tog: bool) -> Seq<HwOp> {
        self.switched_db_ops(index, auto_tog) + seq![HwOp::IntFg { value: TRANSFER_FLAG }]
            + self.returned_db().refilled_db_ops(index, auto_tog)
    }

    /// The two blocks, the block used next, the remembered length, the armed slot and
    /// whether the endpoint is stopped, as numbers.
    pub open spec fn dbuf_numbers(self) -> (u8, u8, u8, u16, u8, u8) {
        (
            slot_num(self.dbuf[0]),
            slot_num(self.dbuf[1]),
            self.cur,
            self.tlen,
            slot_num(self.armed),
            if self.stopped {
                1
            } else {
                0
            },
        )
    }

    /// Depth, slots in use, armed slot, submitted slots and whether the endpoint is
    /// stopped, as numbers.
    pub open spec fn queue_numbers(self) -> (u8, u8, u8, u8, u8) {
        (
            self.n,
            self.used(),
            slot_num(self.armed),
            self.queue.len() as u8,
            if self.stopped {
                1
            } else {
                0
            },
        )
    }

    /// `slot` is queued with `len` bytes.
    pub open spec fn queued(self, slot: u8, len: u16) -> TxState {
        TxState {
            lens: self.lens.update(slot as int, len),
            queue: ring_push(self.queue, slot),
            ..self
        }
    }

    /// `slot` is queued, and an idle endpoint starts on it.
    pub open spec fn submitted(self, slot: u8, len: u16, dbuf_tx: bool) -> TxState {
        let s = self.queued(slot, len);
        if !s.needs_kick() {
            s
        } else if dbuf_tx {
            s.kicked_db()
        } else if s.armed is None {
            s.kicked()
        } else {
            s
        }
    }

    /// The register writes of [`TxState::submitted`].
    pub open spec fn submitted_ops(
        self,
        slot: u8,
        len: u16,
        index: usize,
        dbuf_tx: bool,
        auto_tog: bool,
    ) -> Seq<HwOp> {
        let s = self.queued(slot, len);
        if !s.needs_kick() {
            Seq::empty()
        } else if dbuf_tx {
            s.kicked_db_ops(index, auto_tog)
        } else if s.armed is None {
            s.advance_ops(index)
        } else {
            Seq::empty()
        }
    }
}

/// Queue state of one IN endpoint.
#[derive(Clone, Copy)]
pub struct TxCtx {
    addrs: [u32; 8],
    lens: [u16; 8],
    q: SlotRing,
    free: SlotRing,
    armed: u8,
    tog: bool,
    n: u8,
    stopped: bool,
    dbuf: [u8; 2],
    cur: u8,
    tlen: u16,
}

impl View for TxCtx {
    type V = TxState;

    closed spec fn view(&self) -> TxState {
        TxState {
            addrs: self.addrs@,
            lens: self.lens@,
            queue: self.q@,
            free: self.free@,
            armed: slot_of(self.armed),
            tog: self.tog,
            n: self.n,
            stopped: self.stopped,
            dbuf: seq![slot_of(self.dbuf@[0]), slot_of(self.dbuf@[1])],
            cur: self.cur,
            tlen: self.tlen,
        }
    }
}

impl TxCtx {
    /// The indices of both queues are in range.
    pub closed spec fn indices_ok(&self) -> bool {
        self.q.indices_ok() && self.free.indices_ok()
    }

    /// Every index and every slot number is in range.
    pub open spec fn wf(&self) -> bool {
        self.indices_ok() && self@.ok()
    }

    /// A context without memory.
    pub fn empty() -> (r: Self)
        ensures
            r.wf(),
            r@ == TxState::detached(),
    {
        let r = TxCtx {
            addrs: [0u32; 8],
            lens: [0u16; 8],
            q: SlotRing::new(),
            free: SlotRing::new(),
            armed: NO_SLOT,
            tog: false,
            n: 0,
            stopped: false,
            dbuf: [NO_SLOT, NO_SLOT],
            cur: 0,
            tlen: 0,
        };
        assert(r@ =~= TxState::detached());
        r
    }

    /// A context that owns `n` slots at the given addresses, all of them free.
    pub fn attached(addrs: [u32; 8], n: u8) -> (r: Self)
        requires
            n <= RING,
        ensures
            r.wf(),
            r@ == (TxState { addrs: addrs@, n, ..TxState::detached() }).refilled(),
    {
        let mut r = TxCtx::empty();
        r.addrs = addrs;
        r.n = n;
        r.refill_free();
        r
    }

    /// Takes every slot back.
    pub fn refill_free(&mut self)
        requires
            old(self).wf(),
        ensures
            final(self).wf(),
            final(self)@ == old(self)@.refilled(),
    {
        self.free = SlotRing::filled(self.n);
        self.q = SlotRing::new();
        self.armed = NO_SLOT;
        self.tog = false;
        self.stopped = true;
        self.dbuf = [NO_SLOT, NO_SLOT];
        self.cur = 0;
        self.tlen = 0;
        assert(self@ =~= old(self)@.refilled());
    }

    /// Takes every slot back where memory is attached.
    pub fn reset(&mut self)
        requires
            old(self).wf(),
        ensures
            final(self).wf(),
            final(self)@ == old(self)@.reset(),
    {
        if self.n != 0 {
            self.refill_free();
        }
    }

    /// Number of slots.
    pub fn depth(&self) -> (r: u8)
        ensures
            r == self@.n,
            self.wf() ==> r <= RING,
    {
        self.n
    }

    /// DMA address of a slot.
    pub fn addr(&self, slot: u8) -> (r: u32)
        requires
            slot < RING,
        ensures
            r == self@.addrs[slot as int],
    {
        self.addrs[slot as usize]
    }

    /// Slots that are not free.
    pub fn used(&self) -> (r: u8)
        requires
            self.wf(),
        ensures
            r == self@.used(),
    {
        self.n.saturating_sub(self.free.len())
    }

    /// Hands out the slot that has been free for longest.
    pub fn pop_free(&mut self) -> (r: Option<u8>)
        requires
            old(self).wf(),
        ensures
            final(self).wf(),
            r is None <==> old(self)@.free.len() == 0,
            r is None ==> final(self)@ == old(self)@,
            r matches Some(slot) ==> slot < RING && slot == old(self)@.free[0] && final(self)@ == (
            TxState { free: old(self)@.free.skip(1), ..old(self)@ }),
    {
        let r = self.free.pop();
        assert(r is None ==> self@ =~= old(self)@);
        r
    }

    /// Takes an unused slot back.
    pub fn push_free(&mut self, slot: u8)
        requires
            old(self).wf(),
            slot < RING,
        ensures
            final(self).wf(),
            final(self)@ == (TxState { free: ring_push(old(self)@.free, slot), ..old(self)@ }),
    {
        self.free.push(slot);
    }

    /// Queues `slot`, and says whether the queue was empty.
    pub fn push_q(&mut self, slot: u8) -> (r: bool)
        requires
            old(self).wf(),
            slot < RING,
        ensures
            final(self).wf(),
            final(self)@ == (TxState { queue: ring_push(old(self)@.queue, slot), ..old(self)@ }),
            r == (old(self)@.queue.len() == 0),
    {
        let was_empty = self.q.is_empty();
        self.q.push(slot);
        was_empty
    }

    /// Whether one of the two blocks is empty.
    pub fn tx_needs_kick(&self) -> (r: bool)
        requires
            self.wf(),
        ensures
            r == self@.needs_kick(),
    {
        let cur: usize = self.cur as usize;
        self.dbuf[cur] == NO_SLOT || self.dbuf[1 - cur] == NO_SLOT
    }

    /// Starts an idle endpoint on the oldest submitted slot, and says whether there was
    /// one.
    pub fn kick_tx(&mut self, index: usize, log: &mut Vec<HwOp>) -> (r: bool)
        requires
            old(self).wf(),
            index < EP_N,
            old(self)@.queue.len() > 0 ==> index >= 1,
        ensures
            final(self).wf(),
            final(self)@ == old(self)@.kicked(),
            final(log)@ == old(log)@ + old(self)@.advance_ops(index),
            r == (old(self)@.queue.len() > 0),
    {
        if self.q.is_empty() {
            self.stopped = true;
            write_tx_ctrl(index, self.tog, false, log);
            assert(log@ =~= old(log)@ + old(self)@.advance_ops(index));
            return false;
        }
        let slot: u8 = self.q.front();
        self.q.advance();
        self.armed = slot;
        self.stopped = false;
        set_tx_dma(index, self.addrs[slot as usize], self.lens[slot as usize], log);
        self.tlen = self.lens[slot as usize];
        write_tx_ctrl(index, self.tog, true, log);
        self.tog = !self.tog;
        assert(log@ =~= old(log)@ + old(self)@.advance_ops(index));
        true
    }

    /// Fills one block of a double-buffered endpoint, and says whether the other one
    /// is worth a try: not if this one stays empty.
    fn fill_block(&mut self, b: u8, index: usize, auto_tog: bool, log: &mut Vec<HwOp>) -> (r: bool)
        requires
            old(self).wf(),
            b < 2,
            1 <= index < EP_N,
        ensures
            final(self).wf(),
            final(self)@ == old(self)@.block_filled(b),
            final(log)@ == old(log)@ + old(self)@.block_filled_ops(b, index, auto_tog),
            !r <==> old(self)@.dbuf[b as int] is None && old(self)@.queue.len() == 0,
    {
        assert(old(self)@.dbuf[b as int] == slot_of(self.dbuf@[b as int]));
        if self.dbuf[b as usize] != NO_SLOT {
            assert(log@ =~= old(log)@ + old(self)@.block_filled_ops(b, index, auto_tog));
            return true;
        }
        if self.q.is_empty() {
            assert(log@ =~= old(log)@ + old(self)@.block_filled_ops(b, index, auto_tog));
            return false;
        }
        let slot: u8 = self.q.front();
        self.q.advance();
        set_tx_dma_reg(index, b, self.addrs[slot as usize], log);
        self.dbuf[b as usize] = slot;
        if b == self.cur {
            self.armed = slot;
            if self.tlen != self.lens[slot as usize] {
                self.tlen = self.lens[slot as usize];
                set_t_len(index, self.tlen, log);
            }
            if self.stopped {
                self.stopped = false;
                write_tx_ctrl_db(index, self.cur == 1, true, auto_tog, log);
            }
        }
        assert(self@ =~= old(self)@.block_filled(b));
        assert(log@ =~= old(log)@ + old(self)@.block_filled_ops(b, index, auto_tog));
        true
    }

    /// Fills both blocks of a double-buffered endpoint, the one that is used next
    /// first.
    pub fn tx_refill_db(&mut self, index: usize, auto_tog: bool, log: &mut Vec<HwOp>)
        requires
            old(self).wf(),
            1 <= index < EP_N,
        ensures
            final(self).wf(),
            final(self)@ == old(self)@.refilled_db(),
            final(log)@ == old(log)@ + old(self)@.refilled_db_ops(index, auto_tog),
    {
        let cur: u8 = self.cur;
        let ghost s1 = self@.block_filled(cur);
        if self.fill_block(cur, index, auto_tog, log) {
            self.fill_block(1 - cur, index, auto_tog, log);
        } else {
            assert(s1.block_filled(old(self)@.other()) == s1);
        }
        assert(log@ =~= old(log)@ + old(self)@.refilled_db_ops(index, auto_tog));
    }

    /// Fills both blocks; stops the endpoint if nothing is armed. Says whether
    /// something is.
    pub fn kick_tx_db(&mut self, index: usize, auto_tog: bool, log: &mut Vec<HwOp>) -> (r: bool)
        requires
            old(self).wf(),
            1 <= index < EP_N,
        ensures
            final(self).wf(),
            final(self)@ == old(self)@.kicked_db(),
            final(log)@ == old(log)@ + old(self)@.kicked_db_ops(index, auto_tog),
            r == (final(self)@.armed is Some),
    {
        self.tx_refill_db(index, auto_tog, log);
        if self.armed == NO_SLOT && !self.stopped {
            self.stopped = true;
            write_tx_ctrl_db(index, self.cur == 1, false, auto_tog, log);
        }
        assert(self@ =~= old(self)@.kicked_db());
        assert(log@ =~= old(log)@ + old(self)@.kicked_db_ops(index, auto_tog));
        self.armed != NO_SLOT
    }

    /// A single-buffered packet went out. Says whether the endpoint ran dry.
    pub fn on_in(&mut self, index: usize, pad: u32, log: &mut Vec<HwOp>) -> (dry: bool)
        requires
            old(self).wf(),
            1 <= index < EP_N,
        ensures
            final(self).wf(),
            final(self)@ == old(self)@.sent(),
            final(log)@ == old(log)@ + old(self)@.sent_ops(index, pad),
            dry == (old(self)@.queue.len() == 0),
    {
        let has = !self.q.is_empty();
        let next: u8 = if has {
            self.q.front()
        } else {
            NO_SLOT
        };
        let done: u8 = self.armed;
        let tog = self.tog;
        // The next packet has to be in place before the flag is cleared.
        if has {
            set_tx_dma(index, self.addrs[next as usize], self.lens[next as usize], log);
            write_tx_ctrl(index, tog, true, log);
        } else {
            write_tx_ctrl(index, tog, false, log);
        }
        if done != NO_SLOT {
            self.free.push(done);
        }
        if has {
            self.armed = next;
            self.q.advance();
            self.stopped = false;
            self.tog = !tog;
        } else {
            self.armed = NO_SLOT;
            self.stopped = true;
        }
        pad_window(pad, log);
        clear_transfer(log);
        assert(self@ =~= old(self)@.sent());
        assert(log@ =~= old(log)@ + old(self)@.sent_ops(index, pad));
        !has
    }

    /// Follows the peripheral to the other block and clears the flag, with the length of
    /// the packet in that block in place; answers NAK from here on if the block is empty. Says whether the endpoint ran dry.
    fn switch_db(&mut self, index: usize, auto_tog: bool, log: &mut Vec<HwOp>) -> (dry: bool)
        requires
            old(self).wf(),
            1 <= index < EP_N,
        ensures
            final(self).wf(),
            final(self)@ == old(self)@.switched_db(),
            final(log)@ == old(log)@ + old(self)@.switched_db_ops(index, auto_tog) + seq![
                HwOp::IntFg { value: TRANSFER_FLAG },
            ],
            dry == old(self)@.runs_dry_db(auto_tog),
    {
        self.cur = 1 - self.cur;
        let next: u8 = self.dbuf[self.cur as usize];
        let next_armed = next != NO_SLOT;
        assert(old(self)@.dbuf[self.cur as int] == slot_of(next));
        let mut dry = false;
        // With the automatic flip, a full pipe of packets of one length needs no write
        // here at all.
        if next_armed && self.tlen != self.lens[next as usize] {
            self.tlen = self.lens[next as usize];
            set_t_len(index, self.tlen, log);
        }
        if !auto_tog {
            write_tx_ctrl_db(index, self.cur == 1, next_armed, auto_tog, log);
            if !next_armed {
                self.stopped = true;
                dry = true;
            }
        } else if !next_armed && !self.stopped {
            self.stopped = true;
            write_tx_ctrl_db(index, self.cur == 1, false, auto_tog, log);
            dry = true;
        }
        clear_transfer(log);
        assert(self@ =~= old(self)@.switched_db());
        assert(log@ =~= old(log)@ + old(self)@.switched_db_ops(index, auto_tog) + seq![
            HwOp::IntFg { value: TRANSFER_FLAG },
        ]);
        dry
    }

    /// Frees the slot that was sent from block `sent` and empties the block.
    fn return_block(&mut self, sent: u8)
        requires
            old(self).wf(),
            sent < 2,
        ensures
            final(self).wf(),
            final(self)@ == (TxState {
                free: match old(self)@.dbuf[sent as int] {
                    Some(done) => ring_push(old(self)@.free, done),
                    None => old(self)@.free,
                },
                dbuf: old(self)@.dbuf.update(sent as int, None),
                ..old(self)@
            }),
    {
        let done: u8 = self.dbuf[sent as usize];
        assert(slot_of(done) == old(self)@.dbuf[sent as int]);
        if done != NO_SLOT {
            self.free.push(done);
        }
        self.dbuf[sent as usize] = NO_SLOT;
        assert(self@.dbuf =~= old(self)@.dbuf.update(sent as int, None));
    }

    /// A double-buffered packet went out. Says whether the endpoint ran dry.
    pub fn on_in_db(&mut self, index: usize, auto_tog: bool, log: &mut Vec<HwOp>) -> (dry: bool)
        requires
            old(self).wf(),
            1 <= index < EP_N,
        ensures
            final(self).wf(),
            final(self)@ == old(self)@.sent_db(),
            final(log)@ == old(log)@ + old(self)@.sent_db_ops(index, auto_tog),
            dry == old(self)@.runs_dry_db(auto_tog),
    {
        let sent: u8 = self.cur;
        let dry = self.switch_db(index, auto_tog, log);
        self.return_block(sent);
        assert(self@ =~= old(self)@.returned_db());
        self.tx_refill_db(index, auto_tog, log);
        let ghost refilled = self@;
        assert(refilled.dbuf[refilled.cur as int] == slot_of(self.dbuf@[self.cur as int]));
        self.armed = self.dbuf[self.cur as usize];
        assert(self@ =~= (TxState { armed: refilled.dbuf[refilled.cur as int], ..refilled }));
        assert(log@ =~= old(log)@ + old(self)@.sent_db_ops(index, auto_tog));
        dry
    }

    /// Whether the free queue has reached the wake level.
    pub fn wakes(&self) -> (r: bool)
        requires
            self.wf(),
        ensures
            r == self@.wakes(),
    {
        self.free.len() >= tx_wake_water(self.n)
    }

    /// Queues a slot with `len` bytes and starts an idle endpoint on it.
    pub fn submit(
        &mut self,
        slot: u8,
        len: u16,
        index: usize,
        dbuf_tx: bool,
        auto_tog: bool,
        log: &mut Vec<HwOp>,
    )
        requires
            old(self).wf(),
            slot < RING,
            1 <= index < EP_N,
        ensures
            final(self).wf(),
            final(self)@ == old(self)@.submitted(slot, len, dbuf_tx),
            final(log)@ == old(log)@ + old(self)@.submitted_ops(
                slot,
                len,
                index,
                dbuf_tx,
                auto_tog,
            ),
    {
        self.lens[slot as usize] = len;
        let was_empty = self.push_q(slot);
        assert(self@ =~= old(self)@.queued(slot, len));
        if was_empty || self.tx_needs_kick() {
            if self.tx_needs_kick() {
                if dbuf_tx {
                    self.kick_tx_db(index, auto_tog, log);
                } else if self.armed == NO_SLOT {
                    self.kick_tx(index, log);
                }
            }
        }
        assert(log@ =~= old(log)@ + old(self)@.submitted_ops(slot, len, index, dbuf_tx, auto_tog));
    }

    /// [`TxState::dbuf_numbers`].
    pub fn dbuf_state(&self) -> (r: (u8, u8, u8, u16, u8, u8))
        requires
            self.wf(),
        ensures
            r == self@.dbuf_numbers(),
    {
        (
            self.dbuf[0],
            self.dbuf[1],
            self.cur,
            self.tlen,
            self.armed,
            if self.stopped {
                1
            } else {
                0
            },
        )
    }

    /// [`TxState::queue_numbers`].
    pub fn queue_state(&self) -> (r: (u8, u8, u8, u8, u8))
        requires
            self.wf(),
        ensures
            r == self@.queue_numbers(),
    {
        (
            self.n,
            self.used(),
            self.armed,
            self.q.len(),
            if self.stopped {
                1
            } else {
                0
            },
        )
    }
}

} // verus!
