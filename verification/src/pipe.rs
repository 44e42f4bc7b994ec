//! The registry of pipes: attaching memory, interrupt hooks and the zero-copy handles.

use vstd::prelude::*;

use crate::hw::{ctrl_value, set_buf_mod, write_tx_ctrl_db, clear_transfer, HwOp, EP_N, TRANSFER_FLAG};
use crate::ring::{ring_push, RING};
use crate::rx::{RxCtx, RxState};
use crate::tx::{TxCtx, TxState};

verus! {

/// Whether queues can be attached at all.
pub const RING_ENABLE: bool = true;

/// Whether IN endpoints use both DMA registers in turn.
pub const DBUF_TX: bool = false;

/// Whether the peripheral flips the synchronisation state of double-buffered packets.
pub const DBUF_TX_AUTO_TOG: bool = true;

/// The build-time switches of the driver.
#[derive(Clone, Copy, Debug, PartialEq, Eq, Structural)]
pub struct Switches {
    pub ring_enable: bool,
    pub dbuf_tx: bool,
    pub dbuf_tx_auto_tog: bool,
}

impl Switches {
    /// The switches as shipped.
    pub fn new() -> (r: Self)
        ensures
            r == (Switches {
                ring_enable: RING_ENABLE,
                dbuf_tx: DBUF_TX,
                dbuf_tx_auto_tog: DBUF_TX_AUTO_TOG,
            }),
    {
        Switches {
            ring_enable: RING_ENABLE,
            dbuf_tx: DBUF_TX,
            dbuf_tx_auto_tog: DBUF_TX_AUTO_TOG,
        }
    }
}

/// Diagnostic counters, in ticks of the cycle counter.
#[derive(Clone, Copy, Debug, PartialEq, Eq, Structural)]
pub struct Counters {
    /// Interrupts.
    pub isr_n: u32,
    /// Time spent in interrupts.
    pub isr_sum: u32,
    /// Longest interrupt.
    pub isr_max: u32,
    /// Longest time between two interrupt entries.
    pub gap_max: u32,
    /// Last interrupt entry; 0 means none yet.
    pub last_enter: u32,
    /// Packets received with no free slot left for the next one.
    pub dry_rx: u32,
    /// Packets sent with no submitted slot left to follow.
    pub dry_tx: u32,
}

/// A counter one step on; it wraps around.
pub open spec fn bumped(x: u32) -> u32 {
    if x == u32::MAX {
        0
    } else {
        (x + 1) as u32
    }
}

/// Ticks from `t0` to `now`; the counter wraps around.
pub open spec fn elapsed(t0: u32, now: u32) -> u32 {
    ((now - t0) % 0x1_0000_0000) as u32
}

/// What a [`Pipes`] means.
#[verifier::ext_equal]
pub struct PipesState {
    /// The IN side of each endpoint.
    pub tx: Seq<TxState>,
    /// The OUT side of each endpoint.
    pub rx: Seq<RxState>,
    /// The endpoints with a queue.
    pub rings: Set<int>,
    /// OUT packets handled.
    pub evt_rx: u32,
    /// IN packets handled.
    pub evt_tx: u32,
    pub counters: Counters,
    /// Pause before the flag is cleared, OUT side.
    pub pad_rx: u32,
    /// Pause before the flag is cleared, IN side.
    pub pad_tx: u32,
    pub switches: Switches,
}

/// A slot pool that can be attached: at least two slots, at most [`RING`].
pub open spec fn pool_fits(len: nat) -> bool {
    2 <= len <= RING
}

/// The addresses of a pool, filled up with zeros to [`RING`].
pub open spec fn pool_addrs(slots: Seq<u32>) -> Seq<u32> {
    Seq::new(
        RING as nat,
        |i: int|
            if i < slots.len() {
                slots[i]
            } else {
                0u32
            },
    )
}

impl PipesState {
    /// Every endpoint is in range, and endpoint 0 has no queue.
    pub open spec fn ok(self) -> bool {
        &&& self.tx.len() == EP_N
        &&& self.rx.len() == EP_N
        &&& forall|i: int| 0 <= i < EP_N ==> (#[trigger] self.tx[i]).ok()
        &&& forall|i: int| 0 <= i < EP_N ==> (#[trigger] self.rx[i]).ok()
        &&& self.tx[0] == TxState::detached()
        &&& self.rx[0].n == 0
        &&& self.rx[0].free.len() == 0
        &&& self.rx[0].ready.len() == 0
    }

    /// At power-up: no memory attached anywhere, all counters 0.
    pub open spec fn initial(switches: Switches) -> PipesState {
        PipesState {
            tx: Seq::new(EP_N as nat, |i: int| TxState::detached()),
            rx: Seq::new(EP_N as nat, |i: int| RxState::detached()),
            rings: Set::empty(),
            evt_rx: 0,
            evt_tx: 0,
            counters: Counters {
                isr_n: 0,
                isr_sum: 0,
                isr_max: 0,
                gap_max: 0,
                last_enter: 0,
                dry_rx: 0,
                dry_tx: 0,
            },
            pad_rx: 0,
            pad_tx: 0,
            switches,
        }
    }

    /// A queue of `len` slots can be attached to endpoint `index`.
    pub open spec fn attachable(self, index: usize, len: nat) -> bool {
        self.switches.ring_enable && 1 <= index < EP_N && pool_fits(len)
    }

    /// An IN queue was attached.
    pub open spec fn tx_attached(self, index: usize, slots: Seq<u32>) -> PipesState {
        let fresh = TxState {
            addrs: pool_addrs(slots),
            n: slots.len() as u8,
            ..TxState::detached()
        };
        PipesState {
            tx: self.tx.update(index as int, fresh.refilled()),
            rings: self.rings.insert(index as int),
            ..self
        }
    }

    /// An OUT queue was attached.
    pub open spec fn rx_attached(self, index: usize, slots: Seq<u32>) -> PipesState {
        let fresh = RxState {
            addrs: pool_addrs(slots),
            n: slots.len() as u8,
            ..RxState::detached()
        };
        PipesState {
            rx: self.rx.update(index as int, fresh.refilled()),
            rings: self.rings.insert(index as int),
            ..self
        }
    }

    /// The register writes that go with an attached IN queue.
    pub open spec fn tx_attached_ops(self, index: usize) -> Seq<HwOp> {
        if self.switches.dbuf_tx {
            self.dbuf_start_ops(index)
        } else {
            seq![HwOp::BufMod { ep: index, on: false }]
        }
    }

    /// Double buffering starts on DATA0 and answers NAK until both blocks are filled.
    pub open spec fn dbuf_start_ops(self, index: usize) -> Seq<HwOp> {
        seq![
            HwOp::BufMod { ep: index, on: true },
            HwOp::TxCtrl {
                ep: index,
                value: ctrl_value(false, false, self.switches.dbuf_tx_auto_tog),
            },
        ]
    }

    /// Both sides of an endpoint other than 0 take their slots back.
    pub open spec fn reset(self, index: usize) -> PipesState {
        if 1 <= index < EP_N {
            PipesState {
                tx: self.tx.update(index as int, self.tx[index as int].reset()),
                rx: self.rx.update(index as int, self.rx[index as int].reset()),
                ..self
            }
        } else {
            self
        }
    }

    /// Every endpoint other than 0 takes its slots back.
    pub open spec fn reset_all(self) -> PipesState {
        PipesState {
            tx: self.tx.map(
                |i: int, s: TxState|
                    if i == 0 {
                        s
                    } else {
                        s.reset()
                    },
            ),
            rx: self.rx.map(
                |i: int, s: RxState|
                    if i == 0 {
                        s
                    } else {
                        s.reset()
                    },
            ),
            ..self
        }
    }

    /// The register writes when an endpoint with a queue is enabled: the buffer mode,
    /// which a bus reset has cleared, is stated anew.
    pub open spec fn enable_ops(self, index: usize, dir_in: bool) -> Seq<HwOp> {
        if index == 0 {
            Seq::empty()
        } else if dir_in {
            if self.tx[index as int].n != 0 && self.switches.dbuf_tx {
                self.dbuf_start_ops(index)
            } else {
                Seq::empty()
            }
        } else if self.rx[index as int].n != 0 {
            seq![HwOp::BufMod { ep: index, on: false }]
        } else {
            Seq::empty()
        }
    }

    /// An OUT packet of `len` bytes came in on `index`.
    pub open spec fn after_out(self, index: usize, len: u16) -> PipesState {
        let s = self.rx[index as int];
        if s.n == 0 {
            self
        } else {
            PipesState {
                rx: self.rx.update(index as int, s.received(len)),
                evt_rx: bumped(self.evt_rx),
                counters: Counters {
                    dry_rx: if s.free.len() == 0 {
                        bumped(self.counters.dry_rx)
                    } else {
                        self.counters.dry_rx
                    },
                    ..self.counters
                },
                ..self
            }
        }
    }

    /// The hardware actions of [`PipesState::after_out`].
    pub open spec fn out_ops(self, index: usize) -> Seq<HwOp> {
        let s = self.rx[index as int];
        if s.n == 0 {
            seq![HwOp::IntFg { value: TRANSFER_FLAG }]
        } else {
            s.received_ops(index, self.pad_rx)
        }
    }

    /// The reader is woken: the endpoint has a queue, no packet was ready, and now one
    /// is.
    pub open spec fn out_wakes(self, index: usize) -> bool {
        let s = self.rx[index as int];
        s.n != 0 && s.ready.len() == 0 && s.armed is Some
    }

    /// The IN side of `index` after a packet went out.
    pub open spec fn tx_after_in(self, index: usize) -> TxState {
        let s = self.tx[index as int];
        if self.switches.dbuf_tx {
            s.sent_db()
        } else {
            s.sent()
        }
    }

    /// An IN packet went out on `index`.
    pub open spec fn after_in(self, index: usize) -> PipesState {
        let s = self.tx[index as int];
        let dry = if self.switches.dbuf_tx {
            s.runs_dry_db(self.switches.dbuf_tx_auto_tog)
        } else {
            s.queue.len() == 0
        };
        if s.n == 0 {
            self
        } else {
            PipesState {
                tx: self.tx.update(index as int, self.tx_after_in(index)),
                evt_tx: bumped(self.evt_tx),
                counters: Counters {
                    dry_tx: if dry {
                        bumped(self.counters.dry_tx)
                    } else {
                        self.counters.dry_tx
                    },
                    ..self.counters
                },
                ..self
            }
        }
    }

    /// The hardware actions of [`PipesState::after_in`].
    pub open spec fn in_ops(self, index: usize) -> Seq<HwOp> {
        let s = self.tx[index as int];
        if s.n == 0 {
            seq![HwOp::IntFg { value: TRANSFER_FLAG }]
        } else if self.switches.dbuf_tx {
            s.sent_db_ops(index, self.switches.dbuf_tx_auto_tog)
        } else {
            s.sent_ops(index, self.pad_tx)
        }
    }

    /// The producer is woken: the endpoint has a queue and enough slots are free.
    pub open spec fn in_wakes(self, index: usize) -> bool {
        self.tx[index as int].n != 0 && self.tx_after_in(index).wakes()
    }

    /// The slot that has been free for longest leaves the free queue of an IN endpoint.
    pub open spec fn tx_allocated(self, index: usize) -> PipesState {
        let s = self.tx[index as int];
        PipesState {
            tx: self.tx.update(index as int, TxState { free: s.free.skip(1), ..s }),
            ..self
        }
    }

    /// A granted slot of an IN endpoint was given up.
    pub open spec fn tx_discarded(self, index: usize, slot: u8) -> PipesState {
        let s = self.tx[index as int];
        PipesState {
            tx: self.tx.update(index as int, TxState { free: ring_push(s.free, slot), ..s }),
            ..self
        }
    }

    /// A filled slot was queued on an IN endpoint.
    pub open spec fn tx_submitted(self, index: usize, slot: u8, len: u16) -> PipesState {
        PipesState {
            tx: self.tx.update(
                index as int,
                self.tx[index as int].submitted(slot, len, self.switches.dbuf_tx),
            ),
            ..self
        }
    }

    /// The register writes of [`PipesState::tx_submitted`].
    pub open spec fn tx_submitted_ops(self, index: usize, slot: u8, len: u16) -> Seq<HwOp> {
        self.tx[index as int].submitted_ops(
            slot,
            len,
            index,
            self.switches.dbuf_tx,
            self.switches.dbuf_tx_auto_tog,
        )
    }

    /// The reader of an OUT endpoint asked for a packet.
    pub open spec fn rx_polled(self, index: usize) -> PipesState {
        PipesState {
            rx: self.rx.update(index as int, self.rx[index as int].polled()),
            ..self
        }
    }

    /// A read slot of an OUT endpoint was given back.
    pub open spec fn rx_released(self, index: usize, slot: u8) -> PipesState {
        PipesState {
            rx: self.rx.update(index as int, self.rx[index as int].released(slot)),
            ..self
        }
    }

    /// An idle OUT endpoint was started.
    pub open spec fn rx_resumed(self, index: usize) -> PipesState {
        PipesState {
            rx: self.rx.update(index as int, self.rx[index as int].resumed()),
            ..self
        }
    }

    /// The oldest ready slot of an OUT endpoint was taken and an idle endpoint started.
    pub open spec fn rx_read(self, index: usize) -> PipesState {
        if self.rx[index as int].ready.len() > 0 {
            self.rx_polled(index).rx_resumed(index)
        } else {
            self.rx_polled(index)
        }
    }

    /// The register writes of [`PipesState::rx_read`].
    pub open spec fn rx_read_ops(self, index: usize) -> Seq<HwOp> {
        self.rx[index as int].resumed_ops(index)
    }
}

/// All pipes of the device.
pub struct Pipes {
    tx: [TxCtx; 16],
    rx: [RxCtx; 16],
    ring_bits: u16,
    evt_rx: u32,
    evt_tx: u32,
    counters: Counters,
    pad_rx: u32,
    pad_tx: u32,
    switches: Switches,
}

/// Bit `i` of the word is set.
spec fn has_bit(bits: u16, i: int) -> bool {
    0 <= i < 16 && bits & (1u16 << (i as u16)) != 0
}

proof fn lemma_set_bit(bits: u16, i: u16, j: u16)
    by (bit_vector)
    requires
        i < 16,
        j < 16,
    ensures
        ((bits | (1u16 << j)) & (1u16 << i) != 0) <==> (i == j || bits & (1u16 << i) != 0),
        0u16 & (1u16 << i) == 0,
{
}

impl View for Pipes {
    type V = PipesState;

    closed spec fn view(&self) -> PipesState {
        PipesState {
            tx: self.tx@.map(|i: int, c: TxCtx| c@),
            rx: self.rx@.map(|i: int, c: RxCtx| c@),
            rings: Set::new(|i: int| has_bit(self.ring_bits, i)),
            evt_rx: self.evt_rx,
            evt_tx: self.evt_tx,
            counters: self.counters,
            pad_rx: self.pad_rx,
            pad_tx: self.pad_tx,
            switches: self.switches,
        }
    }
}

impl Pipes {
    /// The indices of all queues are in range.
    pub closed spec fn indices_ok(&self) -> bool {
        &&& forall|i: int| 0 <= i < EP_N ==> (#[trigger] self.tx@[i]).indices_ok()
        &&& forall|i: int| 0 <= i < EP_N ==> (#[trigger] self.rx@[i]).indices_ok()
    }

    /// Every index and slot number is in range, and endpoint 0 has no queue.
    pub open spec fn wf(&self) -> bool {
        self.indices_ok() && self@.ok()
    }

    /// The parts of a registry in order are in order.
    proof fn lemma_parts(&self, i: int)
        requires
            self.wf(),
            0 <= i < EP_N,
        ensures
            self.tx@[i].wf(),
            self.rx@[i].wf(),
            self@.tx[i] == self.tx@[i]@,
            self@.rx[i] == self.rx@[i]@,
    {
        assert(self@.tx[i].ok());
        assert(self@.rx[i].ok());
    }

    /// The registry at power-up.
    pub fn new(switches: Switches) -> (r: Self)
        ensures
            r.wf(),
            r@ == PipesState::initial(switches),
    {
        let r = Pipes {
            tx: [TxCtx::empty();16],
            rx: [RxCtx::empty();16],
            ring_bits: 0,
            evt_rx: 0,
            evt_tx: 0,
            counters: Counters {
                isr_n: 0,
                isr_sum: 0,
                isr_max: 0,
                gap_max: 0,
                last_enter: 0,
                dry_rx: 0,
                dry_tx: 0,
            },
            pad_rx: 0,
            pad_tx: 0,
            switches,
        };
        proof {
            assert forall|i: int| !has_bit(0, i) by {
                if 0 <= i < 16 {
                    lemma_set_bit(0, i as u16, 0);
                }
            }
        }
        assert(r@ =~= PipesState::initial(switches));
        r
    }
}

/// Sets the pauses before the flag is cleared, in ticks: `rx` for OUT, `tx` for IN.
pub fn set_isr_pad(p: &mut Pipes, rx: u32, tx: u32)
    requires
        old(p).wf(),
    ensures
        final(p).wf(),
        final(p)@ == (PipesState { pad_rx: rx, pad_tx: tx, ..old(p)@ }),
{
    p.pad_rx = rx;
    p.pad_tx = tx;
    assert(p@ =~= (PipesState { pad_rx: rx, pad_tx: tx, ..old(p)@ }));
}

/// The pauses before the flag is cleared: OUT, then IN.
pub fn isr_pad(p: &Pipes) -> (r: (u32, u32))
    ensures
        r == (p@.pad_rx, p@.pad_tx),
{
    (p.pad_rx, p.pad_tx)
}

/// The writes that start the cycle counter from 0, with no interrupt: stop, clear the
/// status, clear the count, put the match value out of reach, run.
pub open spec fn metrics_init_ops() -> Seq<HwOp> {
    seq![
        HwOp::SysTick { word: 0, value: 0 },
        HwOp::SysTick { word: 1, value: 0 },
        HwOp::SysTick { word: 2, value: 0 },
        HwOp::SysTick { word: 3, value: 0 },
        HwOp::SysTick { word: 4, value: 0xFFFF_FFFF },
        HwOp::SysTick { word: 5, value: 0xFFFF_FFFF },
        HwOp::SysTick { word: 0, value: 1 },
    ]
}

/// Logs [`metrics_init_ops`].
pub fn metrics_init(log: &mut Vec<HwOp>)
    ensures
        final(log)@ == old(log)@ + metrics_init_ops(),
{
    log.push(HwOp::SysTick { word: 0, value: 0 });
    log.push(HwOp::SysTick { word: 1, value: 0 });
    log.push(HwOp::SysTick { word: 2, value: 0 });
    log.push(HwOp::SysTick { word: 3, value: 0 });
    log.push(HwOp::SysTick { word: 4, value: 0xFFFF_FFFF });
    log.push(HwOp::SysTick { word: 5, value: 0xFFFF_FFFF });
    log.push(HwOp::SysTick { word: 0, value: 1 });
    assert(log@ =~= old(log)@ + metrics_init_ops());
}

/// The counters after an interrupt was entered at `now`.
pub open spec fn entered(c: Counters, now: u32) -> Counters {
    let gap = elapsed(c.last_enter, now);
    Counters {
        isr_n: bumped(c.isr_n),
        gap_max: if c.last_enter != 0 && gap > c.gap_max {
            gap
        } else {
            c.gap_max
        },
        last_enter: now,
        ..c
    }
}

/// Counts an interrupt entry at counter value `now`, which is handed back.
pub fn metrics_enter(p: &mut Pipes, now: u32) -> (r: u32)
    requires
        old(p).wf(),
    ensures
        final(p).wf(),
        r == now,
        final(p)@ == (PipesState { counters: entered(old(p)@.counters, now), ..old(p)@ }),
{
    let last: u32 = p.counters.last_enter;
    p.counters.last_enter = now;
    if last != 0 {
        let gap: u32 = now.wrapping_sub(last);
        if gap > p.counters.gap_max {
            p.counters.gap_max = gap;
        }
    }
    p.counters.isr_n = p.counters.isr_n.wrapping_add(1);
    assert(p@ =~= (PipesState { counters: entered(old(p)@.counters, now), ..old(p)@ }));
    now
}

/// The counters after an interrupt that was entered at `t0` was left at `now`.
pub open spec fn exited(c: Counters, t0: u32, now: u32) -> Counters {
    let d = elapsed(t0, now);
    Counters {
        isr_sum: ((c.isr_sum + d) % 0x1_0000_0000) as u32,
        isr_max: if d > c.isr_max {
            d
        } else {
            c.isr_max
        },
        ..c
    }
}

/// Counts the time from `t0` to `now` as spent in an interrupt.
pub fn metrics_exit(p: &mut Pipes, t0: u32, now: u32)
    requires
        old(p).wf(),
    ensures
        final(p).wf(),
        final(p)@ == (PipesState { counters: exited(old(p)@.counters, t0, now), ..old(p)@ }),
{
    let d: u32 = now.wrapping_sub(t0);
    p.counters.isr_sum = p.counters.isr_sum.wrapping_add(d);
    if d > p.counters.isr_max {
        p.counters.isr_max = d;
    }
    assert(p@ =~= (PipesState { counters: exited(old(p)@.counters, t0, now), ..old(p)@ }));
}

/// Interrupts, time in them, longest one, longest gap, dry OUT and dry IN packets.
pub fn metrics(p: &Pipes) -> (r: (u32, u32, u32, u32, u32, u32))
    ensures
        r == (
            p@.counters.isr_n,
            p@.counters.isr_sum,
            p@.counters.isr_max,
            p@.counters.gap_max,
            p@.counters.dry_rx,
            p@.counters.dry_tx,
        ),
{
    (
        p.counters.isr_n,
        p.counters.isr_sum,
        p.counters.isr_max,
        p.counters.gap_max,
        p.counters.dry_rx,
        p.counters.dry_tx,
    )
}

/// Sets the counters of [`metrics`] to 0. The last interrupt entry is kept, so the
/// gap to the next one still counts.
pub fn metrics_clear(p: &mut Pipes)
    requires
        old(p).wf(),
    ensures
        final(p).wf(),
        final(p)@ == (PipesState {
            counters: Counters {
                isr_n: 0,
                isr_sum: 0,
                isr_max: 0,
                gap_max: 0,
                dry_rx: 0,
                dry_tx: 0,
                ..old(p)@.counters
            },
            ..old(p)@
        }),
{
    p.counters.isr_n = 0;
    p.counters.isr_sum = 0;
    p.counters.isr_max = 0;
    p.counters.gap_max = 0;
    p.counters.dry_rx = 0;
    p.counters.dry_tx = 0;
    assert(p@.tx =~= old(p)@.tx);
    assert(p@.rx =~= old(p)@.rx);
    assert(p@.rings =~= old(p)@.rings);
}

/// OUT packets handled.
pub fn evt_rx(p: &Pipes) -> (r: u32)
    ensures
        r == p@.evt_rx,
{
    p.evt_rx
}

/// IN packets handled.
pub fn evt_tx(p: &Pipes) -> (r: u32)
    ensures
        r == p@.evt_tx,
{
    p.evt_tx
}

/// Whether an endpoint has a queue.
pub fn is_ring(p: &Pipes, index: usize) -> (r: bool)
    ensures
        r == (1 <= index < EP_N && p@.rings.contains(index as int)),
{
    if index == 0 || index >= EP_N {
        return false;
    }
    assert(1u16 << (index as u16) == 1u16 << index) by (bit_vector)
        requires
            index < 16,
    ;
    p.ring_bits & (1u16 << index) != 0
}

/// Copies the addresses of a pool into an array of [`RING`].
fn pool_array(slots: &[u32]) -> (r: [u32; 8])
    requires
        slots@.len() <= RING,
    ensures
        r@ == pool_addrs(slots@),
{
    let mut addrs: [u32; 8] = [0u32; 8];
    let mut i: usize = 0;
    while i < slots.len()
        invariant
            i <= slots@.len() <= 8,
            addrs@.len() == 8,
            forall|j: int| 0 <= j < i ==> addrs@[j] == slots@[j],
            forall|j: int| i <= j < 8 ==> addrs@[j] == 0,
        decreases slots@.len() - i,
    {
        addrs[i] = slots[i];
        i = i + 1;
    }
    assert(addrs@ =~= pool_addrs(slots@));
    addrs
}

/// Marks an endpoint as one with a queue.
fn mark_ring(p: &mut Pipes, index: usize)
    requires
        1 <= index < EP_N,
        old(p).wf(),
    ensures
        final(p).wf(),
        final(p)@ == (PipesState { rings: old(p)@.rings.insert(index as int), ..old(p)@ }),
{
    let ghost bits = p.ring_bits;
    p.ring_bits = p.ring_bits | (1u16 << index);
    assert(1u16 << (index as u16) == 1u16 << index) by (bit_vector)
        requires
            index < 16,
    ;
    assert(p@.tx =~= old(p)@.tx);
    assert(p@.rx =~= old(p)@.rx);
    assert forall|i: int| p@.rings.contains(i) <==> old(p)@.rings.insert(index as int).contains(i) by {
        if 0 <= i < 16 {
            lemma_set_bit(bits, i as u16, index as u16);
        }
        assert(p@.rings.contains(i) <==> has_bit(p.ring_bits, i));
        assert(old(p)@.rings.contains(i) <==> has_bit(bits, i));
    }
    assert(p@.rings =~= old(p)@.rings.insert(index as int));
}

/// Attaches an IN queue to endpoint `index`; `slots` are the DMA addresses of its
/// slots. Says whether that worked: queues have to be enabled, the endpoint a data
/// endpoint, and the pool neither too small nor too large.
pub fn init_tx(p: &mut Pipes, index: usize, slots: &[u32], log: &mut Vec<HwOp>) -> (r: bool)
    requires
        old(p).wf(),
    ensures
        final(p).wf(),
        r == old(p)@.attachable(index, slots@.len()),
        r ==> final(p)@ == old(p)@.tx_attached(index, slots@) && final(log)@ == old(log)@ + old(
            p,
        )@.tx_attached_ops(index),
        !r ==> final(p)@ == old(p)@ && final(log)@ == old(log)@,
{
    if !p.switches.ring_enable || index == 0 || index >= EP_N || slots.len() > RING || slots.len()
        < 2 {
        return false;
    }
    let n: u8 = slots.len() as u8;
    p.tx[index] = TxCtx::attached(pool_array(slots), n);
    assert(p@.tx =~= old(p)@.tx.update(index as int, p.tx@[index as int]@));
    assert(p@.rx =~= old(p)@.rx);
    assert(p@.rings =~= old(p)@.rings);
    mark_ring(p, index);
    set_buf_mod(index, p.switches.dbuf_tx, log);
    if p.switches.dbuf_tx {
        write_tx_ctrl_db(index, false, false, p.switches.dbuf_tx_auto_tog, log);
    }
    assert(p@ =~= old(p)@.tx_attached(index, slots@));
    assert(log@ =~= old(log)@ + old(p)@.tx_attached_ops(index));
    true
}

/// Attaches an OUT queue to endpoint `index`, on the conditions of [`init_tx`].
pub fn init_rx(p: &mut Pipes, index: usize, slots: &[u32], log: &mut Vec<HwOp>) -> (r: bool)
    requires
        old(p).wf(),
    ensures
        final(p).wf(),
        r == old(p)@.attachable(index, slots@.len()),
        r ==> final(p)@ == old(p)@.rx_attached(index, slots@) && final(log)@ == old(log)@.push(
            HwOp::BufMod { ep: index, on: false },
        ),
        !r ==> final(p)@ == old(p)@ && final(log)@ == old(log)@,
{
    if !p.switches.ring_enable || index == 0 || index >= EP_N || slots.len() > RING || slots.len()
        < 2 {
        return false;
    }
    let n: u8 = slots.len() as u8;
    p.rx[index] = RxCtx::attached(pool_array(slots), n);
    assert(p@.rx =~= old(p)@.rx.update(index as int, p.rx@[index as int]@));
    assert(p@.tx =~= old(p)@.tx);
    assert(p@.rings =~= old(p)@.rings);
    mark_ring(p, index);
    set_buf_mod(index, false, log);
    assert(p@ =~= old(p)@.rx_attached(index, slots@));
    true
}

/// Takes all slots of an endpoint back. Endpoint 0 and numbers out of range are left
/// alone.
pub fn reset(p: &mut Pipes, index: usize)
    requires
        old(p).wf(),
    ensures
        final(p).wf(),
        final(p)@ == old(p)@.reset(index),
{
    if index == 0 || index >= EP_N {
        return ;
    }
    proof {
        p.lemma_parts(index as int);
    }
    p.tx[index].reset();
    p.rx[index].reset();
    assert(p@.rings =~= old(p)@.rings);
    assert(p@ =~= old(p)@.reset(index));
}

/// Takes all slots of all endpoints back.
pub fn reset_all(p: &mut Pipes)
    requires
        old(p).wf(),
    ensures
        final(p).wf(),
        final(p)@ == old(p)@.reset_all(),
{
    let ghost start = p@;
    let mut i: usize = 0;
    while i < EP_N
        invariant
            p.wf(),
            i <= EP_N,
            start.ok(),
            p@ == (PipesState { tx: p@.tx, rx: p@.rx, ..start }),
            forall|j: int|
                0 <= j < EP_N ==> #[trigger] p@.tx[j] == (if 1 <= j < i {
                    start.tx[j].reset()
                } else {
                    start.tx[j]
                }),
            forall|j: int|
                0 <= j < EP_N ==> #[trigger] p@.rx[j] == (if 1 <= j < i {
                    start.rx[j].reset()
                } else {
                    start.rx[j]
                }),
        decreases EP_N - i,
    {
        reset(p, i);
        i = i + 1;
    }
    assert(p@ =~= start.reset_all());
}

/// An endpoint is enabled or disabled: its queues are reset, and what a bus reset has
/// cleared in the buffer mode is stated anew. Receiving waits for the reader, who asks for
/// a packet or gives a slot back.
pub fn on_enable(p: &mut Pipes, index: usize, _enabled: bool, dir_in: bool, log: &mut Vec<HwOp>)
    requires
        old(p).wf(),
        index < EP_N,
    ensures
        final(p).wf(),
        final(p)@ == old(p)@.reset(index),
        final(log)@ == old(log)@ + old(p)@.enable_ops(index, dir_in),
{
    reset(p, index);
    proof {
        p.lemma_parts(index as int);
    }
    if index != 0 {
        if dir_in {
            if p.tx[index].depth() != 0 && p.switches.dbuf_tx {
                set_buf_mod(index, true, log);
                write_tx_ctrl_db(index, false, false, p.switches.dbuf_tx_auto_tog, log);
            }
        } else if p.rx[index].depth() != 0 {
            set_buf_mod(index, false, log);
        }
    }
    assert(log@ =~= old(log)@ + old(p)@.enable_ops(index, dir_in));
}

/// An OUT packet of `len` bytes came in. Says whether to wake the reader, which is when
/// the first packet gets ready. A completion with nothing armed brings no packet.
pub fn on_out(p: &mut Pipes, index: usize, len: u16, log: &mut Vec<HwOp>) -> (r: bool)
    requires
        old(p).wf(),
        index < EP_N,
    ensures
        final(p).wf(),
        final(p)@ == old(p)@.after_out(index, len),
        final(log)@ == old(log)@ + old(p)@.out_ops(index),
        r == old(p)@.out_wakes(index),
{
    proof {
        p.lemma_parts(index as int);
    }
    if p.rx[index].depth() == 0 {
        clear_transfer(log);
        assert(log@ =~= old(log)@ + old(p)@.out_ops(index));
        return false;
    }
    let first = p.rx[index].ready_len() == 0 && p.rx[index].is_armed();
    let pad: u32 = p.pad_rx;
    let dry = p.rx[index].on_out(index, len, pad, log);
    if dry {
        p.counters.dry_rx = p.counters.dry_rx.wrapping_add(1);
    }
    p.evt_rx = p.evt_rx.wrapping_add(1);
    assert(p@.rings =~= old(p)@.rings);
    assert(p@ =~= old(p)@.after_out(index, len));
    first
}

/// An IN packet went out. Says whether to wake the producer.
pub fn on_in(p: &mut Pipes, index: usize, log: &mut Vec<HwOp>) -> (r: bool)
    requires
        old(p).wf(),
        index < EP_N,
    ensures
        final(p).wf(),
        final(p)@ == old(p)@.after_in(index),
        final(log)@ == old(log)@ + old(p)@.in_ops(index),
        r == old(p)@.in_wakes(index),
{
    proof {
        p.lemma_parts(index as int);
    }
    if p.tx[index].depth() == 0 {
        clear_transfer(log);
        assert(log@ =~= old(log)@ + old(p)@.in_ops(index));
        return false;
    }
    let pad: u32 = p.pad_tx;
    let auto_tog = p.switches.dbuf_tx_auto_tog;
    let dry = if p.switches.dbuf_tx {
        p.tx[index].on_in_db(index, auto_tog, log)
    } else {
        p.tx[index].on_in(index, pad, log)
    };
    if dry {
        p.counters.dry_tx = p.counters.dry_tx.wrapping_add(1);
    }
    p.evt_tx = p.evt_tx.wrapping_add(1);
    assert(p@.rings =~= old(p)@.rings);
    assert(p@ =~= old(p)@.after_in(index));
    p.tx[index].wakes()
}

/// Starts an idle OUT endpoint on the next free slot.
pub fn resume_rx(p: &mut Pipes, index: usize, log: &mut Vec<HwOp>)
    requires
        old(p).wf(),
        index < EP_N,
    ensures
        final(p).wf(),
        final(p)@ == old(p)@.rx_resumed(index),
        final(log)@ == old(log)@ + old(p)@.rx[index as int].resumed_ops(index),
{
    proof {
        p.lemma_parts(index as int);
    }
    p.rx[index].resume(index, log);
    assert(p@.rings =~= old(p)@.rings);
    assert(p@ =~= old(p)@.rx_resumed(index));
}

/// State of a double-buffered IN endpoint: the two blocks, the block used next, the
/// remembered length, the armed slot and whether it is stopped.
pub fn tx_dbuf_state(p: &Pipes, index: usize) -> (r: (u8, u8, u8, u16, u8, u8))
    requires
        p.wf(),
    ensures
        1 <= index < EP_N ==> r == p@.tx[index as int].dbuf_numbers(),
        !(1 <= index < EP_N) ==> r == (0xFFu8, 0xFFu8, 0u8, 0u16, 0xFFu8, 1u8),
{
    if index == 0 || index >= EP_N {
        return (0xFF, 0xFF, 0, 0, 0xFF, 1);
    }
    proof {
        p.lemma_parts(index as int);
    }
    p.tx[index].dbuf_state()
}

/// State of an endpoint's queue: of the IN queue if there is one, else of the OUT
/// queue.
pub fn dbg_state(p: &Pipes, index: usize) -> (r: (u8, u8, u8, u8, u8))
    requires
        p.wf(),
    ensures
        1 <= index < EP_N ==> r == (if p@.tx[index as int].n != 0 {
            p@.tx[index as int].queue_numbers()
        } else {
            p@.rx[index as int].queue_numbers()
        }),
        !(1 <= index < EP_N) ==> r == (0u8, 0u8, 0u8, 0u8, 0u8),
{
    if index == 0 || index >= EP_N {
        return (0, 0, 0, 0, 0);
    }
    proof {
        p.lemma_parts(index as int);
    }
    if p.tx[index].depth() != 0 {
        p.tx[index].queue_state()
    } else {
        p.rx[index].queue_state()
    }
}

/// One unit of DMA memory.
#[derive(Clone, Copy)]
pub struct DmaSlot<const SIZE: usize> {
    pub data: [u8; SIZE],
}

impl<const SIZE: usize> DmaSlot<SIZE> {
    /// A slot of zeros.
    pub fn new() -> (r: Self)
        ensures
            r.data@ == Seq::new(SIZE as nat, |i: int| 0u8),
    {
        let r = DmaSlot { data: [0u8;SIZE] };
        assert(r.data@ =~= Seq::new(SIZE as nat, |i: int| 0u8));
        r
    }
}

/// The right to fill one slot of an IN queue.
pub struct TxGrant {
    slot: u8,
    ep: usize,
    addr: u32,
}

impl TxGrant {
    /// The slot.
    pub closed spec fn spec_slot(&self) -> u8 {
        self.slot
    }

    /// The endpoint that the slot belongs to.
    pub closed spec fn spec_ep(&self) -> usize {
        self.ep
    }

    /// DMA address of the slot.
    pub closed spec fn spec_addr(&self) -> u32 {
        self.addr
    }

    /// Slot and endpoint are in range.
    pub open spec fn wf(&self) -> bool {
        self.spec_slot() < RING && 1 <= self.spec_ep() < EP_N
    }

    /// DMA address of the slot.
    pub fn addr(&self) -> (r: u32)
        ensures
            r == self.spec_addr(),
    {
        self.addr
    }
}

/// A granted IN slot together with its memory. The owner writes the bytes and hands
/// it to [`TxPipe::submit`], or gives it up with [`TxBuf::discard`].
pub struct TxBuf<'a> {
    pub grant: TxGrant,
    /// The memory of the slot.
    pub data: &'a mut [u8],
}

impl<'a> TxBuf<'a> {
    /// The slot.
    pub open spec fn spec_slot(&self) -> u8 {
        self.grant.spec_slot()
    }

    /// The endpoint that the slot belongs to.
    pub open spec fn spec_ep(&self) -> usize {
        self.grant.spec_ep()
    }

    /// The bytes in the slot.
    pub open spec fn bytes(&self) -> Seq<u8> {
        self.data@
    }

    /// Slot and endpoint are in range.
    pub open spec fn wf(&self) -> bool {
        self.grant.wf()
    }

    /// Joins a grant with the memory at its address. What the owner writes is written
    /// there, without a copy.
    pub fn attach(grant: TxGrant, data: &'a mut [u8]) -> (r: Self)
        ensures
            r.grant == grant,
            r.bytes() == old(data)@,
            final(data)@ == final(r.data)@,
    {
        TxBuf { grant, data }
    }

    /// The memory of the slot.
    pub fn buf(&mut self) -> (r: &mut [u8])
        ensures
            r@ == old(self).bytes(),
            final(self).bytes() == final(r)@,
            final(final(self).data)@ == final(old(self).data)@,
            final(self).grant == old(self).grant,
    {
        self.data
    }

    /// Size of the slot.
    pub fn capacity(&self) -> (r: usize)
        ensures
            r == self.bytes().len(),
    {
        self.data.len()
    }

    /// Gives the slot up: it is free again. The memory keeps its bytes.
    pub fn discard(self, p: &mut Pipes)
        requires
            old(p).wf(),
            self.wf(),
        ensures
            final(p).wf(),
            final(p)@ == old(p)@.tx_discarded(self.spec_ep(), self.spec_slot()),
            final(self.data)@ == self.bytes(),
    {
        let ep: usize = self.grant.ep;
        let slot: u8 = self.grant.slot;
        proof {
            p.lemma_parts(ep as int);
        }
        p.tx[ep].push_free(slot);
        assert(p@.rings =~= old(p)@.rings);
        assert(p@ =~= old(p)@.tx_discarded(ep, slot));
    }
}

/// Handle of an IN queue.
pub struct TxPipe {
    pub index: usize,
}

impl TxPipe {
    /// The handle of endpoint `index`.
    pub fn new(index: usize) -> (r: Self)
        ensures
            r.index == index,
    {
        TxPipe { index }
    }

    /// Asks for a free slot. With none, the caller waits for [`on_in`] to wake it.
    pub fn allocate(&self, p: &mut Pipes) -> (r: Option<TxGrant>)
        requires
            old(p).wf(),
            self.index < EP_N,
        ensures
            final(p).wf(),
            r is None <==> old(p)@.tx[self.index as int].free.len() == 0,
            r is None ==> final(p)@ == old(p)@,
            r matches Some(g) ==> g.wf() && g.spec_ep() == self.index && g.spec_slot()
                == old(p)@.tx[self.index as int].free[0] && g.spec_addr()
                == old(p)@.tx[self.index as int].addrs[g.spec_slot() as int] && final(p)@
                == old(p)@.tx_allocated(self.index),
    {
        let index: usize = self.index;
        proof {
            p.lemma_parts(index as int);
        }
        let r = p.tx[index].pop_free();
        assert(p@.rings =~= old(p)@.rings);
        match r {
            Some(slot) => {
                assert(p@ =~= old(p)@.tx_allocated(index));
                Some(TxGrant { slot, ep: index, addr: p.tx[index].addr(slot) })
            },
            None => {
                assert(p@ =~= old(p)@);
                None
            },
        }
    }

    /// Queues a filled slot of `len` bytes; an idle endpoint starts on it. The memory
    /// keeps the bytes that were written to it.
    pub fn submit(&self, p: &mut Pipes, buf: TxBuf<'_>, len: u16, log: &mut Vec<HwOp>)
        requires
            old(p).wf(),
            1 <= self.index < EP_N,
            buf.wf(),
        ensures
            final(p).wf(),
            final(p)@ == old(p)@.tx_submitted(self.index, buf.spec_slot(), len),
            final(buf.data)@ == buf.bytes(),
            final(log)@ == old(log)@ + old(p)@.tx_submitted_ops(self.index, buf.spec_slot(), len),
    {
        let index: usize = self.index;
        let slot: u8 = buf.grant.slot;
        let dbuf_tx = p.switches.dbuf_tx;
        let auto_tog = p.switches.dbuf_tx_auto_tog;
        proof {
            p.lemma_parts(index as int);
        }
        p.tx[index].submit(slot, len, index, dbuf_tx, auto_tog, log);
        assert(p@.rings =~= old(p)@.rings);
        assert(p@ =~= old(p)@.tx_submitted(index, slot, len));
    }

    /// Slots that are not free.
    pub fn used(&self, p: &Pipes) -> (r: u8)
        requires
            p.wf(),
            self.index < EP_N,
        ensures
            r == p@.tx[self.index as int].used(),
    {
        proof {
            p.lemma_parts(self.index as int);
        }
        p.tx[self.index].used()
    }

    /// Number of slots; 0 while no memory is attached.
    pub fn capacity(&self, p: &Pipes) -> (r: u8)
        requires
            p.wf(),
            self.index < EP_N,
        ensures
            r == p@.tx[self.index as int].n,
    {
        proof {
            p.lemma_parts(self.index as int);
        }
        p.tx[self.index].depth()
    }
}

/// The right to read one received slot of an OUT queue.
pub struct RxGrant {
    slot: u8,
    ep: usize,
    addr: u32,
    len: u16,
}

impl RxGrant {
    /// The slot.
    pub closed spec fn spec_slot(&self) -> u8 {
        self.slot
    }

    /// The endpoint that the slot belongs to.
    pub closed spec fn spec_ep(&self) -> usize {
        self.ep
    }

    /// DMA address of the slot.
    pub closed spec fn spec_addr(&self) -> u32 {
        self.addr
    }

    /// Bytes received into the slot.
    pub closed spec fn spec_len(&self) -> u16 {
        self.len
    }

    /// Slot and endpoint are in range.
    pub open spec fn wf(&self) -> bool {
        self.spec_slot() < RING && 1 <= self.spec_ep() < EP_N
    }

    /// DMA address of the slot.
    pub fn addr(&self) -> (r: u32)
        ensures
            r == self.spec_addr(),
    {
        self.addr
    }

    /// Bytes received into the slot.
    pub fn received(&self) -> (r: u16)
        ensures
            r == self.spec_len(),
    {
        self.len
    }
}

/// A received OUT slot together with its memory. The owner reads the bytes and hands
/// it to [`RxPipe::release`] or [`RxBuf::discard`].
pub struct RxBuf<'a> {
    slot: u8,
    ep: usize,
    data: &'a [u8],
    len: u16,
}

impl<'a> RxBuf<'a> {
    /// The slot.
    pub closed spec fn spec_slot(&self) -> u8 {
        self.slot
    }

    /// The endpoint that the slot belongs to.
    pub closed spec fn spec_ep(&self) -> usize {
        self.ep
    }

    /// The whole memory of the slot.
    pub closed spec fn memory(&self) -> Seq<u8> {
        self.data@
    }

    /// Bytes received into the slot.
    pub closed spec fn spec_len(&self) -> u16 {
        self.len
    }

    /// Slot and endpoint are in range.
    pub open spec fn wf(&self) -> bool {
        self.spec_slot() < RING && 1 <= self.spec_ep() < EP_N
    }

    /// Joins a grant with the memory at its address.
    pub fn attach(grant: RxGrant, data: &'a [u8]) -> (r: Self)
        ensures
            r.spec_slot() == grant.spec_slot(),
            r.spec_ep() == grant.spec_ep(),
            r.spec_len() == grant.spec_len(),
            r.memory() == data@,
            grant.wf() ==> r.wf(),
    {
        RxBuf { slot: grant.slot, ep: grant.ep, data, len: grant.len }
    }

    /// The received bytes.
    pub fn data(&self) -> (r: &[u8])
        requires
            self.spec_len() <= self.memory().len(),
        ensures
            r@ == self.memory().take(self.spec_len() as int),
    {
        vstd::slice::slice_subrange(self.data, 0, self.len as usize)
    }

    /// Number of received bytes.
    pub fn len(&self) -> (r: usize)
        ensures
            r == self.spec_len(),
    {
        self.len as usize
    }

    /// Whether the packet was empty.
    pub fn is_empty(&self) -> (r: bool)
        ensures
            r == (self.spec_len() == 0),
    {
        self.len == 0
    }

    /// Gives the slot back to the endpoint it came from, as [`RxPipe::release`] does: an
    /// idle endpoint starts.
    pub fn discard(self, p: &mut Pipes, log: &mut Vec<HwOp>)
        requires
            old(p).wf(),
            self.wf(),
        ensures
            final(p).wf(),
            final(p)@ == old(p)@.rx_released(self.spec_ep(), self.spec_slot()),
            final(log)@ == old(log)@ + old(p)@.rx[self.spec_ep() as int].released_ops(
                self.spec_slot(),
                self.spec_ep(),
            ),
    {
        let pipe = RxPipe::new(self.ep);
        pipe.release(p, self, log);
    }
}

/// Handle of an OUT queue.
pub struct RxPipe {
    pub index: usize,
}

impl RxPipe {
    /// The handle of endpoint `index`.
    pub fn new(index: usize) -> (r: Self)
        ensures
            r.index == index,
    {
        RxPipe { index }
    }

    /// Asks for a received slot. With none, an idle endpoint is started and the caller
    /// waits for [`on_out`] to wake it.
    pub fn recv(&self, p: &mut Pipes, log: &mut Vec<HwOp>) -> (r: Option<RxGrant>)
        requires
            old(p).wf(),
            self.index < EP_N,
        ensures
            final(p).wf(),
            final(p)@ == old(p)@.rx_polled(self.index),
            final(log)@ == old(log)@ + old(p)@.rx[self.index as int].polled_ops(self.index),
            r is None <==> old(p)@.rx[self.index as int].ready.len() == 0,
            r matches Some(g) ==> g.wf() && g.spec_ep() == self.index && g.spec_slot()
                == old(p)@.rx[self.index as int].ready[0] && g.spec_addr()
                == old(p)@.rx[self.index as int].addrs[g.spec_slot() as int] && g.spec_len()
                == old(p)@.rx[self.index as int].lens[g.spec_slot() as int],
    {
        let index: usize = self.index;
        proof {
            p.lemma_parts(index as int);
        }
        let r = p.rx[index].poll(index, log);
        assert(p@.rings =~= old(p)@.rings);
        assert(p@ =~= old(p)@.rx_polled(index));
        match r {
            Some(slot) => Some(
                RxGrant {
                    slot,
                    ep: index,
                    addr: p.rx[index].addr(slot),
                    len: p.rx[index].received_len(slot),
                },
            ),
            None => None,
        }
    }

    /// Gives a slot back; an idle endpoint starts.
    pub fn release(&self, p: &mut Pipes, buf: RxBuf<'_>, log: &mut Vec<HwOp>)
        requires
            old(p).wf(),
            1 <= self.index < EP_N,
            buf.wf(),
        ensures
            final(p).wf(),
            final(p)@ == old(p)@.rx_released(self.index, buf.spec_slot()),
            final(log)@ == old(log)@ + old(p)@.rx[self.index as int].released_ops(
                buf.spec_slot(),
                self.index,
            ),
    {
        let index: usize = self.index;
        let slot: u8 = buf.slot;
        proof {
            p.lemma_parts(index as int);
        }
        p.rx[index].release(slot, index, log);
        assert(p@.rings =~= old(p)@.rings);
        assert(p@ =~= old(p)@.rx_released(index, slot));
    }

    /// Number of received slots that wait.
    pub fn ready_count(&self, p: &Pipes) -> (r: u8)
        requires
            p.wf(),
            self.index < EP_N,
        ensures
            r == p@.rx[self.index as int].ready.len(),
    {
        proof {
            p.lemma_parts(self.index as int);
        }
        p.rx[self.index].ready_len()
    }

    /// Number of slots; 0 while no memory is attached.
    pub fn capacity(&self, p: &Pipes) -> (r: u8)
        requires
            p.wf(),
            self.index < EP_N,
        ensures
            r == p@.rx[self.index as int].n,
    {
        proof {
            p.lemma_parts(self.index as int);
        }
        p.rx[self.index].depth()
    }
}

} // verus!
