use usbhs_pipe::hw::HwOp;
use usbhs_pipe::pipe::{
    dbg_state, evt_rx, evt_tx, init_rx, init_tx, is_ring, isr_pad, metrics, metrics_clear,
    metrics_enter, metrics_exit, metrics_init, on_enable, on_in, on_out, reset, reset_all,
    resume_rx, set_isr_pad, tx_dbuf_state, DmaSlot, Pipes, RxBuf, RxPipe, Switches, TxBuf, TxPipe,
};
use usbhs_pipe::tx::tx_wake_water;

const A: [u32; 4] = [0x1000, 0x1200, 0x1400, 0x1600];

fn pipes() -> Pipes {
    Pipes::new(Switches::new())
}

fn tx_pipe() -> (Pipes, TxPipe) {
    let mut p = pipes();
    let mut log = Vec::new();
    assert!(init_tx(&mut p, 1, &A, &mut log));
    assert_eq!(log, vec![HwOp::BufMod { ep: 1, on: false }]);
    (p, TxPipe::new(1))
}

fn rx_pipe() -> (Pipes, RxPipe) {
    let mut p = pipes();
    let mut log = Vec::new();
    assert!(init_rx(&mut p, 2, &A, &mut log));
    assert_eq!(log, vec![HwOp::BufMod { ep: 2, on: false }]);
    (p, RxPipe::new(2))
}

/// Allocates a slot, submits it with `len` bytes, and returns its address and the log.
fn send(p: &mut Pipes, t: &TxPipe, len: u16) -> (u32, Vec<HwOp>) {
    let mut memory = [0u8; 512];
    let mut log = Vec::new();
    let grant = t.allocate(p).unwrap();
    let addr = grant.addr();
    t.submit(p, TxBuf::attach(grant, &mut memory), len, &mut log);
    (addr, log)
}

fn tx_armed(addr: u32, len: u16, ctrl: u8) -> Vec<HwOp> {
    vec![
        HwOp::TxDma { n: 0, addr },
        HwOp::TLen { ep: 1, value: len },
        HwOp::TxCtrl { ep: 1, value: ctrl },
    ]
}

fn rx_armed(addr: u32, ctrl: u8) -> Vec<HwOp> {
    vec![HwOp::RxDma { n: 1, addr }, HwOp::RxCtrl { ep: 2, value: ctrl }]
}

fn then_flag(mut ops: Vec<HwOp>) -> Vec<HwOp> {
    ops.push(HwOp::IntFg { value: 2 });
    ops
}

#[test]
fn switches_as_shipped() {
    let s = Switches::new();
    assert!(s.ring_enable);
    assert!(!s.dbuf_tx);
    assert!(s.dbuf_tx_auto_tog);
}

#[test]
fn init_refuses_what_does_not_fit() {
    let mut p = pipes();
    let mut log = Vec::new();
    assert!(!init_tx(&mut p, 0, &A, &mut log));
    assert!(!init_tx(&mut p, 16, &A, &mut log));
    assert!(!init_tx(&mut p, 1, &A[..1], &mut log));
    assert!(!init_tx(&mut p, 1, &[0u32; 9], &mut log));
    assert!(!init_rx(&mut p, 0, &A, &mut log));
    assert!(!init_rx(&mut p, 16, &A, &mut log));
    assert!(!init_rx(&mut p, 1, &A[..1], &mut log));
    assert!(!init_rx(&mut p, 1, &[0u32; 9], &mut log));
    assert!(log.is_empty());
    for i in 0..20 {
        assert!(!is_ring(&p, i));
    }
    let mut off = Pipes::new(Switches { ring_enable: false, ..Switches::new() });
    assert!(!init_tx(&mut off, 1, &A, &mut log));
    assert!(!init_rx(&mut off, 1, &A, &mut log));
}

#[test]
fn init_marks_only_its_endpoint() {
    let mut p = pipes();
    let mut log = Vec::new();
    assert!(init_tx(&mut p, 15, &[1, 2, 3, 4, 5, 6, 7, 8], &mut log));
    assert!(init_rx(&mut p, 3, &A[..2], &mut log));
    for i in 0..20 {
        assert_eq!(is_ring(&p, i), i == 15 || i == 3);
    }
    assert_eq!(TxPipe::new(15).capacity(&p), 8);
    assert_eq!(RxPipe::new(3).capacity(&p), 2);
    assert_eq!(TxPipe::new(3).capacity(&p), 0);
}

#[test]
fn wake_level() {
    assert_eq!(tx_wake_water(0), 1);
    assert_eq!(tx_wake_water(1), 1);
    assert_eq!(tx_wake_water(2), 1);
    assert_eq!(tx_wake_water(5), 2);
    assert_eq!(tx_wake_water(8), 4);
}

#[test]
fn first_submit_starts_the_endpoint() {
    let (mut p, t) = tx_pipe();
    assert_eq!(send(&mut p, &t, 100), (0x1000, tx_armed(0x1000, 100, 0x00)));
    // While a packet is armed, submitting writes no register.
    assert_eq!(send(&mut p, &t, 200), (0x1200, vec![]));
    assert_eq!(t.used(&p), 2);
    assert_eq!(dbg_state(&p, 1), (4, 2, 0, 1, 0));
    assert_eq!(tx_dbuf_state(&p, 1), (0xFF, 0xFF, 0, 100, 0, 0));
}

#[test]
fn packets_go_out_in_order_with_alternating_toggles() {
    let (mut p, t) = tx_pipe();
    for len in [10, 20, 30, 40] {
        send(&mut p, &t, len);
    }
    assert!(t.allocate(&mut p).is_none());
    let mut log = Vec::new();
    assert!(!on_in(&mut p, 1, &mut log));
    assert_eq!(log, then_flag(tx_armed(0x1200, 20, 0x08)));
    log.clear();
    // Half of the slots are free: the producer is woken.
    assert!(on_in(&mut p, 1, &mut log));
    assert_eq!(log, then_flag(tx_armed(0x1400, 30, 0x00)));
    log.clear();
    assert!(on_in(&mut p, 1, &mut log));
    assert_eq!(log, then_flag(tx_armed(0x1600, 40, 0x08)));
    log.clear();
    // Nothing follows: NAK, with the state of the packet to come.
    assert!(on_in(&mut p, 1, &mut log));
    assert_eq!(log, vec![HwOp::TxCtrl { ep: 1, value: 0x02 }, HwOp::IntFg { value: 2 }]);
    assert_eq!(evt_tx(&p), 4);
    assert_eq!(metrics(&p).5, 1);
    assert_eq!(t.used(&p), 0);
    assert_eq!(dbg_state(&p, 1), (4, 0, 0xFF, 0, 1));
    // The next packet carries on with that state.
    assert_eq!(send(&mut p, &t, 50), (0x1000, tx_armed(0x1000, 50, 0x00)));
}

#[test]
fn slots_are_handed_out_in_the_order_they_came_back() {
    let (mut p, t) = tx_pipe();
    let mut memory = [0u8; 512];
    let first = t.allocate(&mut p).unwrap();
    let second = t.allocate(&mut p).unwrap();
    assert_eq!((first.addr(), second.addr()), (0x1000, 0x1200));
    TxBuf::attach(first, &mut memory).discard(&mut p);
    let mut seen = Vec::new();
    while let Some(g) = t.allocate(&mut p) {
        seen.push(g.addr());
    }
    assert_eq!(seen, vec![0x1400, 0x1600, 0x1000]);
    assert_eq!(t.used(&p), 4);
}

#[test]
fn drained_pipe_with_too_many_slots_held_does_not_wake() {
    let (mut p, t) = tx_pipe();
    let kept: Vec<_> = (0..3).map(|_| t.allocate(&mut p).unwrap()).collect();
    send(&mut p, &t, 1);
    let mut log = Vec::new();
    assert!(!on_in(&mut p, 1, &mut log));
    assert_eq!(kept.len(), 3);
}

#[test]
fn buffer_memory_is_the_callers() {
    let (mut p, t) = tx_pipe();
    let mut slot = DmaSlot::<512>::new();
    assert!(slot.data.iter().all(|b| *b == 0));
    let grant = t.allocate(&mut p).unwrap();
    let mut buf = TxBuf::attach(grant, &mut slot.data);
    assert_eq!(buf.capacity(), 512);
    buf.buf()[..3].copy_from_slice(&[7, 8, 9]);
    let mut log = Vec::new();
    t.submit(&mut p, buf, 3, &mut log);
    assert_eq!(&slot.data[..4], &[7, 8, 9, 0]);
}

#[test]
fn interrupt_without_queue_only_clears_the_flag() {
    let mut p = pipes();
    let mut log = Vec::new();
    assert!(!on_in(&mut p, 0, &mut log));
    assert!(!on_out(&mut p, 5, 64, &mut log));
    assert_eq!(log, vec![HwOp::IntFg { value: 2 }, HwOp::IntFg { value: 2 }]);
    assert_eq!((evt_rx(&p), evt_tx(&p)), (0, 0));
}

#[test]
fn receive_and_release() {
    let (mut p, r) = rx_pipe();
    let mut log = Vec::new();
    // Nothing there: the endpoint starts to listen.
    assert!(r.recv(&mut p, &mut log).is_none());
    assert_eq!(log, rx_armed(0x1000, 0x00));
    log.clear();
    assert!(r.recv(&mut p, &mut log).is_none());
    assert!(log.is_empty());
    // The first packet wakes the reader, the second finds one waiting.
    assert!(on_out(&mut p, 2, 11, &mut log));
    assert_eq!(log, then_flag(rx_armed(0x1200, 0x08)));
    log.clear();
    assert!(!on_out(&mut p, 2, 12, &mut log));
    assert_eq!(log, then_flag(rx_armed(0x1400, 0x00)));
    log.clear();
    assert_eq!(r.ready_count(&p), 2);
    assert_eq!(dbg_state(&p, 2), (4, 2, 2, 0, 0));
    let g = r.recv(&mut p, &mut log).unwrap();
    assert_eq!((g.addr(), g.received()), (0x1000, 11));
    let mut memory = [0u8; 512];
    memory[10] = 5;
    let buf = RxBuf::attach(g, &memory);
    assert_eq!(buf.len(), 11);
    assert!(!buf.is_empty());
    assert_eq!(buf.data(), &memory[..11]);
    r.release(&mut p, buf, &mut log);
    assert!(log.is_empty());
    assert_eq!(evt_rx(&p), 2);
}

#[test]
fn dry_endpoint_restarts_on_release() {
    let (mut p, r) = rx_pipe();
    let mut log = Vec::new();
    assert!(r.recv(&mut p, &mut log).is_none());
    for i in 0..3u16 {
        on_out(&mut p, 2, i, &mut log);
    }
    log.clear();
    assert!(!on_out(&mut p, 2, 3, &mut log));
    assert_eq!(log, vec![HwOp::RxCtrl { ep: 2, value: 0x02 }, HwOp::IntFg { value: 2 }]);
    assert_eq!(metrics(&p).4, 1);
    log.clear();
    let g = r.recv(&mut p, &mut log).unwrap();
    assert_eq!(g.received(), 0);
    let buf = RxBuf::attach(g, &[]);
    assert!(buf.is_empty());
    assert_eq!(buf.data().len(), 0);
    assert!(log.is_empty());
    r.release(&mut p, buf, &mut log);
    assert_eq!(log, rx_armed(0x1000, 0x00));
    // The rest is delivered in the order of arrival.
    for i in 1..4u16 {
        assert_eq!(r.recv(&mut p, &mut log).unwrap().received(), i);
    }
}

#[test]
fn release_after_a_reset_starts_the_endpoint() {
    let (mut p, r) = rx_pipe();
    let mut log = Vec::new();
    assert!(r.recv(&mut p, &mut log).is_none());
    assert!(on_out(&mut p, 2, 5, &mut log));
    let g = r.recv(&mut p, &mut log).unwrap();
    reset(&mut p, 2);
    assert_eq!(dbg_state(&p, 2), (4, 0, 0xFF, 0, 0));
    log.clear();
    r.release(&mut p, RxBuf::attach(g, &[0u8; 512]), &mut log);
    assert_eq!(log, rx_armed(0x1000, 0x00));
    assert_eq!(dbg_state(&p, 2), (4, 0, 0, 0, 0));
}

#[test]
fn discarding_is_releasing() {
    let (mut p, r) = rx_pipe();
    let mut log = Vec::new();
    assert!(r.recv(&mut p, &mut log).is_none());
    for i in 0..4u16 {
        on_out(&mut p, 2, i, &mut log);
    }
    log.clear();
    let g = r.recv(&mut p, &mut log).unwrap();
    assert!(log.is_empty());
    assert_eq!(dbg_state(&p, 2), (4, 3, 0xFF, 0, 1));
    RxBuf::attach(g, &[0u8; 512]).discard(&mut p, &mut log);
    assert_eq!(log, rx_armed(0x1000, 0x00));
    assert_eq!(dbg_state(&p, 2), (4, 3, 0, 0, 0));
    log.clear();
    // While a slot is armed, nothing has to be started.
    let g = r.recv(&mut p, &mut log).unwrap();
    RxBuf::attach(g, &[0u8; 512]).discard(&mut p, &mut log);
    assert!(log.is_empty());
}

#[test]
fn resuming_starts_only_an_idle_endpoint() {
    let (mut p, _) = rx_pipe();
    let mut log = Vec::new();
    resume_rx(&mut p, 2, &mut log);
    assert_eq!(log, rx_armed(0x1000, 0x00));
    log.clear();
    resume_rx(&mut p, 2, &mut log);
    assert!(log.is_empty());
}

#[test]
fn late_completion_of_an_idle_endpoint_delivers_nothing() {
    let (mut p, r) = rx_pipe();
    let mut log = Vec::new();
    assert!(!on_out(&mut p, 2, 9, &mut log));
    assert_eq!(log, then_flag(rx_armed(0x1000, 0x00)));
    assert_eq!(r.ready_count(&p), 0);
}

#[test]
fn pauses_sit_before_the_flag() {
    let (mut p, t) = tx_pipe();
    set_isr_pad(&mut p, 3, 5);
    assert_eq!(isr_pad(&p), (3, 5));
    send(&mut p, &t, 1);
    let mut log = Vec::new();
    on_in(&mut p, 1, &mut log);
    assert_eq!(
        log,
        vec![
            HwOp::TxCtrl { ep: 1, value: 0x0A },
            HwOp::Pad { ticks: 5 },
            HwOp::IntFg { value: 2 },
        ]
    );
    assert!(init_rx(&mut p, 2, &A, &mut log));
    log.clear();
    on_out(&mut p, 2, 1, &mut log);
    assert_eq!(log[2], HwOp::Pad { ticks: 3 });
}

#[test]
fn reset_takes_every_slot_back() {
    let (mut p, t) = tx_pipe();
    let mut log = Vec::new();
    for _ in 0..3 {
        send(&mut p, &t, 7);
    }
    on_in(&mut p, 1, &mut log);
    reset(&mut p, 1);
    assert_eq!(dbg_state(&p, 1), (4, 0, 0xFF, 0, 1));
    assert_eq!(tx_dbuf_state(&p, 1), (0xFF, 0xFF, 0, 0, 0xFF, 1));
    reset(&mut p, 1);
    assert_eq!(dbg_state(&p, 1), (4, 0, 0xFF, 0, 1));
    // From the first slot and DATA0 again.
    assert_eq!(send(&mut p, &t, 8), (0x1000, tx_armed(0x1000, 8, 0x00)));
    reset(&mut p, 0);
    reset(&mut p, 99);
    assert_eq!(t.used(&p), 1);
    assert!(init_rx(&mut p, 2, &A, &mut log));
    assert!(RxPipe::new(2).recv(&mut p, &mut log).is_none());
    reset_all(&mut p);
    assert_eq!(t.used(&p), 0);
    assert_eq!(dbg_state(&p, 2), (4, 0, 0xFF, 0, 0));
    assert!(is_ring(&p, 1));
}

#[test]
fn reset_all_makes_every_queue_idle() {
    let (mut p, t) = tx_pipe();
    let mut log = Vec::new();
    assert!(init_rx(&mut p, 2, &A, &mut log));
    send(&mut p, &t, 1);
    send(&mut p, &t, 2);
    assert!(RxPipe::new(2).recv(&mut p, &mut log).is_none());
    assert!(on_out(&mut p, 2, 3, &mut log));
    reset_all(&mut p);
    assert_eq!(dbg_state(&p, 1), (4, 0, 0xFF, 0, 1));
    assert_eq!(dbg_state(&p, 2), (4, 0, 0xFF, 0, 0));
    assert_eq!(dbg_state(&p, 3), (0, 0, 0xFF, 0, 0));
}

#[test]
fn endpoints_do_not_disturb_each_other() {
    let (mut p, t) = tx_pipe();
    let mut log = Vec::new();
    assert!(init_rx(&mut p, 2, &A, &mut log));
    assert!(init_tx(&mut p, 3, &A, &mut log));
    assert!(RxPipe::new(2).recv(&mut p, &mut log).is_none());
    let (before_2, before_3) = (dbg_state(&p, 2), dbg_state(&p, 3));
    send(&mut p, &t, 1);
    on_in(&mut p, 1, &mut log);
    reset(&mut p, 1);
    assert_eq!((dbg_state(&p, 2), dbg_state(&p, 3)), (before_2, before_3));
}

#[test]
fn state_of_numbers_without_queue() {
    let p = pipes();
    assert_eq!(dbg_state(&p, 0), (0, 0, 0, 0, 0));
    assert_eq!(dbg_state(&p, 16), (0, 0, 0, 0, 0));
    assert_eq!(dbg_state(&p, 4), (0, 0, 0xFF, 0, 0));
    assert_eq!(tx_dbuf_state(&p, 0), (0xFF, 0xFF, 0, 0, 0xFF, 1));
    assert_eq!(tx_dbuf_state(&p, 16), (0xFF, 0xFF, 0, 0, 0xFF, 1));
    assert_eq!(tx_dbuf_state(&p, 4), (0xFF, 0xFF, 0, 0, 0xFF, 0));
}

#[test]
fn enabling_resets_and_restates_the_buffer_mode() {
    let (mut p, r) = rx_pipe();
    let mut log = Vec::new();
    assert!(r.recv(&mut p, &mut log).is_none());
    log.clear();
    on_enable(&mut p, 2, true, false, &mut log);
    assert_eq!(log, vec![HwOp::BufMod { ep: 2, on: false }]);
    assert_eq!(dbg_state(&p, 2), (4, 0, 0xFF, 0, 0));
    log.clear();
    on_enable(&mut p, 2, true, true, &mut log);
    on_enable(&mut p, 0, true, false, &mut log);
    on_enable(&mut p, 9, false, false, &mut log);
    assert!(log.is_empty());
}

#[test]
fn counters() {
    let mut p = pipes();
    // The first entry has no gap.
    assert_eq!(metrics_enter(&mut p, 100), 100);
    metrics_exit(&mut p, 100, 130);
    assert_eq!(metrics_enter(&mut p, 400), 400);
    metrics_exit(&mut p, 400, 420);
    assert_eq!(metrics(&p), (2, 50, 30, 300, 0, 0));
    // The counter wraps around between two entries.
    metrics_enter(&mut p, 0xFFFF_FFF0);
    metrics_clear(&mut p);
    assert_eq!(metrics(&p), (0, 0, 0, 0, 0, 0));
    metrics_enter(&mut p, 0x10);
    assert_eq!(metrics(&p), (1, 0, 0, 0x20, 0, 0));
    metrics_exit(&mut p, 0xFFFF_FFFF, 4);
    assert_eq!(metrics(&p), (1, 5, 5, 0x20, 0, 0));
}

#[test]
fn counter_start() {
    let mut log = Vec::new();
    metrics_init(&mut log);
    assert_eq!(log.len(), 7);
    assert_eq!(log[0], HwOp::SysTick { word: 0, value: 0 });
    assert_eq!(log[4], HwOp::SysTick { word: 4, value: 0xFFFF_FFFF });
    assert_eq!(log[6], HwOp::SysTick { word: 0, value: 1 });
}
