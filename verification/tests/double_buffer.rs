use usbhs_pipe::hw::HwOp;
use usbhs_pipe::pipe::{
    init_tx, metrics, on_enable, on_in, tx_dbuf_state, Pipes, Switches, TxBuf, TxPipe,
};

const A: [u32; 4] = [0x1000, 0x1200, 0x1400, 0x1600];

fn pipes(auto_tog: bool) -> (Pipes, TxPipe, Vec<HwOp>) {
    let mut p = Pipes::new(Switches {
        ring_enable: true,
        dbuf_tx: true,
        dbuf_tx_auto_tog: auto_tog,
    });
    let mut log = Vec::new();
    assert!(init_tx(&mut p, 1, &A, &mut log));
    (p, TxPipe::new(1), log)
}

fn send(p: &mut Pipes, t: &TxPipe, len: u16) -> Vec<HwOp> {
    let mut memory = [0u8; 512];
    let mut log = Vec::new();
    let grant = t.allocate(p).unwrap();
    t.submit(p, TxBuf::attach(grant, &mut memory), len, &mut log);
    log
}

#[test]
fn double_buffering_starts_with_nak() {
    let (mut p, _, log) = pipes(true);
    let start = vec![HwOp::BufMod { ep: 1, on: true }, HwOp::TxCtrl { ep: 1, value: 0x22 }];
    assert_eq!(log, start);
    let mut log = Vec::new();
    on_enable(&mut p, 1, true, true, &mut log);
    assert_eq!(log, start);
    let (_, _, log) = pipes(false);
    assert_eq!(log[1], HwOp::TxCtrl { ep: 1, value: 0x02 });
}

#[test]
fn blocks_are_filled_in_turn() {
    let (mut p, t, _) = pipes(true);
    assert_eq!(
        send(&mut p, &t, 512),
        vec![
            HwOp::TxDma { n: 0, addr: 0x1000 },
            HwOp::TLen { ep: 1, value: 512 },
            HwOp::TxCtrl { ep: 1, value: 0x20 },
        ]
    );
    assert_eq!(send(&mut p, &t, 512), vec![HwOp::RxDma { n: 0, addr: 0x1200 }]);
    assert_eq!(send(&mut p, &t, 512), vec![]);
    assert_eq!(tx_dbuf_state(&p, 1), (0, 1, 0, 512, 0, 0));
}

#[test]
fn full_pipe_writes_nothing_before_the_flag() {
    let (mut p, t, _) = pipes(true);
    for _ in 0..3 {
        send(&mut p, &t, 512);
    }
    let mut log = Vec::new();
    assert!(on_in(&mut p, 1, &mut log));
    assert_eq!(t.used(&p), 2);
    assert_eq!(log, vec![HwOp::IntFg { value: 2 }, HwOp::TxDma { n: 0, addr: 0x1400 }]);
    assert_eq!(tx_dbuf_state(&p, 1), (2, 1, 1, 512, 1, 0));
    log.clear();
    on_in(&mut p, 1, &mut log);
    assert_eq!(log, vec![HwOp::IntFg { value: 2 }]);
    log.clear();
    // The last packet: NAK goes in before the flag is cleared.
    assert!(on_in(&mut p, 1, &mut log));
    assert_eq!(log, vec![HwOp::TxCtrl { ep: 1, value: 0x2A }, HwOp::IntFg { value: 2 }]);
    assert_eq!(metrics(&p).5, 1);
    assert_eq!(tx_dbuf_state(&p, 1), (0xFF, 0xFF, 1, 512, 0xFF, 1));
    log.clear();
    // A further completion changes only the block in use.
    on_in(&mut p, 1, &mut log);
    assert_eq!(log, vec![HwOp::IntFg { value: 2 }]);
    assert_eq!(metrics(&p).5, 1);
    assert_eq!(tx_dbuf_state(&p, 1).2, 0);
}

#[test]
fn restart_uses_the_block_in_turn() {
    let (mut p, t, _) = pipes(true);
    send(&mut p, &t, 512);
    let mut log = Vec::new();
    on_in(&mut p, 1, &mut log);
    // Block 1 is next; the length is unchanged, so it is not written again.
    assert_eq!(
        send(&mut p, &t, 512),
        vec![HwOp::RxDma { n: 0, addr: 0x1200 }, HwOp::TxCtrl { ep: 1, value: 0x28 }]
    );
}

#[test]
fn software_flip_writes_each_packet() {
    let (mut p, t, _) = pipes(false);
    for _ in 0..2 {
        send(&mut p, &t, 64);
    }
    let mut log = Vec::new();
    on_in(&mut p, 1, &mut log);
    assert_eq!(log, vec![HwOp::TxCtrl { ep: 1, value: 0x08 }, HwOp::IntFg { value: 2 }]);
    log.clear();
    on_in(&mut p, 1, &mut log);
    assert_eq!(log, vec![HwOp::TxCtrl { ep: 1, value: 0x02 }, HwOp::IntFg { value: 2 }]);
    assert_eq!(metrics(&p).5, 1);
    log.clear();
    on_in(&mut p, 1, &mut log);
    assert_eq!(log, vec![HwOp::TxCtrl { ep: 1, value: 0x0A }, HwOp::IntFg { value: 2 }]);
    assert_eq!(metrics(&p).5, 2);
}

#[test]
fn slots_leave_the_blocks_in_submission_order() {
    let (mut p, t, _) = pipes(true);
    for _ in 0..4 {
        send(&mut p, &t, 512);
    }
    let mut armed = Vec::new();
    let mut log = Vec::new();
    for _ in 0..4 {
        armed.push(tx_dbuf_state(&p, 1).4);
        on_in(&mut p, 1, &mut log);
    }
    assert_eq!(armed, vec![0, 1, 2, 3]);
    let mut back = Vec::new();
    while let Some(g) = t.allocate(&mut p) {
        back.push(g.addr());
    }
    assert_eq!(back, A.to_vec());
}

#[test]
fn length_is_in_place_before_the_flag() {
    let (mut p, t, _) = pipes(true);
    assert_eq!(send(&mut p, &t, 512)[1], HwOp::TLen { ep: 1, value: 512 });
    // The other block gets its address only; its length has to wait.
    assert_eq!(send(&mut p, &t, 64), vec![HwOp::RxDma { n: 0, addr: 0x1200 }]);
    assert_eq!(send(&mut p, &t, 64), vec![]);
    assert_eq!(tx_dbuf_state(&p, 1).3, 512);
    let mut log = Vec::new();
    on_in(&mut p, 1, &mut log);
    assert_eq!(
        log,
        vec![
            HwOp::TLen { ep: 1, value: 64 },
            HwOp::IntFg { value: 2 },
            HwOp::TxDma { n: 0, addr: 0x1400 },
        ]
    );
    assert_eq!(tx_dbuf_state(&p, 1), (2, 1, 1, 64, 1, 0));
    // The next packet is as long: nothing is written before the flag.
    log.clear();
    on_in(&mut p, 1, &mut log);
    assert_eq!(log, vec![HwOp::IntFg { value: 2 }]);
    assert_eq!(tx_dbuf_state(&p, 1), (2, 0xFF, 0, 64, 2, 0));
}

#[test]
fn software_flip_writes_length_then_control() {
    let (mut p, t, _) = pipes(false);
    send(&mut p, &t, 512);
    send(&mut p, &t, 0);
    let mut log = Vec::new();
    on_in(&mut p, 1, &mut log);
    assert_eq!(
        log,
        vec![
            HwOp::TLen { ep: 1, value: 0 },
            HwOp::TxCtrl { ep: 1, value: 0x08 },
            HwOp::IntFg { value: 2 },
        ]
    );
}
