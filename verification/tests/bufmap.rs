use usbhs_pipe::bufmap::{active, note, on_in, on_out, report, start, stop, Probe, ENABLE};
use usbhs_pipe::hw::{Bank, HwOp};
use usbhs_pipe::pipe::{dbg_state, init_rx, Pipes, RxPipe, Switches};

fn started(ep: usize, tx: bool, flip: bool, auto_tog: bool) -> (Probe, Vec<HwOp>) {
    let mut p = Probe::new(true);
    let mut log = Vec::new();
    assert!(start(&mut p, ep, tx, flip, auto_tog, 0x8000, 0x8200, &mut log));
    (p, log)
}

#[test]
fn probe_is_off_in_production() {
    let mut p = Probe::new(ENABLE);
    let mut log = Vec::new();
    assert!(!start(&mut p, 1, true, true, true, 0, 0, &mut log));
    assert_eq!(p, Probe::new(false));
    assert!(log.is_empty());
}

#[test]
fn probe_refuses_other_endpoints() {
    let mut p = Probe::new(true);
    let mut log = Vec::new();
    assert!(!start(&mut p, 0, true, true, true, 0, 0, &mut log));
    assert!(!start(&mut p, 16, true, true, true, 0, 0, &mut log));
    assert_eq!(p, Probe::new(true));
    assert!(log.is_empty());
}

#[test]
fn out_probe_starts_on_buffer_a() {
    let (p, log) = started(2, false, true, false);
    assert!(active(&p, 2));
    assert!(!active(&p, 1));
    assert_eq!(
        log,
        vec![
            HwOp::MaxLen { ep: 2, value: 512 },
            HwOp::BufMod { ep: 2, on: true },
            HwOp::Fill { bank: Bank::A, value: 0xA5 },
            HwOp::Fill { bank: Bank::B, value: 0x5A },
            HwOp::RxDma { n: 1, addr: 0x8000 },
            HwOp::TxDma { n: 1, addr: 0x8200 },
            HwOp::RxCtrl { ep: 2, value: 0x00 },
        ]
    );
}

#[test]
fn in_probe_starts_on_buffer_a() {
    let (_, log) = started(1, true, false, true);
    assert_eq!(
        log,
        vec![
            HwOp::MaxLen { ep: 1, value: 512 },
            HwOp::BufMod { ep: 1, on: true },
            HwOp::Fill { bank: Bank::A, value: 0xA1 },
            HwOp::Fill { bank: Bank::B, value: 0xB1 },
            HwOp::TxDma { n: 0, addr: 0x8000 },
            HwOp::RxDma { n: 0, addr: 0x8200 },
            HwOp::TLen { ep: 1, value: 512 },
            HwOp::TxCtrl { ep: 1, value: 0x20 },
        ]
    );
}

#[test]
fn flipping_probe_alternates() {
    let (mut p, _) = started(2, false, true, false);
    let mut log = Vec::new();
    on_out(&mut p, 2, true, 100, 0x00, &mut log);
    on_out(&mut p, 2, false, 101, 0x08, &mut log);
    assert_eq!(
        log,
        vec![
            HwOp::RxCtrl { ep: 2, value: 0x08 },
            HwOp::IntFg { value: 2 },
            HwOp::RxCtrl { ep: 2, value: 0x00 },
            HwOp::IntFg { value: 2 },
        ]
    );
    assert_eq!((p.count, p.first_tog_ok, p.last_tog_ok, p.last_len), (2, 1, 0, 101));
    let (mut p, _) = started(1, true, true, false);
    log.clear();
    on_in(&mut p, 1, true, 0x08, &mut log);
    on_in(&mut p, 1, true, 0x18, &mut log);
    on_in(&mut p, 1, true, 0x22, &mut log);
    assert_eq!(log[0], HwOp::TxCtrl { ep: 1, value: 0x00 });
    assert_eq!(log[2], HwOp::TxCtrl { ep: 1, value: 0x00 });
    assert_eq!(log[4], HwOp::TxCtrl { ep: 1, value: 0x08 });
    assert_eq!(p.last_len, 512);
}

#[test]
fn quiet_probe_only_clears_the_flag() {
    let (mut p, _) = started(1, true, false, true);
    let mut log = Vec::new();
    on_in(&mut p, 1, false, 0x20, &mut log);
    assert_eq!(log, vec![HwOp::IntFg { value: 2 }]);
    assert_eq!((p.count, p.first_tog_ok, p.last_tog_ok), (1, 0, 0));
}

#[test]
fn first_packet_is_noted_once() {
    let mut p = Probe::new(true);
    assert_eq!((p.first_tog_ok, p.last_tog_ok), (0xFFFF_FFFF, 0xFFFF_FFFF));
    note(&mut p, true, 7);
    note(&mut p, false, 9);
    assert_eq!((p.count, p.first_tog_ok, p.last_tog_ok, p.last_len), (2, 1, 0, 9));
    p.count = 0xFFFF_FFFF;
    note(&mut p, false, 1);
    assert_eq!((p.count, p.first_tog_ok), (0, 1));
}

#[test]
fn stopping_gives_the_endpoint_back() {
    let mut pipes = Pipes::new(Switches::new());
    let mut log = Vec::new();
    assert!(init_rx(&mut pipes, 2, &[0x1000, 0x1200], &mut log));
    assert!(RxPipe::new(2).recv(&mut pipes, &mut log).is_none());
    let (mut p, _) = started(2, false, true, false);
    log.clear();
    assert_eq!(stop(&mut p, &mut pipes, &mut log), Some(2));
    assert_eq!(
        log,
        vec![HwOp::BufMod { ep: 2, on: false }, HwOp::RxCtrl { ep: 2, value: 0x02 }]
    );
    assert!(!active(&p, 2));
    assert_eq!(dbg_state(&pipes, 2), (2, 0, 0xFF, 0, 0));
    let (mut p, _) = started(3, true, true, false);
    log.clear();
    assert_eq!(stop(&mut p, &mut pipes, &mut log), Some(3));
    assert_eq!(log[1], HwOp::TxCtrl { ep: 3, value: 0x02 });
    let mut idle = Probe::new(true);
    log.clear();
    assert_eq!(stop(&mut idle, &mut pipes, &mut log), None);
    assert!(log.is_empty());
}

#[test]
fn report_layout() {
    let (mut p, _) = started(5, true, false, true);
    let mut log = Vec::new();
    on_in(&mut p, 5, true, 0, &mut log);
    let mut a = [0u8; 512];
    let mut b = [0u8; 512];
    for i in 0..32 {
        a[i] = i as u8;
        b[i] = 0x80 + i as u8;
    }
    // NAK, DATA1, automatic flip.
    let r = report(&p, &a, &b, 0x2A, 1 << 5);
    assert_eq!(
        r,
        [
            1,
            1,
            1,
            2 + 4 + 16,
            512,
            0x0302_0100,
            0x0706_0504,
            8,
            0x1312_1110,
            0x8382_8180,
            0x8786_8584,
            0x88,
            0x9392_9190,
            5,
            2 + 4,
            1,
        ]
    );
}

#[test]
fn report_of_an_out_probe_reads_its_own_register() {
    let (p, _) = started(2, false, true, false);
    let r = report(&p, &[0u8; 512], &[0xFFu8; 512], 0x1B, 0xFFFF_FFFB);
    assert_eq!(r[0], 0);
    assert_eq!(r[1], 0xFFFF_FFFF);
    assert_eq!(r[3], 3 + 4 * 3);
    assert_eq!(r[9], 0xFFFF_FFFF);
    assert_eq!(r[11], 0xFF);
    assert_eq!(r[14], 1);
    assert_eq!(r[15], 0);
}

#[test]
fn report_of_an_idle_probe() {
    let r = report(&Probe::new(true), &[1u8; 512], &[2u8; 512], 0xFF, 0xFFFF_FFFF);
    assert_eq!((r[3], r[13], r[14], r[15]), (0, 0, 0, 0));
    assert_eq!(r[5], 0x0101_0101);
}
