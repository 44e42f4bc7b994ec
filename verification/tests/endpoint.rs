use usbhs_pipe::endpoint::{Endpoint, EndpointError, EndpointInfo, EndpointType, Path};
use usbhs_pipe::hw::{CtrlChange, HwOp};
use usbhs_pipe::pipe::{is_ring, on_in, on_out, Pipes, RxBuf, RxPipe, Switches, TxBuf, TxPipe};

const A: [u32; 4] = [0x1000, 0x1200, 0x1400, 0x1600];

fn info(addr: u8, ep_type: EndpointType, max_packet_size: u16) -> EndpointInfo {
    EndpointInfo { addr, ep_type, max_packet_size, interval_ms: 0 }
}

fn open(addr: u8, ep_type: EndpointType, size: u16, slots: &[u32]) -> (Pipes, Endpoint, Vec<HwOp>) {
    let mut p = Pipes::new(Switches::new());
    let mut log = Vec::new();
    let e = Endpoint::new(&mut p, info(addr, ep_type, size), size, 0x9000, slots, &mut log);
    (p, e, log)
}

#[test]
fn control_endpoint_only_gets_its_size() {
    let (p, e, log) = open(0x80, EndpointType::Control, 64, &A);
    assert_eq!(log, vec![HwOp::MaxLen { ep: 0, value: 64 }]);
    assert!(!e.ring);
    assert_eq!(e.index(), 0);
    assert!(!is_ring(&p, 0));
}

#[test]
fn bulk_endpoints_get_queues() {
    let (p, e, log) = open(0x81, EndpointType::Bulk, 512, &A);
    assert!(e.ring && is_ring(&p, 1));
    assert_eq!(TxPipe::new(1).capacity(&p), 4);
    assert_eq!(
        log,
        vec![HwOp::MaxLen { ep: 1, value: 512 }, HwOp::BufMod { ep: 1, on: false }]
    );
    let (p, e, _) = open(0x02, EndpointType::Interrupt, 64, &A);
    assert!(e.ring && is_ring(&p, 2));
    assert_eq!(RxPipe::new(2).capacity(&p), 4);
    assert_eq!(TxPipe::new(2).capacity(&p), 0);
}

#[test]
fn large_packets_and_small_pools_use_the_single_buffer() {
    let (p, e, log) = open(0x83, EndpointType::Isochronous, 1024, &A);
    assert!(!e.ring && !is_ring(&p, 3));
    assert_eq!(
        log,
        vec![HwOp::MaxLen { ep: 3, value: 1024 }, HwOp::TxDma { n: 2, addr: 0x9000 }]
    );
    let (_, e, log) = open(0x04, EndpointType::Bulk, 512, &[]);
    assert!(!e.ring);
    assert_eq!(
        log,
        vec![HwOp::MaxLen { ep: 4, value: 512 }, HwOp::RxDma { n: 3, addr: 0x9000 }]
    );
}

#[test]
fn enable_bits() {
    let (_, tx, _) = open(0x81, EndpointType::Bulk, 512, &[]);
    assert!(tx.is_enabled(1 << 1));
    assert!(!tx.is_enabled(1 << 17));
    let (_, rx, _) = open(0x0F, EndpointType::Bulk, 512, &[]);
    assert!(rx.is_enabled(1 << 31));
    assert!(!rx.is_enabled(1 << 15));
}

#[test]
fn read_is_let_through_or_refused() {
    let (_, e, _) = open(0x02, EndpointType::Bulk, 64, &[]);
    let on = 1 << 18;
    let mut log = Vec::new();
    assert_eq!(e.read(0, 64, &mut log), Err(EndpointError::Disabled));
    assert_eq!(e.read(on, 63, &mut log), Err(EndpointError::BufferOverflow));
    assert!(log.is_empty());
    assert_eq!(e.read(on, 64, &mut log), Ok(Path::Single));
    assert_eq!(log, vec![HwOp::RxCtrlModify { ep: 2, change: CtrlChange::Ack }]);
    let (_, ring, _) = open(0x02, EndpointType::Bulk, 64, &A);
    log.clear();
    assert_eq!(ring.read(on, 64, &mut log), Ok(Path::Ring));
    assert!(log.is_empty());
}

#[test]
fn write_is_let_through_or_refused() {
    let (_, e, _) = open(0x82, EndpointType::Bulk, 64, &[]);
    let on = 1 << 2;
    let mut log = Vec::new();
    assert_eq!(e.write(0, 1, &mut log), Err(EndpointError::Disabled));
    assert_eq!(e.write(on, 65, &mut log), Err(EndpointError::BufferOverflow));
    assert!(log.is_empty());
    assert_eq!(e.write(on, 64, &mut log), Ok(Path::Single));
    assert_eq!(
        log,
        vec![
            HwOp::WriteBuffer { len: 64 },
            HwOp::TLen { ep: 2, value: 64 },
            HwOp::TxCtrlModify { ep: 2, change: CtrlChange::Ack },
        ]
    );
    let (_, ring, _) = open(0x82, EndpointType::Bulk, 64, &A);
    log.clear();
    assert_eq!(ring.write(on, 65, &mut log), Err(EndpointError::BufferOverflow));
    assert_eq!(ring.write(on, 64, &mut log), Ok(Path::Ring));
    assert!(log.is_empty());
}

#[test]
fn out_transfer_ends_with_the_packet() {
    let (_, e, _) = open(0x02, EndpointType::Bulk, 64, &[]);
    let mut log = Vec::new();
    // No flag; another endpoint.
    assert_eq!(e.data_out(0x00, 0x02, 5, 64, &mut log), None);
    assert_eq!(e.data_out(0x02, 0x03, 5, 64, &mut log), None);
    assert!(log.is_empty());
    let tail = vec![
        HwOp::RxCtrlModify { ep: 2, change: CtrlChange::Complete },
        HwOp::IntFg { value: 2 },
        HwOp::IntEnModify,
    ];
    assert_eq!(e.data_out(0x02, 0x42, 5, 64, &mut log), Some(Ok(5)));
    assert_eq!(log[0], HwOp::ReadBuffer { len: 5 });
    assert_eq!(log[1..], tail[..]);
    log.clear();
    assert_eq!(e.data_out(0x02, 0x02, 65, 64, &mut log), Some(Err(EndpointError::BufferOverflow)));
    assert_eq!(log, tail);
    log.clear();
    // An IN token on an OUT transfer.
    assert_eq!(e.data_out(0x02, 0x22, 5, 64, &mut log), Some(Err(EndpointError::Disabled)));
    assert_eq!(log, tail);
}

#[test]
fn in_transfer_ends_with_the_token() {
    let (_, e, _) = open(0x82, EndpointType::Bulk, 64, &[]);
    let mut log = Vec::new();
    assert_eq!(e.data_in_transfer(0x01, 0x22, &mut log), None);
    assert_eq!(e.data_in_transfer(0x02, 0x21, &mut log), None);
    assert!(log.is_empty());
    assert_eq!(e.data_in_transfer(0x02, 0x22, &mut log), Some(Ok(())));
    let tail = vec![
        HwOp::TxCtrlModify { ep: 2, change: CtrlChange::Complete },
        HwOp::IntFg { value: 2 },
        HwOp::IntEnModify,
    ];
    assert_eq!(log, tail);
    log.clear();
    assert_eq!(e.data_in_transfer(0x02, 0x32, &mut log), Some(Err(EndpointError::Disabled)));
    assert_eq!(log, tail);
}

#[test]
fn write_buffer_takes_up_to_a_packet() {
    let (_, e, _) = open(0x82, EndpointType::Bulk, 64, &[]);
    let mut log = Vec::new();
    assert_eq!(e.data_in_write_buffer(65, &mut log), Err(EndpointError::BufferOverflow));
    assert!(log.is_empty());
    assert_eq!(e.data_in_write_buffer(0, &mut log), Ok(()));
    assert_eq!(log, vec![HwOp::WriteBuffer { len: 0 }, HwOp::TLen { ep: 2, value: 0 }]);
}

#[test]
fn ring_read_takes_a_packet_and_keeps_listening() {
    let (mut p, e, _) = open(0x02, EndpointType::Bulk, 64, &A[..2]);
    let mut log = Vec::new();
    assert!(e.read_ring(&mut p, &mut log).is_none());
    assert_eq!(
        log,
        vec![HwOp::RxDma { n: 1, addr: 0x1000 }, HwOp::RxCtrl { ep: 2, value: 0x00 }]
    );
    on_out(&mut p, 2, 10, &mut log);
    on_out(&mut p, 2, 20, &mut log);
    log.clear();
    let g = e.read_ring(&mut p, &mut log).unwrap();
    assert_eq!((g.addr(), g.received()), (0x1000, 10));
    // Both slots are in use: the endpoint goes on answering NAK.
    assert_eq!(log, vec![HwOp::RxCtrl { ep: 2, value: 0x02 }]);
    log.clear();
    RxPipe::new(2).release(&mut p, RxBuf::attach(g, &[0u8; 512]), &mut log);
    assert_eq!(
        log,
        vec![HwOp::RxDma { n: 1, addr: 0x1000 }, HwOp::RxCtrl { ep: 2, value: 0x00 }]
    );
}

#[test]
fn ring_write_fills_the_slot_and_queues_it() {
    let (mut p, e, _) = open(0x81, EndpointType::Bulk, 64, &A);
    let t = TxPipe::new(1);
    let mut log = Vec::new();
    let mut memory = [9u8; 8];
    let grant = t.allocate(&mut p).unwrap();
    e.write_ring(&mut p, TxBuf::attach(grant, &mut memory), &[1, 2, 3], &mut log);
    assert_eq!(memory, [1, 2, 3, 9, 9, 9, 9, 9]);
    assert_eq!(
        log,
        vec![
            HwOp::TxDma { n: 0, addr: 0x1000 },
            HwOp::TLen { ep: 1, value: 3 },
            HwOp::TxCtrl { ep: 1, value: 0x00 },
        ]
    );
    // The second packet waits, with its own length.
    log.clear();
    let mut other = [9u8; 2];
    let grant = t.allocate(&mut p).unwrap();
    e.write_ring(&mut p, TxBuf::attach(grant, &mut other), &[], &mut log);
    assert!(log.is_empty());
    assert_eq!(other, [9, 9]);
    on_in(&mut p, 1, &mut log);
    assert_eq!(log[0], HwOp::TxDma { n: 0, addr: 0x1200 });
    assert_eq!(log[1], HwOp::TLen { ep: 1, value: 0 });
}

#[test]
fn ring_read_copies_what_fits() {
    let (mut p, e, _) = open(0x02, EndpointType::Bulk, 64, &A);
    let mut log = Vec::new();
    assert!(e.read_ring(&mut p, &mut log).is_none());
    on_out(&mut p, 2, 3, &mut log);
    let g = e.read_ring(&mut p, &mut log).unwrap();
    let memory = [1u8, 2, 3, 4, 5];
    let packet = RxBuf::attach(g, &memory);
    let mut long = [9u8; 5];
    assert_eq!(Endpoint::copy_packet(&packet, &mut long), 3);
    assert_eq!(long, [1, 2, 3, 9, 9]);
    let mut short = [9u8; 2];
    assert_eq!(Endpoint::copy_packet(&packet, &mut short), 2);
    assert_eq!(short, [1, 2]);
    assert_eq!(Endpoint::copy_packet(&packet, &mut []), 0);
}

#[test]
fn copies_no_more_than_fits() {
    assert_eq!(Endpoint::copy_len(10, 64), 10);
    assert_eq!(Endpoint::copy_len(100, 64), 64);
    assert_eq!(Endpoint::copy_len(64, 64), 64);
}
