use usbhs_pipe::ring::{qlen, wrap, SlotRing};

#[test]
fn indices_wrap_at_sixteen() {
    assert_eq!(wrap(0), 1);
    assert_eq!(wrap(14), 15);
    assert_eq!(wrap(15), 0);
    assert_eq!(qlen(3, 7), 4);
    assert_eq!(qlen(14, 2), 4);
    assert_eq!(qlen(5, 5), 0);
}

#[test]
fn ring_keeps_order_across_the_wrap() {
    let mut r = SlotRing::new();
    for round in 0..5u8 {
        for i in 0..7u8 {
            r.push((i + round) % 8);
        }
        assert_eq!(r.len(), 7);
        for i in 0..7u8 {
            assert_eq!(r.pop(), Some((i + round) % 8));
        }
        assert_eq!(r.pop(), None);
        assert!(r.is_empty());
    }
}

#[test]
fn ring_reads_as_empty_after_sixteen_pushes() {
    let mut r = SlotRing::new();
    for _ in 0..15 {
        r.push(1);
    }
    assert_eq!(r.len(), 15);
    r.push(2);
    assert!(r.is_empty());
}
