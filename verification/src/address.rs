//! Endpoint addresses, as `embassy_usb_driver` takes them apart.

use embassy_usb_driver::EndpointAddress;
use vstd::prelude::*;

verus! {

/// Direction of traffic, seen from the host.
#[derive(Clone, Copy, Debug, PartialEq, Eq, Structural)]
pub enum Direction {
    Out,
    In,
}

/// The endpoint number in an address: the low seven bits.
pub open spec fn addr_index(addr: u8) -> usize {
    (addr & 0x7f) as usize
}

/// The direction in an address: bit 7 is set for IN.
pub open spec fn addr_direction(addr: u8) -> Direction {
    if addr & 0x80 != 0 {
        Direction::In
    } else {
        Direction::Out
    }
}

/// Calls `EndpointAddress::index`: the address without its direction bit.
#[verifier::external_body]
pub(crate) fn address_index(addr: u8) -> (r: usize)
    ensures
        r == addr_index(addr),
{
    EndpointAddress::from(addr).index()
}

/// Calls `EndpointAddress::direction`: IN exactly when bit 7 is set.
#[verifier::external_body]
pub(crate) fn address_direction(addr: u8) -> (r: Direction)
    ensures
        r == addr_direction(addr),
{
    match EndpointAddress::from(addr).direction() {
        embassy_usb_driver::Direction::Out => Direction::Out,
        embassy_usb_driver::Direction::In => Direction::In,
    }
}

} // verus!
