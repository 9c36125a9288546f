//! The XBee radio link behind an FTDI serial bridge, and its wire framing.

use vstd::prelude::*;

use ftdi_nusb::FtdiDevice;

use crate::patterns::{Packet, PACKET_LEN};

verus! {

/// The FTDI device of the `ftdi-nusb` crate, carried as an opaque value.
#[verifier::external_type_specification]
#[verifier::external_body]
pub struct ExFtdiDevice(FtdiDevice);

/// Serial speed of the radio link.
pub const BAUD: u32 = 57600;

/// Bytes on the wire per packet: the RGB bytes and a terminating zero.
pub const WIRE_LEN: usize = 97;

/// An opened radio link.
pub struct Xbee {
    pub dev: FtdiDevice,
}

impl Xbee {
    /// The 97-byte wire frame: the 96 RGB bytes, then a `0x00` terminator.
    pub fn frame(packet: &Packet) -> (wire: [u8; WIRE_LEN])
        ensures
            wire@ == packet@.push(0u8),
    {
        let mut wire: [u8; WIRE_LEN] = [0u8; WIRE_LEN];
        let mut k: usize = 0;
        while k < PACKET_LEN
            invariant
                k <= PACKET_LEN,
                wire@.len() == WIRE_LEN,
                wire@[PACKET_LEN as int] == 0,
                forall|m: int| 0 <= m < k ==> wire@[m] == packet@[m],
            decreases PACKET_LEN - k,
        {
            wire[k] = packet[k];
            k = k + 1;
        }
        wire[PACKET_LEN] = 0;
        assert(wire@ =~= packet@.push(0u8));
        wire
    }
}

} // verus!
