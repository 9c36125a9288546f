use band_lighthshow::patterns::{DARK, WHITE};
use band_lighthshow::routines::Action;
use band_lighthshow::xbee::{Xbee, BAUD, WIRE_LEN};

#[test]
fn test_wire_framing() {
    let wire = Xbee::frame(&WHITE);
    assert_eq!(wire.len(), 97);
    assert_eq!(&wire[..96], &WHITE[..]);
    assert_eq!(wire[96], 0x00);
}

#[test]
fn wire_frame_copies_every_byte() {
    let mut pkt = DARK;
    for (k, b) in pkt.iter_mut().enumerate() {
        *b = (k as u8).wrapping_mul(7).wrapping_add(1);
    }
    let wire = Xbee::frame(&pkt);
    assert_eq!(wire.len(), WIRE_LEN);
    assert_eq!(&wire[..96], &pkt[..]);
    assert_eq!(wire[96], 0);
    assert_eq!(BAUD, 57_600);
    assert_ne!(Action::Continue, Action::Quit);
}
