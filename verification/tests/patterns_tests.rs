use band_lighthshow::patterns::{
    hsv_to_rgb, marquee_left, marquee_right, rainbow_drift_packet, rotate13, CHANNELS, DARK,
    FULL_RGB, PACKET_LEN, WHITE,
};

#[test]
fn test_packet_lengths() {
    assert_eq!(DARK.len(), PACKET_LEN);
    assert_eq!(WHITE.len(), PACKET_LEN);
    assert_eq!(FULL_RGB.len(), PACKET_LEN);
    assert_eq!(PACKET_LEN, 96);
}

#[test]
fn test_spot_values() {
    assert_eq!(&DARK[0..3], &[0, 0, 0]);
    assert_eq!(&WHITE[0..3], &[255, 255, 215]);
    assert_eq!(&FULL_RGB[0..3], &[255, 255, 255]);
    assert_eq!(&FULL_RGB[PACKET_LEN - 3..], &[255, 255, 255]);
    assert!(FULL_RGB.iter().all(|&b| b == 255));
}

#[test]
fn test_hsv_primary_hues() {
    assert_eq!(hsv_to_rgb(0, 255, 255), [255, 0, 0]);
    assert_eq!(hsv_to_rgb(120, 255, 255), [0, 255, 0]);
    assert_eq!(hsv_to_rgb(240, 255, 255), [0, 0, 255]);
    assert_eq!(hsv_to_rgb(60, 255, 255), [255, 255, 0]);
    assert_eq!(hsv_to_rgb(360, 255, 255), [255, 0, 0]);
}

#[test]
fn test_rainbow_drift_packet() {
    let pkt = rainbow_drift_packet(0);
    assert_eq!(pkt.len(), PACKET_LEN);
    assert_eq!(&pkt[0..3], &[255, 0, 0]);
    assert_eq!(&pkt[16 * 3..16 * 3 + 3], &hsv_to_rgb(180, 255, 255));
    assert_eq!(&pkt[16 * 3..16 * 3 + 3], &[0, 255, 255]);

    let last = rainbow_drift_packet(179);
    assert_eq!(last.len(), PACKET_LEN);
    assert_eq!(&last[0..3], &hsv_to_rgb(358, 255, 255));
}

#[test]
fn test_rotate13() {
    let mut pkt = [0u8; 96];
    for i in 0..32 {
        pkt[i * 3] = i as u8;
        pkt[i * 3 + 1] = (i + 100) as u8;
        pkt[i * 3 + 2] = (i + 200) as u8;
    }
    let original = pkt;
    rotate13(&mut pkt);

    for ch in 0..12 {
        assert_eq!(&pkt[ch * 3..ch * 3 + 3], &original[(ch + 1) * 3..(ch + 1) * 3 + 3]);
    }
    assert_eq!(&pkt[12 * 3..12 * 3 + 3], &original[12 * 3..12 * 3 + 3]);
    assert_eq!(&pkt[13 * 3..13 * 3 + 3], &original[0..3]);
    assert_eq!(&pkt[14 * 3..14 * 3 + 3], &original[14 * 3..14 * 3 + 3]);
    assert_eq!(&pkt[15 * 3..15 * 3 + 3], &original[15 * 3..15 * 3 + 3]);
    for ch in 16..28 {
        assert_eq!(&pkt[ch * 3..ch * 3 + 3], &original[(ch + 1) * 3..(ch + 1) * 3 + 3]);
    }
    assert_eq!(&pkt[28 * 3..28 * 3 + 3], &original[28 * 3..28 * 3 + 3]);
    for ch in 29..32 {
        assert_eq!(&pkt[ch * 3..ch * 3 + 3], &original[ch * 3..ch * 3 + 3]);
    }
}

#[test]
fn test_marquee() {
    let mut pkt = [0u8; PACKET_LEN];
    for i in 0..CHANNELS {
        pkt[i * 3] = i as u8;
        pkt[i * 3 + 1] = 10;
        pkt[i * 3 + 2] = 20;
    }
    let original = pkt;
    marquee_left(&mut pkt);
    assert_ne!(pkt, original);
    marquee_right(&mut pkt);
    assert_eq!(pkt, original);

    for _ in 0..32 {
        marquee_left(&mut pkt);
    }
    assert_eq!(pkt, original);
}

fn numbered() -> [u8; PACKET_LEN] {
    let mut pkt = [0u8; PACKET_LEN];
    for (k, b) in pkt.iter_mut().enumerate() {
        *b = k as u8;
    }
    pkt
}

#[test]
fn marquee_left_moves_one_channel_with_wrap() {
    let mut pkt = numbered();
    marquee_left(&mut pkt);
    assert_eq!(&pkt[0..3], &[3, 4, 5]);
    assert_eq!(&pkt[93..96], &[0, 1, 2]);
}

#[test]
fn marquee_right_moves_one_channel_with_wrap() {
    let mut pkt = numbered();
    marquee_right(&mut pkt);
    assert_eq!(&pkt[0..3], &[93, 94, 95]);
    assert_eq!(&pkt[3..6], &[0, 1, 2]);
    marquee_left(&mut pkt);
    assert_eq!(pkt, numbered());
}

#[test]
fn rotate13_keeps_outer_channels() {
    let mut pkt = numbered();
    rotate13(&mut pkt);
    assert_eq!(&pkt[39..42], &[0, 1, 2]);
    assert_eq!(&pkt[36..39], &[36, 37, 38]);
    assert_eq!(&pkt[48..51], &[51, 52, 53]);
    assert_eq!(&pkt[84..96], &numbered()[84..96]);
}

#[test]
fn hsv_grey_black_and_mid_hues() {
    assert_eq!(hsv_to_rgb(200, 0, 200), [200, 200, 200]);
    assert_eq!(hsv_to_rgb(200, 255, 0), [0, 0, 0]);
    // region 0, remainder 30: t = 255 * (255 - 255 * 30 / 60) / 255 = 128
    assert_eq!(hsv_to_rgb(30, 255, 255), [255, 128, 0]);
    // region 5: (v, p, q) with remainder 30: q = 255 * (255 - 127) / 255 = 128
    assert_eq!(hsv_to_rgb(330, 255, 255), [255, 0, 128]);
    // half saturation: p = 200 * (255 - 128) / 255 = 99
    assert_eq!(hsv_to_rgb(240, 128, 200), [99, 99, 200]);
}

#[test]
fn rainbow_drift_repeats_after_half_turn_of_steps() {
    assert_eq!(rainbow_drift_packet(0), rainbow_drift_packet(180));
    assert_eq!(rainbow_drift_packet(37), rainbow_drift_packet(217));
    // channel 1 at step 0 has hue 11
    assert_eq!(&rainbow_drift_packet(0)[3..6], &hsv_to_rgb(11, 255, 255));
}
