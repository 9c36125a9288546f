//! RGB packets for 32-channel glasses and the pattern transforms on them.

use vstd::prelude::*;

verus! {

/// Number of RGB channels in one packet.
pub const CHANNELS: usize = 32;

/// Bytes in one packet: three per channel.
pub const PACKET_LEN: usize = 96;

/// One frame of colour: channel `i` is bytes `3i, 3i+1, 3i+2` (red, green, blue).
pub type Packet = [u8; PACKET_LEN];

/// All channels off.
pub const DARK: Packet = [
    0, 0, 0, 0, 0, 0, 0, 0, 0, 0, 0, 0,
    0, 0, 0, 0, 0, 0, 0, 0, 0, 0, 0, 0,
    0, 0, 0, 0, 0, 0, 0, 0, 0, 0, 0, 0,
    0, 0, 0, 0, 0, 0, 0, 0, 0, 0, 0, 0,
    0, 0, 0, 0, 0, 0, 0, 0, 0, 0, 0, 0,
    0, 0, 0, 0, 0, 0, 0, 0, 0, 0, 0, 0,
    0, 0, 0, 0, 0, 0, 0, 0, 0, 0, 0, 0,
    0, 0, 0, 0, 0, 0, 0, 0, 0, 0, 0, 0,
];

/// Warm white `(255, 255, 215)` on every channel.
pub const WHITE: Packet = [
    255, 255, 215, 255, 255, 215, 255, 255, 215, 255, 255, 215,
    255, 255, 215, 255, 255, 215, 255, 255, 215, 255, 255, 215,
    255, 255, 215, 255, 255, 215, 255, 255, 215, 255, 255, 215,
    255, 255, 215, 255, 255, 215, 255, 255, 215, 255, 255, 215,
    255, 255, 215, 255, 255, 215, 255, 255, 215, 255, 255, 215,
    255, 255, 215, 255, 255, 215, 255, 255, 215, 255, 255, 215,
    255, 255, 215, 255, 255, 215, 255, 255, 215, 255, 255, 215,
    255, 255, 215, 255, 255, 215, 255, 255, 215, 255, 255, 215,
];

/// Full-intensity white `(255, 255, 255)` on every channel; distinct from warm [`WHITE`].
pub const FULL_RGB: Packet = [
    255, 255, 255, 255, 255, 255, 255, 255, 255, 255, 255, 255,
    255, 255, 255, 255, 255, 255, 255, 255, 255, 255, 255, 255,
    255, 255, 255, 255, 255, 255, 255, 255, 255, 255, 255, 255,
    255, 255, 255, 255, 255, 255, 255, 255, 255, 255, 255, 255,
    255, 255, 255, 255, 255, 255, 255, 255, 255, 255, 255, 255,
    255, 255, 255, 255, 255, 255, 255, 255, 255, 255, 255, 255,
    255, 255, 255, 255, 255, 255, 255, 255, 255, 255, 255, 255,
    255, 255, 255, 255, 255, 255, 255, 255, 255, 255, 255, 255,
];

/// The packet in which every byte is `b`.
pub open spec fn solid(b: u8) -> Seq<u8> {
    Seq::new(96, |k: int| b)
}

/// The packet in which every channel is the colour `(r, g, b)`.
pub open spec fn solid_rgb(r: u8, g: u8, b: u8) -> Seq<u8> {
    Seq::new(96, |k: int| if k % 3 == 0 { r } else if k % 3 == 1 { g } else { b })
}

/// The three named packets hold what their names say.
pub proof fn lemma_named_packets()
    ensures
        DARK@ == solid(0),
        WHITE@ == solid_rgb(255, 255, 215),
        FULL_RGB@ == solid(255),
{
    assert(DARK@ =~= solid(0));
    assert(WHITE@ =~= solid_rgb(255, 255, 215));
    assert(FULL_RGB@ =~= solid(255));
}

/// Byte `k` of a packet after `rotate13`: channels 1..=12 move down one place, channel 0
/// moves to channel 13, channels 17..=28 move down into 16..=27; channels 12, 14, 15 and
/// 28..=31 keep their colour.
pub open spec fn rotate13_byte(a: Seq<u8>, k: int) -> u8 {
    if (0 <= k < 36) || (48 <= k < 84) {
        a[k + 3]
    } else if 39 <= k < 42 {
        a[k - 39]
    } else {
        a[k]
    }
}

/// The packet `rotate13` makes of `a`.
pub open spec fn spec_rotate13(a: Seq<u8>) -> Seq<u8> {
    Seq::new(96, |k: int| rotate13_byte(a, k))
}

/// The packet rotated by `m` bytes to the left: byte `k` comes from byte `(k + m) % 96`.
pub open spec fn rotated_left(a: Seq<u8>, m: int) -> Seq<u8> {
    Seq::new(96, |k: int| a[(k + m) % 96])
}

/// Marquee one channel to the left: byte `k` comes from byte `k + 3`, wrapping around.
pub open spec fn spec_marquee_left(a: Seq<u8>) -> Seq<u8> {
    a.subrange(3, 96) + a.subrange(0, 3)
}

/// Marquee one channel to the right: byte `k` comes from byte `k - 3`, wrapping around.
pub open spec fn spec_marquee_right(a: Seq<u8>) -> Seq<u8> {
    a.subrange(93, 96) + a.subrange(0, 93)
}

/// `n` marquee steps to the left.
pub open spec fn marquee_left_n(a: Seq<u8>, n: nat) -> Seq<u8>
    decreases n,
{
    if n == 0 {
        a
    } else {
        spec_marquee_left(marquee_left_n(a, (n - 1) as nat))
    }
}

/// Rotates channels 0..=12 and 16..=28 of the packet.
///
/// Channel 0 is saved and written into channel 13; channels 1..=12 shift into 0..=11;
/// channels 17..=28 shift into 16..=27 (channel 28 keeps its colour); channels 12, 14,
/// 15 and 29..=31 are untouched.
pub fn rotate13(arr: &mut Packet)
    ensures
        final(arr)@ == spec_rotate13(old(arr)@),
{
    let r = arr[0];
    let g = arr[1];
    let b = arr[2];
    let nrot: usize = 13;
    let ghost a = arr@;
    let mut i: usize = 3;
    while i < nrot * 3
        invariant
            nrot == 13,
            3 <= i <= 39,
            a.len() == 96,
            arr@.len() == 96,
            r == a[0],
            g == a[1],
            b == a[2],
            forall|k: int| 0 <= k < i - 3 ==> arr@[k] == a[k + 3],
            forall|k: int| 48 <= k < i + 45 ==> arr@[k] == a[k + 3],
            forall|k: int| i - 3 <= k < 48 ==> arr@[k] == a[k],
            forall|k: int| i + 45 <= k < 96 ==> arr@[k] == a[k],
        decreases 39 - i,
    {
        let j = i + 48;
        arr[i - 3] = arr[i];
        arr[j - 3] = arr[j];
        i = i + 1;
    }
    arr[nrot * 3] = r;
    arr[nrot * 3 + 1] = g;
    arr[nrot * 3 + 2] = b;
    assert(arr@ =~= spec_rotate13(a));
}

/// Moves every channel one place to the left; channel 0 wraps around to channel 31.
pub fn marquee_left(arr: &mut Packet)
    ensures
        final(arr)@ == spec_marquee_left(old(arr)@),
{
    let ghost a = arr@;
    let r = arr[0];
    let g = arr[1];
    let b = arr[2];
    let mut k: usize = 0;
    while k < 93
        invariant
            k <= 93,
            a.len() == 96,
            arr@.len() == 96,
            r == a[0],
            g == a[1],
            b == a[2],
            forall|m: int| 0 <= m < k ==> arr@[m] == a[m + 3],
            forall|m: int| k <= m < 96 ==> arr@[m] == a[m],
        decreases 93 - k,
    {
        arr[k] = arr[k + 3];
        k = k + 1;
    }
    arr[93] = r;
    arr[94] = g;
    arr[95] = b;
    assert(arr@ =~= spec_marquee_left(a));
}

/// Moves every channel one place to the right; channel 31 wraps around to channel 0.
pub fn marquee_right(arr: &mut Packet)
    ensures
        final(arr)@ == spec_marquee_right(old(arr)@),
{
    let ghost a = arr@;
    let r = arr[93];
    let g = arr[94];
    let b = arr[95];
    let mut k: usize = 96;
    while k > 3
        invariant
            3 <= k <= 96,
            a.len() == 96,
            arr@.len() == 96,
            r == a[93],
            g == a[94],
            b == a[95],
            forall|m: int| k <= m < 96 ==> arr@[m] == a[m - 3],
            forall|m: int| 0 <= m < k ==> arr@[m] == a[m],
        decreases k,
    {
        k = k - 1;
        arr[k] = arr[k - 3];
    }
    arr[0] = r;
    arr[1] = g;
    arr[2] = b;
    assert(arr@ =~= spec_marquee_right(a));
}

/// A marquee step to the right undoes one to the left.
pub proof fn lemma_marquee_right_undoes_left(a: Seq<u8>)
    requires
        a.len() == 96,
    ensures
        spec_marquee_right(spec_marquee_left(a)) == a,
{
    assert(spec_marquee_right(spec_marquee_left(a)) =~= a);
}

/// A marquee step to the left undoes one to the right.
pub proof fn lemma_marquee_left_undoes_right(a: Seq<u8>)
    requires
        a.len() == 96,
    ensures
        spec_marquee_left(spec_marquee_right(a)) == a,
{
    assert(spec_marquee_left(spec_marquee_right(a)) =~= a);
}

/// `n` marquee steps to the left rotate the packet left by `3 * n` bytes.
pub proof fn lemma_marquee_left_n_rotates(a: Seq<u8>, n: nat)
    requires
        a.len() == 96,
    ensures
        marquee_left_n(a, n) == rotated_left(a, 3 * n as int),
    decreases n,
{
    if n == 0 {
        assert forall|k: int| 0 <= k < 96 implies #[trigger] rotated_left(a, 0)[k] == a[k] by {
            vstd::arithmetic::div_mod::lemma_small_mod(k as nat, 96);
        }
        assert(rotated_left(a, 0) =~= a);
    } else {
        let prev = marquee_left_n(a, (n - 1) as nat);
        lemma_marquee_left_n_rotates(a, (n - 1) as nat);
        assert forall|k: int| 0 <= k < 96 implies #[trigger] spec_marquee_left(prev)[k]
            == a[(k + 3 * n) % 96] by {
            let j = if k < 93 { k + 3 } else { k - 93 };
            assert(spec_marquee_left(prev)[k] == prev[j]);
            assert(prev[j] == a[(j + 3 * (n - 1)) % 96]);
            if k < 93 {
                assert(j + 3 * (n - 1) == k + 3 * n);
            } else {
                assert(j + 3 * (n - 1) + 96 == k + 3 * n);
                vstd::arithmetic::div_mod::lemma_mod_add_multiples_vanish(
                    j + 3 * (n - 1),
                    96,
                );
            }
        }
        assert(marquee_left_n(a, n) =~= rotated_left(a, 3 * n as int));
    }
}

/// Thirty-two marquee steps to the left bring every channel back where it started.
pub proof fn lemma_marquee_left_full_turn(a: Seq<u8>)
    requires
        a.len() == 96,
    ensures
        marquee_left_n(a, 32) == a,
{
    lemma_marquee_left_n_rotates(a, 32);
    assert forall|k: int| 0 <= k < 96 implies #[trigger] rotated_left(a, 96)[k] == a[k] by {
        vstd::arithmetic::div_mod::lemma_mod_add_multiples_vanish(k, 96);
        vstd::arithmetic::div_mod::lemma_small_mod(k as nat, 96);
    }
    assert(rotated_left(a, 96) =~= a);
}

/// The integer HSV-to-RGB conversion: hue `h` in degrees (taken
/// modulo 360), saturation `s` and value `v` in `0..=255`; the result is `(r, g, b)`.
pub open spec fn hsv_channels(h: int, s: int, v: int) -> (int, int, int) {
    let h = h % 360;
    if s == 0 {
        (v, v, v)
    } else {
        let region = h / 60;
        let rem = h % 60;
        let p = v * (255 - s) / 255;
        let q = v * (255 - s * rem / 60) / 255;
        let t = v * (255 - s * (60 - rem) / 60) / 255;
        if region == 0 {
            (v, t, p)
        } else if region == 1 {
            (q, v, p)
        } else if region == 2 {
            (p, v, t)
        } else if region == 3 {
            (p, q, v)
        } else if region == 4 {
            (t, p, v)
        } else {
            (v, p, q)
        }
    }
}

/// Bounds of the parts of the conversion, for `s` and `v` bytes and `rem` in `0..60`.
proof fn lemma_hsv_parts(s: int, v: int, rem: int)
    requires
        0 <= s <= 255,
        0 <= v <= 255,
        0 <= rem < 60,
    ensures
        0 <= s * rem / 60 <= s,
        0 <= s * (60 - rem) / 60 <= s,
        0 <= v * (255 - s) / 255 <= v,
        0 <= v * (255 - s * rem / 60) / 255 <= v,
        0 <= v * (255 - s * (60 - rem) / 60) / 255 <= v,
{
    assert(0 <= s * rem <= s * 60) by (nonlinear_arith)
        requires
            0 <= s <= 255,
            0 <= rem < 60,
    ;
    assert(0 <= s * (60 - rem) <= s * 60) by (nonlinear_arith)
        requires
            0 <= s <= 255,
            0 <= rem < 60,
    ;
    assert(s * 60 / 60 == s) by (nonlinear_arith);
    vstd::arithmetic::div_mod::lemma_div_is_ordered(s * rem, s * 60, 60);
    vstd::arithmetic::div_mod::lemma_div_is_ordered(s * (60 - rem), s * 60, 60);
    vstd::arithmetic::div_mod::lemma_div_pos_is_pos(s * rem, 60);
    vstd::arithmetic::div_mod::lemma_div_pos_is_pos(s * (60 - rem), 60);
    let a = s * rem / 60;
    let c = s * (60 - rem) / 60;
    assert(forall|x: int| 0 <= x <= 255 ==> 0 <= #[trigger] (v * x) <= v * 255) by {
        assert forall|x: int| 0 <= x <= 255 implies 0 <= #[trigger] (v * x) <= v * 255 by {
            vstd::arithmetic::mul::lemma_mul_inequality(x, 255, v);
            vstd::arithmetic::mul::lemma_mul_is_commutative(x, v);
            vstd::arithmetic::mul::lemma_mul_is_commutative(255, v);
            vstd::arithmetic::mul::lemma_mul_nonnegative(v, x);
        }
    }
    assert(v * 255 / 255 == v) by (nonlinear_arith);
    assert(v * (255 - s) <= v * 255);
    assert(v * (255 - a) <= v * 255);
    assert(v * (255 - c) <= v * 255);
    vstd::arithmetic::div_mod::lemma_div_is_ordered(v * (255 - s), v * 255, 255);
    vstd::arithmetic::div_mod::lemma_div_is_ordered(v * (255 - a), v * 255, 255);
    vstd::arithmetic::div_mod::lemma_div_is_ordered(v * (255 - c), v * 255, 255);
    vstd::arithmetic::div_mod::lemma_div_pos_is_pos(v * (255 - s), 255);
    vstd::arithmetic::div_mod::lemma_div_pos_is_pos(v * (255 - a), 255);
    vstd::arithmetic::div_mod::lemma_div_pos_is_pos(v * (255 - c), 255);
}

/// Every colour part lies between 0 and the value `v`, so it fits in a byte.
pub proof fn lemma_hsv_channels_bounded(h: int, s: int, v: int)
    requires
        0 <= h,
        0 <= s <= 255,
        0 <= v <= 255,
    ensures
        0 <= hsv_channels(h, s, v).0 <= v,
        0 <= hsv_channels(h, s, v).1 <= v,
        0 <= hsv_channels(h, s, v).2 <= v,
{
    let hh = h % 360;
    lemma_hsv_parts(s, v, hh % 60);
}

/// The hue is an angle: adding a full turn gives the same colour.
pub proof fn lemma_hsv_hue_wraps(h: int, s: int, v: int)
    ensures
        hsv_channels(h + 360, s, v) == hsv_channels(h, s, v),
{
    vstd::arithmetic::div_mod::lemma_mod_add_multiples_vanish(h, 360);
}

/// Zero saturation gives grey `(v, v, v)`; zero value gives black.
pub proof fn lemma_hsv_grey_and_black(h: int, s: int, v: int)
    requires
        0 <= h,
        0 <= s <= 255,
    ensures
        hsv_channels(h, 0, v) == (v, v, v),
        hsv_channels(h, s, 0) == (0int, 0int, 0int),
{
    lemma_hsv_channels_bounded(h, s, 0);
}

/// The three bytes of `hsv_channels`.
pub open spec fn hsv_bytes(h: int, s: int, v: int) -> Seq<u8> {
    let c = hsv_channels(h, s, v);
    seq![c.0 as u8, c.1 as u8, c.2 as u8]
}

/// Converts HSV to RGB. `h` is in degrees (360 wraps to 0); `s` and `v` are in `0..=255`.
pub fn hsv_to_rgb(h: u16, s: u8, v: u8) -> (rgb: [u8; 3])
    ensures
        rgb@ == hsv_bytes(h as int, s as int, v as int),
        rgb[0] as int == hsv_channels(h as int, s as int, v as int).0,
        rgb[1] as int == hsv_channels(h as int, s as int, v as int).1,
        rgb[2] as int == hsv_channels(h as int, s as int, v as int).2,
{
    proof {
        lemma_hsv_channels_bounded(h as int, s as int, v as int);
    }
    let h = h % 360;
    if s == 0 {
        let out = [v, v, v];
        assert(out@ =~= hsv_bytes(h as int, s as int, v as int));
        return out;
    }
    let region = h / 60;
    let remainder = (h % 60) as u32;
    let s = s as u32;
    let v = v as u32;
    proof {
        lemma_hsv_parts(s as int, v as int, remainder as int);
        assert(v * (255 - s) <= 255 * 255) by (nonlinear_arith)
            requires
                v <= 255,
                s <= 255,
        ;
        assert(s * remainder <= 255 * 60) by (nonlinear_arith)
            requires
                remainder < 60,
                s <= 255,
        ;
        assert(s * (60 - remainder) <= 255 * 60) by (nonlinear_arith)
            requires
                remainder < 60,
                s <= 255,
        ;
        assert(v * (255 - s * remainder / 60) <= 255 * 255) by (nonlinear_arith)
            requires
                v <= 255,
                0 <= s * remainder / 60 <= 255,
        ;
        assert(v * (255 - s * (60 - remainder) / 60) <= 255 * 255) by (nonlinear_arith)
            requires
                v <= 255,
                0 <= s * (60 - remainder) / 60 <= 255,
        ;
    }
    let p = v * (255 - s) / 255;
    let q = v * (255 - s * remainder / 60) / 255;
    let t = v * (255 - s * (60 - remainder) / 60) / 255;
    let out = if region == 0 {
        [v as u8, t as u8, p as u8]
    } else if region == 1 {
        [q as u8, v as u8, p as u8]
    } else if region == 2 {
        [p as u8, v as u8, t as u8]
    } else if region == 3 {
        [p as u8, q as u8, v as u8]
    } else if region == 4 {
        [t as u8, p as u8, v as u8]
    } else {
        [v as u8, p as u8, q as u8]
    };
    assert(out@ =~= hsv_bytes(h as int, s as int, v as int));
    out
}

/// Hue of channel `ch` at phase `step` of the rainbow drift.
pub open spec fn rainbow_hue(step: int, ch: int) -> int {
    (step * 2 + ch * 360 / 32) % 360
}

/// The rainbow-drift packet at phase `step`: channel `i` has hue `rainbow_hue(step, i)` at
/// full saturation and value.
pub open spec fn spec_rainbow_drift(step: int) -> Seq<u8> {
    Seq::new(96, |k: int| hsv_bytes(rainbow_hue(step, k / 3), 255, 255)[k % 3])
}

/// Spatial rainbow at 2-degree phase `step` (`0..180` in the shows).
///
/// Channel `i` uses hue `(step * 2 + i * 360 / 32) % 360` at full saturation and value.
/// The phase arithmetic is done on `u16`, so `step` stays where it cannot overflow.
pub fn rainbow_drift_packet(step: u16) -> (packet: Packet)
    requires
        step * 2 + 348 <= u16::MAX,
    ensures
        packet@ == spec_rainbow_drift(step as int),
{
    let mut packet: Packet = DARK;
    let mut i: usize = 0;
    while i < CHANNELS
        invariant
            i <= 32,
            step * 2 + 348 <= u16::MAX,
            packet@.len() == 96,
            forall|k: int| 0 <= k < 3 * i ==> packet@[k] == spec_rainbow_drift(step as int)[k],
        decreases 32 - i,
    {
        let ch = i as u16;
        assert(ch * 360 / 32 <= 348) by (nonlinear_arith)
            requires
                ch < 32,
        ;
        let hue = (step * 2 + ch * 360 / 32) % 360;
        let rgb = hsv_to_rgb(hue, 255, 255);
        let offset = i * 3;
        proof {
            assert forall|c: int| 0 <= c < 3 implies #[trigger] spec_rainbow_drift(step as int)[
                offset + c] == rgb@[c] by {
                assert((offset + c) / 3 == i) by (nonlinear_arith)
                    requires
                        offset == i * 3,
                        0 <= c < 3,
                ;
                assert((offset + c) % 3 == c) by (nonlinear_arith)
                    requires
                        offset == i * 3,
                        0 <= c < 3,
                ;
            }
        }
        packet[offset] = rgb[0];
        packet[offset + 1] = rgb[1];
        packet[offset + 2] = rgb[2];
        i = i + 1;
    }
    assert(packet@ =~= spec_rainbow_drift(step as int));
    packet
}

/// The drift is periodic: phase `step + 180` is the same packet as phase `step`.
pub proof fn lemma_rainbow_drift_period(step: int)
    ensures
        spec_rainbow_drift(step + 180) == spec_rainbow_drift(step),
{
    assert forall|ch: int| #[trigger] rainbow_hue(step + 180, ch) == rainbow_hue(step, ch) by {
        assert((step + 180) * 2 + ch * 360 / 32 == (step * 2 + ch * 360 / 32) + 360);
        vstd::arithmetic::div_mod::lemma_mod_add_multiples_vanish(step * 2 + ch * 360 / 32, 360);
    }
    assert(spec_rainbow_drift(step + 180) =~= spec_rainbow_drift(step));
}

proof fn lemma_rising_part(s: int, v: int, r1: int, r2: int)
    requires
        0 <= s <= 255,
        0 <= v <= 255,
        0 <= r1 <= r2 < 60,
    ensures
        v * (255 - s) / 255 <= v * (255 - s * (60 - r1) / 60) / 255,
        v * (255 - s * (60 - r1) / 60) / 255 <= v * (255 - s * (60 - r2) / 60) / 255,
{
    lemma_hsv_parts(s, v, r1);
    lemma_hsv_parts(s, v, r2);
    assert(s * (60 - r2) <= s * (60 - r1)) by (nonlinear_arith)
        requires
            0 <= s,
            r1 <= r2,
    ;
    vstd::arithmetic::div_mod::lemma_div_is_ordered(s * (60 - r2), s * (60 - r1), 60);
    let a1 = s * (60 - r1) / 60;
    let a2 = s * (60 - r2) / 60;
    assert(v * (255 - a1) <= v * (255 - a2)) by (nonlinear_arith)
        requires
            0 <= v,
            a2 <= a1,
    ;
    assert(v * (255 - s) <= v * (255 - a1)) by (nonlinear_arith)
        requires
            0 <= v,
            a1 <= s,
    ;
    vstd::arithmetic::div_mod::lemma_div_is_ordered(v * (255 - a1), v * (255 - a2), 255);
    vstd::arithmetic::div_mod::lemma_div_is_ordered(v * (255 - s), v * (255 - a1), 255);
}

proof fn lemma_falling_part(s: int, v: int, r1: int, r2: int)
    requires
        0 <= s <= 255,
        0 <= v <= 255,
        0 <= r1 <= r2 < 60,
    ensures
        v * (255 - s) / 255 <= v * (255 - s * r2 / 60) / 255,
        v * (255 - s * r2 / 60) / 255 <= v * (255 - s * r1 / 60) / 255,
{
    lemma_hsv_parts(s, v, r1);
    lemma_hsv_parts(s, v, r2);
    assert(s * r1 <= s * r2) by (nonlinear_arith)
        requires
            0 <= s,
            r1 <= r2,
    ;
    vstd::arithmetic::div_mod::lemma_div_is_ordered(s * r1, s * r2, 60);
    let a1 = s * r1 / 60;
    let a2 = s * r2 / 60;
    assert(v * (255 - a2) <= v * (255 - a1)) by (nonlinear_arith)
        requires
            0 <= v,
            a1 <= a2,
    ;
    assert(v * (255 - s) <= v * (255 - a2)) by (nonlinear_arith)
        requires
            0 <= v,
            a2 <= s,
    ;
    vstd::arithmetic::div_mod::lemma_div_is_ordered(v * (255 - a2), v * (255 - a1), 255);
    vstd::arithmetic::div_mod::lemma_div_is_ordered(v * (255 - s), v * (255 - a2), 255);
}

/// The colour wheel in sixths: on each sixth of the hue circle one channel is at the value
/// `v`, one at the floor `v * (255 - s) / 255`, and the third lies between them. Red is
/// brightest from 300 to 60 degrees, green from 60 to 180, blue from 180 to 300; blue is
/// darkest from 0 to 120, red from 120 to 240, green from 240 to 360.
pub proof fn lemma_hsv_sextants(h: int, s: int, v: int)
    requires
        0 <= h,
        1 <= s <= 255,
        0 <= v <= 255,
    ensures
        ({
            let c = hsv_channels(h, s, v);
            let hh = h % 360;
            let f = v * (255 - s) / 255;
            &&& f <= c.0 <= v
            &&& f <= c.1 <= v
            &&& f <= c.2 <= v
            &&& (hh < 60 ==> c.0 == v && c.2 == f)
            &&& (60 <= hh < 120 ==> c.1 == v && c.2 == f)
            &&& (120 <= hh < 180 ==> c.1 == v && c.0 == f)
            &&& (180 <= hh < 240 ==> c.2 == v && c.0 == f)
            &&& (240 <= hh < 300 ==> c.2 == v && c.1 == f)
            &&& (300 <= hh ==> c.0 == v && c.1 == f)
        }),
{
    let hh = h % 360;
    let rem = hh % 60;
    lemma_hsv_parts(s, v, rem);
    lemma_rising_part(s, v, rem, rem);
    lemma_falling_part(s, v, rem, rem);
}

/// The middle channel moves steadily with the hue within a sixth: it rises on the sixths
/// that start at 0, 120 and 240 degrees (green, blue, red in turn) and falls on the others
/// (red, green, blue in turn).
pub proof fn lemma_hsv_middle_channel_monotone(h1: int, h2: int, s: int, v: int)
    requires
        0 <= h1 <= h2 < 360,
        h1 / 60 == h2 / 60,
        0 <= s <= 255,
        0 <= v <= 255,
    ensures
        ({
            let c1 = hsv_channels(h1, s, v);
            let c2 = hsv_channels(h2, s, v);
            let sextant = h1 / 60;
            &&& (sextant == 0 ==> c1.1 <= c2.1)
            &&& (sextant == 1 ==> c1.0 >= c2.0)
            &&& (sextant == 2 ==> c1.2 <= c2.2)
            &&& (sextant == 3 ==> c1.1 >= c2.1)
            &&& (sextant == 4 ==> c1.0 <= c2.0)
            &&& (sextant == 5 ==> c1.2 >= c2.2)
        }),
{
    vstd::arithmetic::div_mod::lemma_small_mod(h1 as nat, 360);
    vstd::arithmetic::div_mod::lemma_small_mod(h2 as nat, 360);
    let r1 = h1 % 60;
    let r2 = h2 % 60;
    vstd::arithmetic::div_mod::lemma_fundamental_div_mod(h1, 60);
    vstd::arithmetic::div_mod::lemma_fundamental_div_mod(h2, 60);
    assert(r1 <= r2);
    lemma_rising_part(s, v, r1, r2);
    lemma_falling_part(s, v, r1, r2);
}

/// Every channel of the rainbow drift is the full-saturation, full-value colour of its
/// hue `(2 * step + 360 * i / 32) % 360`, all 32 of them; none is dark, since one of its
/// three bytes is 255.
pub proof fn lemma_rainbow_channels(step: int, i: int)
    requires
        0 <= step,
        0 <= i < 32,
    ensures
        spec_rainbow_drift(step).subrange(3 * i, 3 * i + 3) == hsv_bytes(
            (step * 2 + i * 360 / 32) % 360,
            255,
            255,
        ),
        spec_rainbow_drift(step)[3 * i] == 255 || spec_rainbow_drift(step)[3 * i + 1] == 255
            || spec_rainbow_drift(step)[3 * i + 2] == 255,
{
    let hue = (step * 2 + i * 360 / 32) % 360;
    let seg = spec_rainbow_drift(step).subrange(3 * i, 3 * i + 3);
    assert forall|c: int| 0 <= c < 3 implies #[trigger] seg[c] == hsv_bytes(hue, 255, 255)[c] by {
        assert((3 * i + c) / 3 == i) by (nonlinear_arith)
            requires
                0 <= c < 3,
        ;
        assert((3 * i + c) % 3 == c) by (nonlinear_arith)
            requires
                0 <= c < 3,
        ;
    }
    assert(seg =~= hsv_bytes(hue, 255, 255));
    assert(0 <= hue) by {
        vstd::arithmetic::div_mod::lemma_mod_bound(step * 2 + i * 360 / 32, 360);
    }
    lemma_hsv_sextants(hue, 255, 255);
    lemma_hsv_channels_bounded(hue, 255, 255);
    assert(seg[0] == spec_rainbow_drift(step)[3 * i]);
    assert(seg[1] == spec_rainbow_drift(step)[3 * i + 1]);
    assert(seg[2] == spec_rainbow_drift(step)[3 * i + 2]);
}

} // verus!
