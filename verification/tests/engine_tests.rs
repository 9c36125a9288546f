use band_lighthshow::catalog::{Catalog, Op, Show, Wait};
use band_lighthshow::engine::{scale_rgb, Player, PlayerError, BRIGHTNESS_MAX};
use band_lighthshow::patterns::{marquee_left, rotate13, Packet, CHANNELS, DARK, WHITE};

fn catalog_with(frames: &[(&str, Packet)]) -> Catalog {
    let list = frames.iter().map(|(name, pkt)| ((*name).to_owned(), *pkt)).collect::<Vec<_>>();
    Catalog::new(list, Vec::new()).expect("catalog")
}

fn show(looping: bool, program: Vec<Op>) -> Show {
    Show {
        key: 't',
        name: "Test".to_owned(),
        category: "Tests".to_owned(),
        desc: String::new(),
        looping,
        program,
    }
}

fn hold(frame: &str, wait: Wait) -> Op {
    Op::Hold { frame: frame.to_owned(), wait }
}

const T0: u64 = 1_000_000;

#[test]
fn one_shot_hold_sequence_emits_and_finishes() {
    let catalog = catalog_with(&[("white", WHITE), ("dark", DARK)]);
    let cue = show(false, vec![hold("white", Wait::Named("slp".to_owned())), hold("dark", Wait::Ms(40))]);
    let mut player = Player::new();
    let t0 = T0;

    let first = player.start(&cue, &catalog, t0).unwrap().expect("white");
    assert_eq!(first.packet, WHITE);
    assert_eq!(first.deadline, t0 + 40);
    assert!(player.is_running());

    assert!(player.advance(&catalog, t0 + 39).unwrap().is_none());

    let second = player.advance(&catalog, first.deadline).unwrap().expect("dark");
    assert_eq!(second.packet, DARK);

    assert!(player.advance(&catalog, second.deadline).unwrap().is_none());
    assert!(!player.is_running());
    assert_eq!(player.show_name(), "IDLE");
}

#[test]
fn looping_repeats_until_stop() {
    let catalog = catalog_with(&[("white", WHITE)]);
    let cue = show(true, vec![hold("white", Wait::Ms(10))]);
    let mut player = Player::new();
    let t0 = T0;

    let first = player.start(&cue, &catalog, t0).unwrap().expect("first");
    assert!(player.is_looping());
    let second = player.advance(&catalog, first.deadline).unwrap().expect("repeat");
    assert_eq!(second.packet, WHITE);

    player.stop();
    assert!(!player.is_running());
    assert!(player.advance(&catalog, second.deadline).unwrap().is_none());
}

#[test]
fn rotate_and_marquee_use_working_buffer() {
    let mut seed = DARK;
    seed[0..3].copy_from_slice(&[1, 2, 3]);
    seed[3..6].copy_from_slice(&[4, 5, 6]);
    let catalog = catalog_with(&[("seed", seed)]);

    let rotate_show = show(
        false,
        vec![
            Op::LoadWorking { frame: "seed".to_owned() },
            Op::Rotate13,
            Op::HoldWorking { wait: Wait::Ms(5) },
        ],
    );
    let mut player = Player::new();
    let t0 = T0;
    let step = player.start(&rotate_show, &catalog, t0).unwrap().expect("rotated");
    let mut expected = seed;
    rotate13(&mut expected);
    assert_eq!(step.packet, expected);

    let marquee_show = show(
        false,
        vec![
            Op::LoadWorking { frame: "seed".to_owned() },
            Op::MarqueeLeft,
            Op::HoldWorking { wait: Wait::Ms(5) },
            Op::MarqueeRight,
            Op::HoldWorking { wait: Wait::Ms(5) },
        ],
    );
    let mut player = Player::new();
    let left = player.start(&marquee_show, &catalog, t0).unwrap().expect("left");
    let mut left_expected = seed;
    marquee_left(&mut left_expected);
    assert_eq!(left.packet, left_expected);

    let right = player.advance(&catalog, left.deadline).unwrap().expect("right");
    assert_eq!(right.packet, seed);
}

#[test]
fn looping_does_not_reload_working_buffer() {
    let mut seed = DARK;
    for i in 0..CHANNELS {
        seed[i * 3] = u8::try_from(i).unwrap_or(u8::MAX);
    }
    let catalog = catalog_with(&[("seed", seed)]);
    let cue = show(
        true,
        vec![
            Op::LoadWorking { frame: "seed".to_owned() },
            Op::MarqueeLeft,
            Op::HoldWorking { wait: Wait::Ms(1) },
        ],
    );
    let mut player = Player::new();
    let t0 = T0;
    let first = player.start(&cue, &catalog, t0).unwrap().expect("first");
    let mut once = seed;
    marquee_left(&mut once);
    assert_eq!(first.packet, once);

    let second = player.advance(&catalog, first.deadline).unwrap().expect("second");
    let mut twice = once;
    marquee_left(&mut twice);
    assert_eq!(second.packet, twice);
}

#[test]
fn brightness_scales_on_emit() {
    let catalog = catalog_with(&[("white", WHITE)]);
    let cue = show(false, vec![hold("white", Wait::Ms(1))]);
    let mut player = Player::new();
    let t0 = T0;

    for _ in 0..16 {
        player.dimmer();
    }
    assert_eq!(player.brightness(), 0);
    let dark = player.start(&cue, &catalog, t0).unwrap().expect("dark");
    assert_eq!(dark.packet, DARK);

    for _ in 0..16 {
        player.brighter();
    }
    assert_eq!(player.brightness(), BRIGHTNESS_MAX);
    let ident = player.start(&cue, &catalog, t0).unwrap().expect("ident");
    assert_eq!(ident.packet, WHITE);

    let half = scale_rgb(&WHITE, 128);
    assert_ne!(half, WHITE);
    assert_ne!(half, DARK);
    assert_eq!(half[0], (255u16 * 128 / 255) as u8);
    assert_eq!(half[CHANNELS * 3 - 1], (215u16 * 128 / 255) as u8);
}

#[test]
fn scale_rgb_rounds_down() {
    let mut p = DARK;
    p[0] = 200;
    p[1] = 1;
    p[2] = 255;
    let out = scale_rgb(&p, 100);
    assert_eq!(&out[0..3], &[78, 0, 100]);
    assert_eq!(scale_rgb(&p, 0), DARK);
    assert_eq!(scale_rgb(&p, 255), p);
}

#[test]
fn brightness_steps_saturate_and_undo() {
    let mut player = Player::new();
    assert_eq!(player.brightness(), 255);
    player.brighter();
    assert_eq!(player.brightness(), 255);
    player.dimmer();
    assert_eq!(player.brightness(), 239);
    player.brighter();
    assert_eq!(player.brightness(), 255);
    for _ in 0..15 {
        player.dimmer();
    }
    assert_eq!(player.brightness(), 15);
    player.dimmer();
    assert_eq!(player.brightness(), 0);
    player.brighter();
    assert_eq!(player.brightness(), 16);
}

#[test]
fn transforms_only_program_never_emits() {
    let catalog = catalog_with(&[("seed", WHITE)]);
    let cue = show(true, vec![Op::LoadWorking { frame: "seed".to_owned() }, Op::Rotate13]);
    let mut player = Player::new();
    let err = player.start(&cue, &catalog, T0).unwrap_err();
    assert_eq!(err, PlayerError::NeverEmits { show: "Test".to_owned() });
    assert_eq!(err.message(), "show 'Test' never emits a packet (program is only transforms?)");
}

#[test]
fn unknown_frame_and_wait_fail_the_show() {
    let catalog = catalog_with(&[("white", WHITE)]);
    let mut player = Player::new();
    let err = player.start(&show(false, vec![hold("gone", Wait::Ms(5))]), &catalog, T0).unwrap_err();
    assert_eq!(err.message(), "unknown frame `gone`");
    let err = player
        .start(&show(false, vec![hold("white", Wait::Named("later".to_owned()))]), &catalog, T0)
        .unwrap_err();
    assert_eq!(err, PlayerError::UnknownWait { name: "later".to_owned() });
    assert_eq!(err.message(), "unknown wait name `later`");
}

#[test]
fn empty_program_finishes_at_once() {
    let catalog = catalog_with(&[]);
    let mut player = Player::new();
    assert!(player.start(&show(true, vec![]), &catalog, T0).unwrap().is_none());
    assert!(!player.is_running());
    assert_eq!(player.show_name(), "IDLE");
    assert_eq!(player.deadline(), None);
}

#[test]
fn looping_show_keeps_emitting_and_deadlines_follow_now() {
    let catalog = catalog_with(&[("white", WHITE), ("dark", DARK)]);
    let cue = show(true, vec![hold("white", Wait::Ms(10)), hold("dark", Wait::Named("DAB".to_owned()))]);
    let mut player = Player::new();
    let mut now = T0;
    let mut step = player.start(&cue, &catalog, now).unwrap().expect("first");
    for i in 0..10 {
        assert_eq!(player.deadline(), Some(step.deadline));
        assert_eq!(step.deadline, now + if i % 2 == 0 { 10 } else { 50 });
        assert_eq!(step.packet, if i % 2 == 0 { WHITE } else { DARK });
        now = step.deadline + 3;
        step = player.advance(&catalog, now).unwrap().expect("looping never stops");
    }
    assert!(player.is_running());
    assert_eq!(player.show_name(), "Test");
}

#[test]
fn deadline_saturates_at_the_end_of_time() {
    let catalog = catalog_with(&[("white", WHITE)]);
    let mut player = Player::new();
    let step = player
        .start(&show(false, vec![hold("white", Wait::Ms(u64::MAX))]), &catalog, T0)
        .unwrap()
        .expect("held");
    assert_eq!(step.deadline, u64::MAX);
}

#[test]
fn start_forgets_the_previous_show() {
    let catalog = catalog_with(&[("white", WHITE), ("seed", WHITE)]);
    let spin = show(true, vec![Op::LoadWorking { frame: "seed".to_owned() }, Op::MarqueeLeft, Op::HoldWorking { wait: Wait::Ms(7) }]);
    let flash = show(false, vec![hold("white", Wait::Ms(3))]);
    let mut used = Player::new();
    let _ = used.start(&spin, &catalog, T0).unwrap();
    let _ = used.advance(&catalog, T0 + 7).unwrap();
    let mut fresh = Player::new();
    let a = used.start(&flash, &catalog, T0 + 100).unwrap();
    let b = fresh.start(&flash, &catalog, T0 + 100).unwrap();
    assert_eq!(a, b);
    assert_eq!(used.is_looping(), fresh.is_looping());
    assert_eq!(used.deadline(), fresh.deadline());
}
