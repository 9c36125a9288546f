use band_lighthshow::catalog::{Catalog, Op, Show, Wait};
use band_lighthshow::patterns::{Packet, DARK, WHITE};
use band_lighthshow::runtime::{KeyCmd, SeqOutcome, Sequencer, UsbReport};
use band_lighthshow::term::{LoopStatus, UiState};

fn looping_white() -> (Catalog, Show) {
    let show = Show {
        key: 'w',
        name: "White Loop".to_owned(),
        category: "Flashes & Solids".to_owned(),
        desc: String::new(),
        looping: true,
        program: vec![Op::Hold { frame: "white".to_owned(), wait: Wait::Ms(10_000) }],
    };
    let frames: Vec<(String, Packet)> = vec![("white".to_owned(), WHITE), ("dark".to_owned(), DARK)];
    let catalog = Catalog::new(frames, vec![show.clone()]).expect("catalog");
    (catalog, show)
}

const T0: u64 = 5_000;

#[test]
fn comma_stops_immediately() {
    let (catalog, _) = looping_white();
    let mut seq = Sequencer::new(catalog, true, UiState::default());
    let t0 = T0;
    let (outcome, packet) = seq.on_key(KeyCmd::Char('w'), t0);
    assert_eq!(outcome, SeqOutcome::Continue);
    assert_eq!(packet, Some(WHITE));
    assert_eq!(seq.snapshot().current_routine, "White Loop");

    let (outcome, packet) = seq.on_key(KeyCmd::Char(','), t0);
    assert_eq!(outcome, SeqOutcome::Continue);
    assert_eq!(packet, Some(DARK));
    let snap = seq.snapshot();
    assert_eq!(snap.current_routine, "IDLE");
    assert_eq!(snap.loop_status, LoopStatus::Idle);
    assert!(seq.deadline().is_none());
}

#[test]
fn period_quits_without_waiting() {
    let (catalog, _) = looping_white();
    let mut seq = Sequencer::new(catalog, true, UiState::default());
    let t0 = T0;
    let _ = seq.on_key(KeyCmd::Char('w'), t0);
    let (outcome, packet) = seq.on_key(KeyCmd::Char('.'), t0);
    assert_eq!(outcome, SeqOutcome::Quit);
    assert!(packet.is_none());
    assert_eq!(seq.snapshot().current_routine, "IDLE");
}

#[test]
fn unknown_key_is_ignored() {
    let (catalog, _) = looping_white();
    let mut seq = Sequencer::new(catalog, false, UiState::default());
    let (outcome, packet) = seq.on_key(KeyCmd::Char('z'), T0);
    assert_eq!(outcome, SeqOutcome::Continue);
    assert!(packet.is_none());
    assert_eq!(seq.snapshot().current_routine, "IDLE");
}

#[test]
fn playing_a_show_updates_the_dashboard_and_counts_packets() {
    let (catalog, _) = looping_white();
    let mut seq = Sequencer::new(catalog, true, UiState::default());
    let (_, packet) = seq.on_key(KeyCmd::Char('w'), T0);
    assert_eq!(packet, Some(WHITE));
    let snap = seq.snapshot();
    assert_eq!(snap.loop_status, LoopStatus::Looping);
    assert_eq!(snap.status_message.as_deref(), Some("Playing White Loop"));
    assert_eq!(snap.packet_count, 1);
    assert_eq!(snap.last_packet, WHITE);
    assert_eq!(snap.last_key, Some('w'));
    assert_eq!(seq.deadline(), Some(T0 + 10_000));

    // before the deadline a tick does nothing
    assert_eq!(seq.on_tick(T0 + 9_999), None);
    assert_eq!(seq.snapshot().packet_count, 1);
    // at the deadline the loop sends again
    assert_eq!(seq.on_tick(T0 + 10_000), Some(WHITE));
    assert_eq!(seq.snapshot().packet_count, 2);
    assert_eq!(seq.deadline(), Some(T0 + 20_000));

    let (_, packet) = seq.on_key(KeyCmd::Char(','), T0);
    assert_eq!(packet, Some(DARK));
    let snap = seq.snapshot();
    assert_eq!(snap.packet_count, 3);
    assert_eq!(snap.last_packet, DARK);
    assert_eq!(snap.status_message.as_deref(), Some("Stopped"));
}

#[test]
fn brightness_keys_report_the_level() {
    let (catalog, _) = looping_white();
    let mut seq = Sequencer::new(catalog, true, UiState::default());
    let (outcome, packet) = seq.on_key(KeyCmd::Char('<'), T0);
    assert_eq!((outcome, packet), (SeqOutcome::Continue, None));
    assert_eq!(seq.snapshot().status_message.as_deref(), Some("Brightness 239"));
    let _ = seq.on_key(KeyCmd::Char('>'), T0);
    let _ = seq.on_key(KeyCmd::Char('>'), T0);
    assert_eq!(seq.snapshot().status_message.as_deref(), Some("Brightness 255"));
    assert_eq!(seq.snapshot().last_key, Some('>'));
    for _ in 0..20 {
        let _ = seq.on_key(KeyCmd::Char('<'), T0);
    }
    assert_eq!(seq.snapshot().status_message.as_deref(), Some("Brightness 0"));
    let (_, packet) = seq.on_key(KeyCmd::Char('w'), T0);
    assert_eq!(packet, Some(DARK));
}

#[test]
fn quit_chord_stops_and_resets_status() {
    let (catalog, _) = looping_white();
    let mut seq = Sequencer::new(catalog, true, UiState::default());
    let _ = seq.on_key(KeyCmd::Char('w'), T0);
    let (outcome, packet) = seq.on_key(KeyCmd::Quit, T0);
    assert_eq!((outcome, packet), (SeqOutcome::Quit, None));
    let snap = seq.snapshot();
    assert_eq!(snap.current_routine, "IDLE");
    assert_eq!(snap.status_message.as_deref(), Some("System Ready - Listening for commands"));
    assert_eq!(seq.deadline(), None);
}

#[test]
fn usb_reports_set_and_clear_errors() {
    let (catalog, _) = looping_white();
    let mut seq = Sequencer::new(catalog, true, UiState::default());
    seq.on_usb(UsbReport::Sent);
    assert!(!seq.snapshot().is_error);
    assert_eq!(seq.snapshot().status_message.as_deref(), Some("System Ready - Listening for commands"));
    seq.on_usb(UsbReport::Failed("USB timeout".to_owned()));
    assert!(seq.snapshot().is_error);
    assert_eq!(seq.snapshot().status_message.as_deref(), Some("USB timeout"));
    seq.on_usb(UsbReport::Sent);
    assert!(!seq.snapshot().is_error);
    assert_eq!(seq.snapshot().status_message.as_deref(), Some("USB recovered"));
}

#[test]
fn empty_catalog_and_device_flag_show_on_dashboard() {
    let seq = Sequencer::new(Catalog::new(vec![], vec![]).expect("empty"), false, UiState::default());
    let snap = seq.snapshot();
    assert!(!snap.device_connected);
    assert_eq!(snap.status_message.as_deref(), Some("No shows loaded \u{2014} idle"));
}

#[test]
fn failing_show_reports_its_error() {
    let show = Show {
        key: 'x',
        name: "Spin".to_owned(),
        category: String::new(),
        desc: String::new(),
        looping: true,
        program: vec![Op::Rotate13],
    };
    let catalog = Catalog::new(vec![], vec![show]).expect("catalog");
    let mut seq = Sequencer::new(catalog, true, UiState::default());
    let (outcome, packet) = seq.on_key(KeyCmd::Char('x'), T0);
    assert_eq!((outcome, packet), (SeqOutcome::Continue, None));
    let snap = seq.snapshot();
    assert!(snap.is_error);
    assert_eq!(
        snap.status_message.as_deref(),
        Some("show 'Spin' never emits a packet (program is only transforms?)")
    );
}

#[test]
fn one_shot_show_goes_idle_after_its_last_hold() {
    let show = Show {
        key: 'f',
        name: "Flash".to_owned(),
        category: String::new(),
        desc: String::new(),
        looping: false,
        program: vec![Op::Hold { frame: "white".to_owned(), wait: Wait::Ms(50) }],
    };
    let catalog = Catalog::new(vec![("white".to_owned(), WHITE)], vec![show]).expect("catalog");
    let mut seq = Sequencer::new(catalog, true, UiState::default());
    assert_eq!(seq.on_key(KeyCmd::Char('f'), T0).1, Some(WHITE));
    assert_eq!(seq.snapshot().loop_status, LoopStatus::Idle);
    assert_eq!(seq.on_tick(T0 + 50), None);
    let snap = seq.snapshot();
    assert_eq!(snap.current_routine, "IDLE");
    assert_eq!(snap.status_message.as_deref(), Some("Playing Flash"));
    assert_eq!(seq.deadline(), None);
}

use band_lighthshow::runtime::key_command;

#[test]
fn key_presses_map_to_commands() {
    assert_eq!(key_command(true, Some('c')), Some(KeyCmd::Quit));
    assert_eq!(key_command(false, Some('c')), Some(KeyCmd::Char('c')));
    assert_eq!(key_command(true, Some('x')), Some(KeyCmd::Char('x')));
    assert_eq!(key_command(false, None), None);
    assert_eq!(key_command(true, None), None);
}

#[test]
fn time_to_deadline_counts_down_to_zero() {
    let (catalog, _) = looping_white();
    let mut seq = Sequencer::new(catalog, true, UiState::default());
    assert_eq!(seq.time_to_deadline(T0), None);
    let _ = seq.on_key(KeyCmd::Char('w'), T0);
    assert_eq!(seq.time_to_deadline(T0), Some(10_000));
    assert_eq!(seq.time_to_deadline(T0 + 9_000), Some(1_000));
    assert_eq!(seq.time_to_deadline(T0 + 20_000), Some(0));
}
