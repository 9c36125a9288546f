use band_lighthshow::patterns::PACKET_LEN;
use band_lighthshow::term::{get_categories, LoopStatus, UiState};

#[test]
fn test_default_ui_state() {
    let state = UiState::default();
    assert_eq!(state.current_routine, "IDLE");
    assert_eq!(state.loop_status, LoopStatus::Idle);
    assert_eq!(state.packet_count, 0);
    assert!(!state.is_error);
    assert!(state.device_connected);
}

#[test]
fn test_categories_and_commands() {
    let categories = get_categories();
    assert_eq!(categories.len(), 4);
    assert_eq!(categories[0].title, "Flashes & Solids");
    assert_eq!(categories[1].title, "Twinkles & Sparkles");
    assert_eq!(categories[2].title, "Animations & Marquees");
    assert_eq!(categories[3].title, "Holiday & Specials");

    let total_commands: usize = categories.iter().map(|c| c.commands.len()).sum();
    assert!(total_commands >= 25);
}

#[test]
fn test_ui_state_initialization() {
    let state = UiState::default();
    assert_eq!(state.current_routine, "IDLE");
    assert_eq!(state.loop_status, LoopStatus::Idle);
    assert_eq!(state.last_key, None);
    assert_eq!(state.packet_count, 0);
    assert_eq!(state.last_packet, [0u8; PACKET_LEN]);
    assert_eq!(state.is_error, false);
}

#[test]
fn command_reference_entries() {
    let categories = get_categories();
    let counts: Vec<usize> = categories.iter().map(|c| c.commands.len()).collect();
    assert_eq!(counts, vec![11, 9, 6, 6]);
    let first = &categories[0].commands[0];
    assert_eq!((first.key, first.name, first.desc), ('r', "Red Flash", "Solid red pulse"));
    let last = &categories[3].commands[5];
    assert_eq!((last.key, last.name, last.desc), ('t', "Test RGB", "RGB channel test loop"));
    let state = UiState::default();
    assert_eq!(state.status_message.as_deref(), Some("System Ready - Listening for commands"));
    assert!(!state.simulated);
}

use band_lighthshow::patterns::DARK;
use band_lighthshow::term::{channel_color, connection_badge, key_label, loop_badge, status_line};

#[test]
fn dashboard_badges_and_labels() {
    let mut state = UiState::default();
    assert_eq!(connection_badge(&state), "\u{25cf} ONLINE");
    state.device_connected = false;
    assert_eq!(connection_badge(&state), "\u{25cb} OFFLINE");
    state.simulated = true;
    assert_eq!(connection_badge(&state), "\u{25c6} SIMULATED");
    assert_eq!(loop_badge(LoopStatus::Idle), "[IDLE]");
    assert_eq!(loop_badge(LoopStatus::Looping), "[LOOPING]");
    assert_eq!(key_label(Some('c')), "'c'");
    assert_eq!(key_label(None), "None");
}

#[test]
fn dashboard_channels_and_message_line() {
    let mut state = UiState::default();
    state.last_packet = DARK;
    state.last_packet[0] = 255;
    assert_eq!(channel_color(&state.last_packet, 0), Some((255, 0, 0)));
    assert_eq!(channel_color(&state.last_packet, 1), None);
    state.last_packet[95] = 7;
    assert_eq!(channel_color(&state.last_packet, 31), Some((0, 0, 7)));

    assert_eq!(status_line(&state), (false, "System Ready - Listening for commands".to_owned()));
    state.is_error = true;
    state.status_message = Some("USB timeout writing endpoint".to_owned());
    assert_eq!(status_line(&state), (true, "USB timeout writing endpoint".to_owned()));
    state.status_message = None;
    assert_eq!(status_line(&state), (true, "Hardware Error".to_owned()));
    state.is_error = false;
    assert_eq!(status_line(&state), (false, "System Idle".to_owned()));
}
