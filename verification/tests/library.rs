use tinyconnect::audio::{endpoint_display_name, AudioEndpoint, VOLUME_STEP_PERCENT};
use tinyconnect::keys::{KeyCode, KeyEvent, KeyEventKind, KeyModifiers};
use tinyconnect::naming::{
    advertised_device_name, computer_name_from_buffer, host_name_from_decoded,
};
use tinyconnect::player::{artist_name, join_strings, AudioItem, PlayerEvent, UniqueFields};
use tinyconnect::text::{animated_bars, format_time, push_decimal};
use tinyconnect::ui::{
    apply_player_event, apply_volume_result, handle_key, on_connect_result,
    on_connect_selected, on_tick, KeyAction, UiState,
};

fn press(code: KeyCode) -> KeyEvent {
    KeyEvent::new_with_kind(code, KeyModifiers::none(), KeyEventKind::Press)
}

fn utf16_buffer(text: &str) -> (Vec<u16>, u32) {
    let mut buffer = vec![0u16; 256];
    let units: Vec<u16> = text.encode_utf16().collect();
    buffer[..units.len()].copy_from_slice(&units);
    (buffer, units.len() as u32)
}

#[test]
fn clock_text_pads_minutes_and_seconds() {
    assert_eq!(format_time(0), "00:00");
    assert_eq!(format_time(999), "00:00");
    assert_eq!(format_time(59_999), "00:59");
    assert_eq!(format_time(65_000), "01:05");
    assert_eq!(format_time(600_000), "10:00");
    assert_eq!(format_time(6_000_000), "100:00");
    assert_eq!(format_time(u32::MAX), "71582:47");
}

#[test]
fn clock_text_reads_back_to_whole_seconds() {
    for ms in [0u32, 1_000, 61_500, 3_599_999, 6_000_000, u32::MAX] {
        let text = format_time(ms);
        let (minutes, seconds) = text.split_at(text.len() - 3);
        assert_eq!(&seconds[..1], ":");
        let minutes: u32 = minutes.parse().unwrap();
        let seconds: u32 = seconds[1..].parse().unwrap();
        assert!(seconds < 60);
        assert_eq!(minutes * 60 + seconds, ms / 1000);
    }
}

#[test]
fn decimal_text_has_no_leading_zeros() {
    let mut out = String::from("v=");
    push_decimal(&mut out, 0);
    assert_eq!(out, "v=0");
    let mut out = String::new();
    push_decimal(&mut out, 4_294_967_295);
    assert_eq!(out, "4294967295");
}

#[test]
fn signal_bars_cycle_through_the_glyphs() {
    let bars = animated_bars(0);
    assert_eq!(bars.chars().count(), 34);
    assert!(bars.starts_with("\u{2581}\u{2582}\u{2583}\u{2584}\u{2585}\u{2586}\u{2587}\u{2588}\u{2581}"));
    assert!(animated_bars(1).starts_with("\u{2582}"));
    assert!(animated_bars(usize::MAX).starts_with("\u{2588}\u{2581}"));
}

#[test]
fn signal_bars_shift_by_one_per_phase_and_repeat_after_eight() {
    for phase in [0usize, 3, 7, 100, usize::MAX - 8] {
        let now: Vec<char> = animated_bars(phase).chars().collect();
        let next: Vec<char> = animated_bars(phase + 1).chars().collect();
        assert_eq!(&next[..33], &now[1..]);
        assert_eq!(animated_bars(phase + 8), animated_bars(phase));
    }
}

#[test]
fn advertised_name_trims_unicode_white_space_and_ignores_ascii_case() {
    assert_eq!(advertised_device_name(Some("\u{3000}HOST\t")), "TinyConnect (HOST)");
    assert_eq!(advertised_device_name(Some(" tinyconnect ")), "TinyConnect");
    assert_eq!(advertised_device_name(Some("TINYCONNECT")), "TinyConnect");
    assert_eq!(advertised_device_name(Some("TinyConnectX")), "TinyConnect (TinyConnectX)");
}

#[test]
fn distinct_hosts_are_advertised_under_distinct_names() {
    let a = advertised_device_name(Some("PC-1"));
    let b = advertised_device_name(Some("PC-2"));
    assert_ne!(a, b);
    assert_ne!(a, "TinyConnect");
    assert!(a.starts_with("TinyConnect"));
}

#[test]
fn computer_name_is_decoded_and_trimmed() {
    let (buffer, length) = utf16_buffer("  DESKTOP-1 ");
    assert_eq!(computer_name_from_buffer(&buffer, length), Some(String::from("DESKTOP-1")));
    let (buffer, length) = utf16_buffer("PC-\u{1F600}");
    assert_eq!(computer_name_from_buffer(&buffer, length), Some(String::from("PC-\u{1F600}")));
}

#[test]
fn computer_name_is_absent_for_bad_lengths_blank_or_invalid_text() {
    let (buffer, _) = utf16_buffer("HOST");
    assert_eq!(computer_name_from_buffer(&buffer, 0), None);
    assert_eq!(computer_name_from_buffer(&buffer, 257), None);
    let (buffer, length) = utf16_buffer("   ");
    assert_eq!(computer_name_from_buffer(&buffer, length), None);
    let mut buffer = vec![0u16; 4];
    buffer[0] = 0x0048;
    buffer[1] = 0xD800;
    assert_eq!(computer_name_from_buffer(&buffer, 2), None);
    assert_eq!(computer_name_from_buffer(&buffer, 1), Some(String::from("H")));
}

#[test]
fn decoded_host_name_is_trimmed() {
    assert_eq!(host_name_from_decoded(Some(String::from(" x\n"))), Some(String::from("x")));
    assert_eq!(host_name_from_decoded(Some(String::from("\u{a0}"))), None);
    assert_eq!(host_name_from_decoded(None), None);
}

#[test]
fn endpoint_names_fall_back_when_blank() {
    assert_eq!(endpoint_display_name(String::new()), "Windows default render endpoint");
    let endpoint = AudioEndpoint::new(String::from("{0.0.0}"), String::from("Speakers"));
    assert_eq!(endpoint.name(), "Speakers");
    assert_eq!(endpoint.device_id(), "{0.0.0}");
    let endpoint = AudioEndpoint::new(String::from("{0.0.1}"), String::new());
    assert_eq!(endpoint.name(), "Windows default render endpoint");
    assert_eq!(VOLUME_STEP_PERCENT, 5);
}

#[test]
fn artist_line_for_each_kind_of_item() {
    let track = AudioItem {
        name: String::from("Song"),
        duration_ms: 1,
        unique_fields: UniqueFields::Track {
            artists: vec![String::from("A"), String::from("B"), String::from("C")],
        },
    };
    assert_eq!(artist_name(&track), "A, B, C");
    let episode = AudioItem {
        name: String::from("Ep"),
        duration_ms: 1,
        unique_fields: UniqueFields::Episode { show_name: String::from("Show") },
    };
    assert_eq!(artist_name(&episode), "Show");
    let local = AudioItem {
        name: String::from("File"),
        duration_ms: 1,
        unique_fields: UniqueFields::Local { artists: None },
    };
    assert_eq!(artist_name(&local), "Local audio");
    let tagged = AudioItem {
        name: String::from("File"),
        duration_ms: 1,
        unique_fields: UniqueFields::Local { artists: Some(String::from("Tagged")) },
    };
    assert_eq!(artist_name(&tagged), "Tagged");
    assert_eq!(join_strings(&vec![], ", "), "");
    assert_eq!(join_strings(&vec![String::from("Solo")], ", "), "Solo");
}

#[test]
fn initial_screen() {
    let ui = UiState::default();
    assert_eq!(ui.device_name, "TinyConnect");
    assert_eq!(ui.track, "Waiting for a Spotify Connect selection");
    assert_eq!(ui.artist, "Select TinyConnect from a Spotify client");
    assert_eq!(ui.connection, "Advertising");
    assert_eq!(ui.output, "Resolving Windows output...");
    assert_eq!(ui.status, "No credentials or audio cache are stored");
    assert_eq!((ui.position_ms, ui.duration_ms, ui.volume_percent, ui.bars_phase), (0, 0, 0, 0));
    assert!(!ui.playing);

    let ui = UiState::with_audio(String::from("TinyConnect (PC)"), String::from("Speakers"), 30);
    assert_eq!(ui.device_name, "TinyConnect (PC)");
    assert_eq!(ui.output, "Speakers");
    assert_eq!(ui.volume_percent, 30);
    assert_eq!(ui.connection, "Advertising");
}

#[test]
fn screen_lines() {
    let mut ui = UiState::default();
    assert_eq!(ui.playback_line(), "Paused  00:00 / 00:00");
    ui.playing = true;
    ui.position_ms = 65_000;
    ui.duration_ms = 200_000;
    ui.volume_percent = 100;
    assert_eq!(ui.playback_line(), "Playing  01:05 / 03:20");
    assert_eq!(
        ui.runtime_lines(),
        vec![
            String::from("Connection: Advertising"),
            String::from("Output: Resolving Windows output..."),
            String::from("Volume: 100%"),
            String::from("Status: No credentials or audio cache are stored"),
        ]
    );
}

#[test]
fn player_events_update_the_screen() {
    let mut ui = UiState::default();
    ui.position_ms = 9;
    apply_player_event(
        &mut ui,
        PlayerEvent::TrackChanged {
            audio_item: AudioItem {
                name: String::from("Song"),
                duration_ms: 180_000,
                unique_fields: UniqueFields::Track { artists: vec![String::from("A")] },
            },
        },
    );
    assert_eq!(ui.track, "Song");
    assert_eq!(ui.artist, "A");
    assert_eq!(ui.duration_ms, 180_000);
    assert_eq!(ui.position_ms, 0);
    assert_eq!(ui.status, "Track metadata received");

    apply_player_event(&mut ui, PlayerEvent::Playing { position_ms: 1_500 });
    assert!(ui.playing);
    assert_eq!(ui.position_ms, 1_500);
    assert_eq!(ui.connection, "Connected");
    assert_eq!(ui.status, "Playing");

    apply_player_event(&mut ui, PlayerEvent::Seeked { position_ms: 2_000 });
    assert_eq!(ui.position_ms, 2_000);
    apply_player_event(&mut ui, PlayerEvent::PositionCorrection { position_ms: 2_100 });
    assert_eq!(ui.position_ms, 2_100);
    apply_player_event(&mut ui, PlayerEvent::PositionChanged { position_ms: 2_200 });
    assert_eq!(ui.position_ms, 2_200);

    apply_player_event(&mut ui, PlayerEvent::Paused { position_ms: 3_000 });
    assert!(!ui.playing);
    assert_eq!(ui.status, "Paused");
    assert_eq!(ui.position_ms, 3_000);

    apply_player_event(&mut ui, PlayerEvent::Loading);
    assert_eq!(ui.status, "Loading track");
    apply_player_event(&mut ui, PlayerEvent::Playing { position_ms: 0 });
    apply_player_event(&mut ui, PlayerEvent::Stopped);
    assert!(!ui.playing);
    assert_eq!(ui.status, "Stopped");

    apply_player_event(&mut ui, PlayerEvent::Playing { position_ms: 0 });
    apply_player_event(&mut ui, PlayerEvent::SessionDisconnected);
    assert!(!ui.playing);
    assert_eq!(ui.connection, "Reconnecting");
    apply_player_event(&mut ui, PlayerEvent::SessionConnected);
    assert_eq!(ui.connection, "Connected");

    apply_player_event(&mut ui, PlayerEvent::Other);
    assert_eq!(ui.status, "Playing");
    assert_eq!(ui.device_name, "TinyConnect");
}

#[test]
fn keys_ask_for_actions() {
    let mut ui = UiState::default();
    assert_eq!(handle_key(&press(KeyCode::Left), &mut ui, false), KeyAction::Ignore);
    assert_eq!(ui.status, "No credentials or audio cache are stored");
    assert_eq!(handle_key(&press(KeyCode::Char(' ')), &mut ui, false), KeyAction::Ignore);
    assert_eq!(handle_key(&press(KeyCode::Right), &mut ui, false), KeyAction::Ignore);
    assert_eq!(ui.status, "No credentials or audio cache are stored");

    assert_eq!(handle_key(&press(KeyCode::Left), &mut ui, true), KeyAction::Previous);
    assert_eq!(ui.status, "Previous requested");
    assert_eq!(handle_key(&press(KeyCode::Char(' ')), &mut ui, true), KeyAction::PlayPause);
    assert_eq!(ui.status, "Play/pause requested");
    assert_eq!(handle_key(&press(KeyCode::Right), &mut ui, true), KeyAction::Next);
    assert_eq!(ui.status, "Next requested");

    assert_eq!(handle_key(&press(KeyCode::Up), &mut ui, false), KeyAction::AdjustVolume(5));
    assert_eq!(handle_key(&press(KeyCode::Down), &mut ui, true), KeyAction::AdjustVolume(-5));
    assert_eq!(handle_key(&press(KeyCode::Char('q')), &mut ui, true), KeyAction::Quit);
    assert_eq!(handle_key(&press(KeyCode::Char('Q')), &mut ui, false), KeyAction::Quit);
    assert_eq!(handle_key(&press(KeyCode::Char('x')), &mut ui, true), KeyAction::Ignore);
    assert_eq!(handle_key(&press(KeyCode::Other), &mut ui, true), KeyAction::Ignore);
    assert_eq!(ui.status, "Next requested");

    let held = KeyEvent::new_with_kind(KeyCode::Left, KeyModifiers::none(), KeyEventKind::Repeat);
    assert_eq!(handle_key(&held, &mut ui, true), KeyAction::Ignore);
    let released =
        KeyEvent::new_with_kind(KeyCode::Char('q'), KeyModifiers::none(), KeyEventKind::Release);
    assert_eq!(handle_key(&released, &mut ui, true), KeyAction::Ignore);
    assert_eq!(ui.status, "Next requested");
    let ctrl_c =
        KeyEvent::new_with_kind(KeyCode::Char('c'), KeyModifiers::with_control(), KeyEventKind::Press);
    assert_eq!(handle_key(&ctrl_c, &mut ui, false), KeyAction::Quit);
}

#[test]
fn volume_results_update_the_screen() {
    let mut ui = UiState::default();
    apply_volume_result(&mut ui, 5, Ok(42));
    assert_eq!(ui.volume_percent, 42);
    assert_eq!(ui.status, "Windows volume increased");
    apply_volume_result(&mut ui, -5, Ok(37));
    assert_eq!(ui.volume_percent, 37);
    assert_eq!(ui.status, "Windows volume decreased");
    apply_volume_result(&mut ui, 5, Err(String::from("access denied")));
    assert_eq!(ui.volume_percent, 37);
    assert_eq!(ui.status, "Windows volume change failed: access denied");
}

#[test]
fn ticks_animate_and_refresh_the_volume() {
    let mut ui = UiState::default();
    for expected in [1usize, 2, 3, 4, 5, 6, 7, 0] {
        on_tick(&mut ui, None);
        assert_eq!(ui.bars_phase, expected);
    }
    on_tick(&mut ui, Some(55));
    assert_eq!(ui.volume_percent, 55);
    on_tick(&mut ui, None);
    assert_eq!(ui.volume_percent, 55);
    ui.bars_phase = usize::MAX;
    on_tick(&mut ui, None);
    assert_eq!(ui.bars_phase, 0);
}

#[test]
fn connecting_updates_the_screen() {
    let mut ui = UiState::default();
    assert!(!on_connect_selected(&mut ui, true));
    assert_eq!(ui.status, "No credentials or audio cache are stored");
    assert!(on_connect_selected(&mut ui, false));
    assert_eq!(ui.status, "Connect selected; establishing session");
    on_connect_result(&mut ui, Ok(()));
    assert_eq!(ui.connection, "Connected");
    assert_eq!(ui.status, "Session ready");
    on_connect_result(&mut ui, Err(String::from("bad credentials")));
    assert_eq!(ui.connection, "Disconnected");
    assert_eq!(ui.status, "Connect failed: bad credentials");
}

#[test]
fn session_slot_fills_once_and_later_selections_are_ignored() {
    let mut ui = UiState::default();
    let mut connected = false;
    let select = |ui: &mut UiState, connected: &mut bool, outcome: Result<(), String>| {
        if on_connect_selected(ui, *connected) {
            let established = outcome.is_ok();
            on_connect_result(ui, outcome);
            *connected = established;
        }
    };

    select(&mut ui, &mut connected, Err(String::from("timeout")));
    assert!(!connected);
    assert_eq!(ui.connection, "Disconnected");
    assert_eq!(ui.status, "Connect failed: timeout");

    on_tick(&mut ui, None);
    select(&mut ui, &mut connected, Ok(()));
    assert!(connected);
    assert_eq!(ui.status, "Session ready");

    select(&mut ui, &mut connected, Err(String::from("ignored")));
    assert!(connected);
    assert_eq!(ui.connection, "Connected");
    assert_eq!(ui.status, "Session ready");
    assert!(ui.bars_phase < 8);
}
