use tinyconnect::keys::{
    is_actionable_key_event, is_quit_key, volume_delta_for_key, KeyCode, KeyEvent, KeyEventKind,
    KeyModifiers,
};
use tinyconnect::launch::{has_inner_launch_argument, INNER_LAUNCH_ARGUMENT};
use tinyconnect::naming::{advertised_device_name, DEVICE_NAME_PREFIX};

#[test]
fn controls_accept_only_initial_key_presses() {
    let press = KeyEvent::new_with_kind(KeyCode::Char(' '), KeyModifiers::none(), KeyEventKind::Press);
    let repeat =
        KeyEvent::new_with_kind(KeyCode::Char(' '), KeyModifiers::none(), KeyEventKind::Repeat);
    let release = KeyEvent::new_with_kind(
        KeyCode::Char(' '),
        KeyModifiers::none(),
        KeyEventKind::Release,
    );

    assert!(is_actionable_key_event(&press));
    assert!(!is_actionable_key_event(&repeat));
    assert!(!is_actionable_key_event(&release));
}

#[test]
fn advertised_name_uses_the_host_without_duplicate_product_prefix() {
    let name = advertised_device_name(Some("HOST-A"));

    assert_eq!(name, "TinyConnect (HOST-A)");
    assert_eq!(name.matches(DEVICE_NAME_PREFIX).count(), 1);
}

#[test]
fn advertised_name_falls_back_for_missing_or_product_only_host_names() {
    assert_eq!(advertised_device_name(None), DEVICE_NAME_PREFIX);
    assert_eq!(advertised_device_name(Some("")), DEVICE_NAME_PREFIX);
    assert_eq!(advertised_device_name(Some("  ")), DEVICE_NAME_PREFIX);
    assert_eq!(
        advertised_device_name(Some(" TinyConnect ")),
        DEVICE_NAME_PREFIX
    );
}

#[test]
fn only_the_private_inner_marker_changes_launch_mode() {
    assert!(!has_inner_launch_argument(&[String::from("tinyconnect.exe")]));
    assert!(has_inner_launch_argument(&[
        String::from("tinyconnect.exe"),
        String::from(INNER_LAUNCH_ARGUMENT),
    ]));
    assert!(!has_inner_launch_argument(&[
        String::from("tinyconnect.exe"),
        String::from("--inner-mostly"),
    ]));
}

#[test]
fn ctrl_c_quits_cleanly() {
    let ctrl_c = KeyEvent::new_with_kind(
        KeyCode::Char('c'),
        KeyModifiers::with_control(),
        KeyEventKind::Press,
    );
    assert!(is_actionable_key_event(&ctrl_c));
    assert!(is_quit_key(&ctrl_c));

    let plain_c = KeyEvent::new_with_kind(
        KeyCode::Char('c'),
        KeyModifiers::none(),
        KeyEventKind::Press,
    );
    assert!(is_actionable_key_event(&plain_c));
    assert!(!is_quit_key(&plain_c));
}

#[test]
fn volume_keys_map_to_single_five_percent_steps() {
    assert_eq!(volume_delta_for_key(KeyCode::Up), Some(5));
    assert_eq!(volume_delta_for_key(KeyCode::Down), Some(-5));
    assert_eq!(volume_delta_for_key(KeyCode::Left), None);
}

#[test]
fn connect_starts_at_max_volume_with_remote_control_enabled() {
    let config = tinyconnect::connect::tinyconnect_connect_config();

    assert_eq!(config.initial_volume, u16::MAX);
    assert!(!config.disable_volume);
}
