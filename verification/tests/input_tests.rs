use sisr::input::{
    handle_output, needs_gamepad_state, should_handle_chord, triggers_redraw_burst, ui_action_for,
    ButtonOutcome, GamepadButton, Handler, SdlEventKind, DEBOUNCE_NANOS,
};
use sisr::joystick_update::Handler as JoystickUpdateHandler;
use sisr::window::UiControllerAction;

const MS: u64 = 1_000_000;

#[test]
fn buttons_map_to_navigation() {
    assert_eq!(ui_action_for(GamepadButton::DPadDown), Some(UiControllerAction::Next));
    assert_eq!(ui_action_for(GamepadButton::DPadRight), Some(UiControllerAction::Next));
    assert_eq!(ui_action_for(GamepadButton::DPadUp), Some(UiControllerAction::Previous));
    assert_eq!(ui_action_for(GamepadButton::DPadLeft), Some(UiControllerAction::Previous));
    assert_eq!(ui_action_for(GamepadButton::South), Some(UiControllerAction::Activate));
    assert_eq!(ui_action_for(GamepadButton::East), Some(UiControllerAction::Back));
    assert_eq!(ui_action_for(GamepadButton::North), None);
    assert_eq!(ui_action_for(GamepadButton::Guide), None);
}

#[test]
fn guide_triggers_redraw_and_only_nav_or_north_needs_pad_state() {
    assert!(triggers_redraw_burst(GamepadButton::Guide));
    assert!(!triggers_redraw_burst(GamepadButton::South));
    assert!(needs_gamepad_state(GamepadButton::North));
    assert!(needs_gamepad_state(GamepadButton::DPadUp));
    assert!(!needs_gamepad_state(GamepadButton::West));
}

#[test]
fn debounce_allows_once_per_window() {
    let mut last = None;
    assert!(should_handle_chord(&mut last, 1000 * MS));
    assert_eq!(last, Some(1000 * MS));
    assert!(!should_handle_chord(&mut last, 1100 * MS));
    assert_eq!(last, Some(1000 * MS));
    assert!(should_handle_chord(&mut last, 1000 * MS + DEBOUNCE_NANOS));
    assert_eq!(last, Some(1200 * MS));
    // a clock reading before the last one counts as no time passed
    assert!(!should_handle_chord(&mut last, 10 * MS));
}

#[test]
fn chord_with_south_toggles_ui_once() {
    let mut h = Handler::new();
    assert_eq!(h.on_button_down(GamepadButton::South, true, 5000 * MS), ButtonOutcome::ToggleUi);
    assert_eq!(h.on_button_down(GamepadButton::South, true, 5100 * MS), ButtonOutcome::Nothing);
    assert_eq!(h.last_ui_toggle_time, Some(5000 * MS));
    assert_eq!(h.on_button_down(GamepadButton::South, true, 5300 * MS), ButtonOutcome::ToggleUi);
}

#[test]
fn chord_with_north_toggles_desktop_config() {
    let mut h = Handler::new();
    assert_eq!(h.on_button_down(GamepadButton::North, true, 0), ButtonOutcome::ToggleDesktopConfig);
    assert_eq!(h.last_desktop_config_toggle_time, Some(0));
    assert_eq!(h.last_ui_toggle_time, None);
}

#[test]
fn chord_with_other_buttons_does_nothing() {
    let mut h = Handler::new();
    assert_eq!(h.on_button_down(GamepadButton::DPadUp, true, 0), ButtonOutcome::Nothing);
    assert_eq!(h.on_button_down(GamepadButton::West, true, 0), ButtonOutcome::Nothing);
    assert_eq!(h.last_ui_action_time, None);
}

#[test]
fn navigation_without_chord_is_debounced() {
    let mut h = Handler::new();
    assert_eq!(h.on_button_down(GamepadButton::East, false, 0), ButtonOutcome::UiAction(UiControllerAction::Back));
    assert_eq!(h.on_button_down(GamepadButton::DPadDown, false, 50 * MS), ButtonOutcome::Nothing);
    assert_eq!(
        h.on_button_down(GamepadButton::DPadDown, false, 250 * MS),
        ButtonOutcome::UiAction(UiControllerAction::Next)
    );
    assert_eq!(h.on_button_down(GamepadButton::North, false, 900 * MS), ButtonOutcome::Nothing);
}

#[test]
fn listens_to_every_button_down() {
    let h = Handler::new();
    assert_eq!(h.listen_events(), vec![SdlEventKind::ControllerButtonDown; 7]);
}

#[test]
fn joystick_update_handler_listens_and_ignores() {
    let h = JoystickUpdateHandler {};
    h.handle_event();
    assert_eq!(h.listen_events(), vec![SdlEventKind::JoystickUpdateComplete]);
    handle_output(&1, &0b101);
}

