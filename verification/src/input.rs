//! Controller input: the shortcuts a button press triggers (UI navigation,
//! the UI toggle chord, the desktop-config toggle chord), with the debounce
//! that keeps one press from acting twice, and the other small handlers.
use vstd::prelude::*;
use crate::window::UiControllerAction;

verus! {

/// The debounce window: a second action of the same kind within this many
/// nanoseconds of the last handled one is ignored (200 ms).
pub const DEBOUNCE_NANOS: u64 = 200_000_000;

/// A gamepad button, as the button-down handler tells them apart.
#[derive(Debug, Clone, Copy, PartialEq, Eq, Structural)]
pub enum GamepadButton {
    South,
    East,
    West,
    North,
    Back,
    Guide,
    Start,
    LeftStick,
    RightStick,
    LeftShoulder,
    RightShoulder,
    DPadUp,
    DPadDown,
    DPadLeft,
    DPadRight,
    /// Any other button.
    Other,
}

/// The kinds of SDL events that input handlers listen to.
#[derive(Debug, Clone, Copy, PartialEq, Eq, Structural)]
pub enum SdlEventKind {
    /// A controller button was pressed (any button).
    ControllerButtonDown,
    /// SDL finished updating the joysticks.
    JoystickUpdateComplete,
}

/// What a button press leads to.
#[derive(Debug, Clone, Copy, PartialEq, Eq, Structural)]
pub enum ButtonOutcome {
    Nothing,
    /// Toggle the UI (chord held, South pressed).
    ToggleUi,
    /// Toggle whether the Steam Input desktop layout is allowed (chord
    /// held, North pressed).
    ToggleDesktopConfig,
    /// Send a navigation action to the window.
    UiAction(UiControllerAction),
}

/// The navigation action of a button, if it has one.
pub open spec fn ui_action_of(b: GamepadButton) -> Option<UiControllerAction> {
    match b {
        GamepadButton::DPadDown | GamepadButton::DPadRight => Some(UiControllerAction::Next),
        GamepadButton::DPadUp | GamepadButton::DPadLeft => Some(UiControllerAction::Previous),
        GamepadButton::South => Some(UiControllerAction::Activate),
        GamepadButton::East => Some(UiControllerAction::Back),
        _ => None,
    }
}

/// An action last handled at `last` (nanoseconds on a monotonic clock) may
/// be handled again at `now`: it never was, or 200 ms have passed (a `now`
/// before `last` counts as no time passed).
pub open spec fn debounce_allows(last: Option<u64>, now: u64) -> bool {
    match last {
        None => true,
        Some(t) => now >= t && now - t >= DEBOUNCE_NANOS,
    }
}

/// The navigation action of a button.
pub fn ui_action_for(button: GamepadButton) -> (r: Option<UiControllerAction>)
    ensures
        r == ui_action_of(button),
{
    match button {
        GamepadButton::DPadDown | GamepadButton::DPadRight => Some(UiControllerAction::Next),
        GamepadButton::DPadUp | GamepadButton::DPadLeft => Some(UiControllerAction::Previous),
        GamepadButton::South => Some(UiControllerAction::Activate),
        GamepadButton::East => Some(UiControllerAction::Back),
        _ => None,
    }
}

/// Whether pressing `button` makes the Steam overlay draw for a second
/// (the Guide button opens the overlay).
pub fn triggers_redraw_burst(button: GamepadButton) -> (r: bool)
    ensures
        r == (button == GamepadButton::Guide),
{
    button == GamepadButton::Guide
}

/// Whether a press of `button` needs the state of the pad's other buttons:
/// it has a navigation action or is North (part of a chord).
pub fn needs_gamepad_state(button: GamepadButton) -> (r: bool)
    ensures
        r == (ui_action_of(button) is Some || button == GamepadButton::North),
{
    ui_action_for(button).is_some() || button == GamepadButton::North
}

/// Debounces one kind of action: handles it at `now` when the last handled
/// one is far enough back, and then records `now` as the last time.
pub fn should_handle_chord(last_action_time: &mut Option<u64>, now: u64) -> (r: bool)
    ensures
        r == debounce_allows(*old(last_action_time), now),
        r ==> *final(last_action_time) == Some(now),
        !r ==> *final(last_action_time) == *old(last_action_time),
{
    let handle = match *last_action_time {
        Some(last) => now.saturating_sub(last) >= DEBOUNCE_NANOS,
        None => true,
    };
    if handle {
        *last_action_time = Some(now);
    }
    handle
}

/// The controller-button-down handler: the times at which each kind of
/// shortcut was last acted on.
pub struct Handler {
    pub last_ui_toggle_time: Option<u64>,
    pub last_desktop_config_toggle_time: Option<u64>,
    pub last_ui_action_time: Option<u64>,
}

/// The outcome of a press of `button` at `now`, with `chord_held` telling
/// whether the pad holds LeftShoulder, RightShoulder and Back, and the
/// handler state `h` before the press.
pub open spec fn button_outcome(h: Handler, button: GamepadButton, chord_held: bool, now: u64) -> ButtonOutcome {
    if ui_action_of(button) is None && button != GamepadButton::North {
        ButtonOutcome::Nothing
    } else if chord_held {
        if button == GamepadButton::South && debounce_allows(h.last_ui_toggle_time, now) {
            ButtonOutcome::ToggleUi
        } else if button == GamepadButton::North && debounce_allows(
            h.last_desktop_config_toggle_time,
            now,
        ) {
            ButtonOutcome::ToggleDesktopConfig
        } else {
            ButtonOutcome::Nothing
        }
    } else {
        match ui_action_of(button) {
            Some(a) => if debounce_allows(h.last_ui_action_time, now) {
                ButtonOutcome::UiAction(a)
            } else {
                ButtonOutcome::Nothing
            },
            None => ButtonOutcome::Nothing,
        }
    }
}

impl Handler {
    /// A handler that has acted on nothing yet.
    pub fn new() -> (h: Handler)
        ensures
            h.last_ui_toggle_time is None,
            h.last_desktop_config_toggle_time is None,
            h.last_ui_action_time is None,
    {
        Handler {
            last_ui_toggle_time: None,
            last_desktop_config_toggle_time: None,
            last_ui_action_time: None,
        }
    }

    /// Handles a press of `button` at `now` on a pad whose chord buttons
    /// (LeftShoulder, RightShoulder, Back) are held or not. Only the
    /// debounce time of the outcome's kind is updated, to `now`.
    pub fn on_button_down(&mut self, button: GamepadButton, chord_held: bool, now: u64) -> (r: ButtonOutcome)
        ensures
            r == button_outcome(*old(self), button, chord_held, now),
            final(self).last_ui_toggle_time == if r == ButtonOutcome::ToggleUi {
                Some(now)
            } else {
                old(self).last_ui_toggle_time
            },
            final(self).last_desktop_config_toggle_time == if r == ButtonOutcome::ToggleDesktopConfig {
                Some(now)
            } else {
                old(self).last_desktop_config_toggle_time
            },
            final(self).last_ui_action_time == if r is UiAction {
                Some(now)
            } else {
                old(self).last_ui_action_time
            },
    {
        let ui_action = ui_action_for(button);
        if ui_action.is_none() && button != GamepadButton::North {
            return ButtonOutcome::Nothing;
        }
        if chord_held {
            if button == GamepadButton::South {
                if should_handle_chord(&mut self.last_ui_toggle_time, now) {
                    return ButtonOutcome::ToggleUi;
                }
            } else if button == GamepadButton::North {
                if should_handle_chord(&mut self.last_desktop_config_toggle_time, now) {
                    return ButtonOutcome::ToggleDesktopConfig;
                }
            }
            return ButtonOutcome::Nothing;
        }
        match ui_action {
            Some(a) => {
                if should_handle_chord(&mut self.last_ui_action_time, now) {
                    ButtonOutcome::UiAction(a)
                } else {
                    ButtonOutcome::Nothing
                }
            },
            None => ButtonOutcome::Nothing,
        }
    }

    /// The SDL events this handler listens to: seven entries, each the
    /// button-down kind (which kind an event is does not depend on its
    /// button), so every button press, Guide included, reaches the handler.
    pub fn listen_events(&self) -> (r: Vec<SdlEventKind>)
        ensures
            r.len() == 7,
            forall|i: int| 0 <= i < r.len() ==> #[trigger] r@[i] == SdlEventKind::ControllerButtonDown,
    {
        let mut r: Vec<SdlEventKind> = Vec::new();
        let mut i: usize = 0;
        while i < 7
            invariant
                i <= 7,
                r.len() == i,
                forall|j: int| 0 <= j < r.len() ==> #[trigger] r@[j] == SdlEventKind::ControllerButtonDown,
            decreases 7 - i,
        {
            r.push(SdlEventKind::ControllerButtonDown);
            i = i + 1;
        }
        r
    }
}

/// Only the D-pad and the South and East buttons navigate the UI: down and
/// right go to the next item, up and left to the previous one, South
/// activates and East goes back; every other button has no navigation
/// action, and a press of it without the chord does nothing.
pub proof fn only_dpad_south_and_east_navigate(h: Handler, b: GamepadButton, chord_held: bool, now: u64)
    ensures
        ui_action_of(GamepadButton::DPadDown) == Some(UiControllerAction::Next),
        ui_action_of(GamepadButton::DPadRight) == Some(UiControllerAction::Next),
        ui_action_of(GamepadButton::DPadUp) == Some(UiControllerAction::Previous),
        ui_action_of(GamepadButton::DPadLeft) == Some(UiControllerAction::Previous),
        ui_action_of(GamepadButton::South) == Some(UiControllerAction::Activate),
        ui_action_of(GamepadButton::East) == Some(UiControllerAction::Back),
        !(b == GamepadButton::DPadDown || b == GamepadButton::DPadRight || b == GamepadButton::DPadUp
            || b == GamepadButton::DPadLeft || b == GamepadButton::South || b == GamepadButton::East)
            ==> ui_action_of(b) is None && button_outcome(h, b, false, now) == ButtonOutcome::Nothing,
        !(b == GamepadButton::DPadDown || b == GamepadButton::DPadRight || b == GamepadButton::DPadUp
            || b == GamepadButton::DPadLeft || b == GamepadButton::South || b == GamepadButton::East
            || b == GamepadButton::North) ==> button_outcome(h, b, chord_held, now) == ButtonOutcome::Nothing,
{
}

/// The debounce keeps handled actions of one kind at least 200 ms apart:
/// once an action is handled at `t`, any later attempt before `t + 200 ms`
/// is refused, and a refused attempt leaves the last time unchanged.
pub proof fn debounce_spaces_handled_actions(t: u64, now: u64)
    requires
        t <= now,
        now - t < DEBOUNCE_NANOS,
    ensures
        !debounce_allows(Some(t), now),
        debounce_allows(Some(t), (t + DEBOUNCE_NANOS) as u64) || t + DEBOUNCE_NANOS > u64::MAX,
{
}

/// A chord press never sends a navigation action, and a navigation action
/// is only sent when no chord is held.
pub proof fn chord_presses_never_navigate(h: Handler, button: GamepadButton, now: u64)
    ensures
        !(button_outcome(h, button, true, now) is UiAction),
        button_outcome(h, button, false, now) != ButtonOutcome::ToggleUi,
        button_outcome(h, button, false, now) != ButtonOutcome::ToggleDesktopConfig,
{
}

/// Each kind of shortcut acts at most once per 200 ms: with the chord held,
/// South toggles the UI and North the desktop layout; without it, a
/// navigation button sends its action; in each case exactly when that kind
/// never acted before or last acted 200 ms (200,000,000 ns) or more before
/// `now`, and otherwise the press does nothing.
pub proof fn shortcuts_act_once_per_200_ms(h: Handler, button: GamepadButton, now: u64)
    ensures
        ({
            let spaced = |last: Option<u64>| last is None || (now >= last.unwrap() && now - last.unwrap() >= 200_000_000);
            &&& button == GamepadButton::South ==> (button_outcome(h, button, true, now) == if spaced(
                h.last_ui_toggle_time,
            ) {
                ButtonOutcome::ToggleUi
            } else {
                ButtonOutcome::Nothing
            })
            &&& button == GamepadButton::North ==> (button_outcome(h, button, true, now) == if spaced(
                h.last_desktop_config_toggle_time,
            ) {
                ButtonOutcome::ToggleDesktopConfig
            } else {
                ButtonOutcome::Nothing
            })
            &&& ui_action_of(button) is Some ==> (button_outcome(h, button, false, now) == if spaced(
                h.last_ui_action_time,
            ) {
                ButtonOutcome::UiAction(ui_action_of(button).unwrap())
            } else {
                ButtonOutcome::Nothing
            })
        }),
{
}

/// Keyboard output (LED state) sent to an emulated keyboard: setting the
/// host's LEDs is not supported, so the output is dropped.
pub fn handle_output(device_id: &u64, leds: &u8) {
}

} // verus!
