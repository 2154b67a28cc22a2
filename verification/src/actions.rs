//! The user-facing actions: showing the Steam overlay window, showing the
//! UI, choosing the Steam Input profile whose configurator opens, and
//! allowing or enforcing the Steam Input desktop layout. Each action says
//! which window events to send, in which order; the program sends them.
use vstd::prelude::*;
use crate::window::WindowRunnerEvent;

verus! {

/// The window settings of the running config.
pub struct WindowConfig {
    pub create: Option<bool>,
    pub fullscreen: Option<bool>,
    pub continuous_draw: Option<bool>,
}

/// The controller-emulation settings of the running config.
pub struct ControllerEmulationConfig {
    pub allow_desktop_config: Option<bool>,
    pub steam_input_profile_app_id: Option<u32>,
}

/// What the Steam Input binding enforcer is told to do.
#[derive(Debug, Clone, Copy, PartialEq, Eq, Structural)]
pub enum EnforcerCommand {
    /// Stop enforcing: the desktop layout is allowed.
    Deactivate,
    /// Enforce the profile of the app the enforcer knows.
    Activate,
    /// Enforce the profile of this app.
    ActivateWithAppId(u32),
}

/// The window event that shows (`true`) or hides (`false`) the window.
pub open spec fn visibility_event(enabled: bool) -> WindowRunnerEvent {
    if enabled {
        WindowRunnerEvent::ShowWindow
    } else {
        WindowRunnerEvent::HideWindow
    }
}

/// The Steam overlay window is on when the window is created (default off)
/// and full screen (default on).
pub open spec fn overlay_enabled(w: WindowConfig) -> bool {
    (w.create == Some(true)) && !(w.fullscreen == Some(false))
}

/// Where turning the Steam overlay window on or off stands.
#[derive(Debug, Clone, Copy, PartialEq, Eq, Structural)]
pub enum OverlayPhase {
    /// Waiting to hear whether `SetFullscreen` was delivered.
    SendingFullscreen,
    /// Waiting to hear whether the show or hide event was delivered.
    SendingVisibility,
    /// Done; `true` when both events were delivered.
    Finished(bool),
}

/// What to do next while turning the overlay window on or off.
#[derive(Debug, Clone, Copy, PartialEq, Eq, Structural)]
pub enum SendStep {
    /// Send this event to the window runner and answer whether it was
    /// delivered.
    Send(WindowRunnerEvent),
    /// Done, with this result.
    Finish(bool),
}

/// Turning the Steam overlay window on or off, one event at a time: first
/// `SetFullscreen(enabled)`, then, only when that was delivered, the show or
/// hide event.
#[derive(Debug, Clone, Copy, PartialEq, Eq, Structural)]
pub struct OverlaySwitch {
    pub enabled: bool,
    pub phase: OverlayPhase,
}

/// The step that a switch waits on.
pub open spec fn overlay_pending(m: OverlaySwitch) -> SendStep {
    match m.phase {
        OverlayPhase::SendingFullscreen => SendStep::Send(WindowRunnerEvent::SetFullscreen(m.enabled)),
        OverlayPhase::SendingVisibility => SendStep::Send(visibility_event(m.enabled)),
        OverlayPhase::Finished(ok) => SendStep::Finish(ok),
    }
}

/// The phase after hearing whether the pending event was delivered: a
/// refused `SetFullscreen` ends with `false` and sends nothing more.
pub open spec fn overlay_next(m: OverlaySwitch, delivered: bool) -> OverlayPhase {
    match m.phase {
        OverlayPhase::SendingFullscreen => if delivered {
            OverlayPhase::SendingVisibility
        } else {
            OverlayPhase::Finished(false)
        },
        OverlayPhase::SendingVisibility => OverlayPhase::Finished(delivered),
        OverlayPhase::Finished(ok) => OverlayPhase::Finished(ok),
    }
}

/// Turns the Steam overlay window on or off: a switch that first sends
/// `SetFullscreen(enabled)`.
pub fn set_steam_overlay_enabled(enabled: bool) -> (m: OverlaySwitch)
    ensures
        m == (OverlaySwitch { enabled, phase: OverlayPhase::SendingFullscreen }),
{
    OverlaySwitch { enabled, phase: OverlayPhase::SendingFullscreen }
}

impl OverlaySwitch {
    /// The step the switch waits on.
    pub fn pending(&self) -> (s: SendStep)
        ensures
            s == overlay_pending(*self),
    {
        match self.phase {
            OverlayPhase::SendingFullscreen => SendStep::Send(WindowRunnerEvent::SetFullscreen(self.enabled)),
            OverlayPhase::SendingVisibility => if self.enabled {
                SendStep::Send(WindowRunnerEvent::ShowWindow)
            } else {
                SendStep::Send(WindowRunnerEvent::HideWindow)
            },
            OverlayPhase::Finished(ok) => SendStep::Finish(ok),
        }
    }

    /// Takes whether the pending event was delivered and returns the next
    /// step.
    pub fn answer(&mut self, delivered: bool) -> (s: SendStep)
        ensures
            final(self).enabled == old(self).enabled,
            final(self).phase == overlay_next(*old(self), delivered),
            s == overlay_pending(*final(self)),
    {
        self.phase = match self.phase {
            OverlayPhase::SendingFullscreen => if delivered {
                OverlayPhase::SendingVisibility
            } else {
                OverlayPhase::Finished(false)
            },
            OverlayPhase::SendingVisibility => OverlayPhase::Finished(delivered),
            OverlayPhase::Finished(ok) => OverlayPhase::Finished(ok),
        };
        self.pending()
    }
}

/// Turning the overlay window on or off sends `SetFullscreen(enabled)`;
/// when that is refused it sends nothing more and fails; when it is
/// delivered it sends the show or hide event, and the result is whether
/// that one was delivered. So the result is `true` exactly when both events
/// were delivered.
pub proof fn overlay_sends_in_order(enabled: bool, first: bool, second: bool)
    ensures
        ({
            let m0 = OverlaySwitch { enabled, phase: OverlayPhase::SendingFullscreen };
            let m1 = OverlaySwitch { enabled, phase: overlay_next(m0, first) };
            let m2 = OverlaySwitch { enabled, phase: overlay_next(m1, second) };
            &&& overlay_pending(m0) == SendStep::Send(WindowRunnerEvent::SetFullscreen(enabled))
            &&& !first ==> overlay_pending(m1) == SendStep::Finish(false)
            &&& first ==> overlay_pending(m1) == SendStep::Send(visibility_event(enabled))
            &&& first ==> overlay_pending(m2) == SendStep::Finish(second)
        }),
{
}

/// Flips the Steam overlay window: the new setting is off when the config
/// has it on, on otherwise, and it is returned (whatever the events' fate)
/// with the switch that sends it.
pub fn toggle_steam_overlay_enabled(window: &WindowConfig) -> (r: (bool, OverlaySwitch))
    ensures
        r.0 == !overlay_enabled(*window),
        r.1 == (OverlaySwitch { enabled: r.0, phase: OverlayPhase::SendingFullscreen }),
{
    let create = match window.create {
        Some(b) => b,
        None => false,
    };
    let fullscreen = match window.fullscreen {
        Some(b) => b,
        None => true,
    };
    let currently_enabled = create && fullscreen;
    let enabled = !currently_enabled;
    (enabled, set_steam_overlay_enabled(enabled))
}

/// The event that shows (`show`) or hides the UI. It is sent once; the
/// request succeeds when it was delivered.
pub fn set_ui_visible(show: bool) -> (e: WindowRunnerEvent)
    ensures
        e == WindowRunnerEvent::ToggleUi(Some(show)),
{
    WindowRunnerEvent::ToggleUi(Some(show))
}

/// The event that toggles the UI, sent once; whether it was delivered is
/// not reported.
pub fn toggle_ui_visible() -> (e: WindowRunnerEvent)
    ensures
        e == WindowRunnerEvent::ToggleUi(None),
{
    WindowRunnerEvent::ToggleUi(None)
}

/// The app whose Steam Input profile is in use: the one the config names,
/// else the one the binding enforcer knows (`None` when the enforcer cannot
/// be asked).
pub fn selected_app_id(config_app_id: Option<u32>, enforcer_app_id: Option<u32>) -> (r: Option<u32>)
    ensures
        r == if config_app_id is Some {
            config_app_id
        } else {
            enforcer_app_id
        },
{
    match config_app_id {
        Some(id) => Some(id),
        None => enforcer_app_id,
    }
}

/// The app whose controller configurator to open: the selected app. `None`
/// means there is no app id and nothing opens.
pub fn open_controller_config(config_app_id: Option<u32>, enforcer_app_id: Option<u32>) -> (r: Option<u32>)
    ensures
        r == if config_app_id is Some {
            config_app_id
        } else {
            enforcer_app_id
        },
{
    selected_app_id(config_app_id, enforcer_app_id)
}

/// Allows (`allow`) or enforces the Steam Input desktop layout: records the
/// choice, and the app id when one is given, in the config, and returns what
/// the binding enforcer is told: to stop when allowed, else to enforce the
/// given app, or the configured one, or the one it knows.
pub fn set_desktop_config_allowed(cfg: &mut ControllerEmulationConfig, allow: bool, app_id: Option<u32>) -> (cmd: EnforcerCommand)
    ensures
        final(cfg).allow_desktop_config == Some(allow),
        final(cfg).steam_input_profile_app_id == if app_id is Some {
            app_id
        } else {
            old(cfg).steam_input_profile_app_id
        },
        cmd == if allow {
            EnforcerCommand::Deactivate
        } else {
            match final(cfg).steam_input_profile_app_id {
                Some(id) => EnforcerCommand::ActivateWithAppId(id),
                None => EnforcerCommand::Activate,
            }
        },
{
    cfg.allow_desktop_config = Some(allow);
    if let Some(id) = app_id {
        cfg.steam_input_profile_app_id = Some(id);
    }
    if allow {
        EnforcerCommand::Deactivate
    } else {
        let target = match app_id {
            Some(id) => Some(id),
            None => cfg.steam_input_profile_app_id,
        };
        match target {
            Some(id) => EnforcerCommand::ActivateWithAppId(id),
            None => EnforcerCommand::Activate,
        }
    }
}

/// Flips between allowing and enforcing the desktop layout, given whether
/// the enforcer is active now: an active enforcer is stopped and the layout
/// allowed; otherwise it is activated. Returns whether the layout is now
/// allowed, recorded in the config, and the enforcer's command.
pub fn toggle_desktop_config_allowed(cfg: &mut ControllerEmulationConfig, enforcer_active: bool) -> (r: (bool, EnforcerCommand))
    ensures
        r.0 == enforcer_active,
        final(cfg).allow_desktop_config == Some(enforcer_active),
        final(cfg).steam_input_profile_app_id == old(cfg).steam_input_profile_app_id,
        r.1 == if enforcer_active {
            EnforcerCommand::Deactivate
        } else {
            EnforcerCommand::Activate
        },
{
    let allow = enforcer_active;
    cfg.allow_desktop_config = Some(allow);
    if allow {
        (allow, EnforcerCommand::Deactivate)
    } else {
        (allow, EnforcerCommand::Activate)
    }
}

/// The event that shutting down sends first: hiding the window. It is
/// sent once, and whether it was delivered does not matter.
pub fn shutdown() -> (e: WindowRunnerEvent)
    ensures
        e == WindowRunnerEvent::HideWindow,
{
    WindowRunnerEvent::HideWindow
}

} // verus!
