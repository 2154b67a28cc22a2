
use sisr::actions::{
    open_controller_config, selected_app_id, set_desktop_config_allowed, set_steam_overlay_enabled,
    set_ui_visible, shutdown, toggle_desktop_config_allowed, toggle_steam_overlay_enabled,
    toggle_ui_visible, ControllerEmulationConfig, EnforcerCommand, OverlayPhase, OverlaySwitch, SendStep,
    WindowConfig,
};
use sisr::api::{
    cef_restart_sisr_after, default_true, get_steam_shortcuts, launch_steam_shortcut_check,
    open_steam_controller_config, restart_sisr_after, rungameid_url, set_force_controller_config,
    set_steam_overlay, steam_overlay_status, steam_path_from_env, EnableCefRemoteDebugPayload,
    OpenSteamControllerConfigRequest, RestartSteamPayload, SetForceControllerConfigRequest,
    SetSteamOverlayRequest, SteamShortcut,
};
use sisr::window::{
    linux_webview_supported, webview_url, Handler as NavHandler, UiControllerAction, WindowEventKind,
    WindowHandleKind, WindowRunnerEvent,
};

/// Runs an overlay switch, answering each send from `answers` in turn, and
/// returns the events sent and the result.
fn run_switch(mut m: OverlaySwitch, answers: &[bool]) -> (Vec<WindowRunnerEvent>, bool) {
    let mut sent = Vec::new();
    let mut step = m.pending();
    let mut i = 0;
    loop {
        match step {
            SendStep::Send(e) => {
                sent.push(e);
                step = m.answer(answers[i]);
                i += 1;
            }
            SendStep::Finish(ok) => return (sent, ok),
        }
    }
}

#[test]
fn overlay_on_sends_fullscreen_then_show() {
    let (sent, ok) = run_switch(set_steam_overlay_enabled(true), &[true, true]);
    assert!(ok);
    assert_eq!(sent, vec![WindowRunnerEvent::SetFullscreen(true), WindowRunnerEvent::ShowWindow]);
}

#[test]
fn overlay_stops_at_first_failed_send() {
    let (sent, ok) = run_switch(set_steam_overlay_enabled(false), &[false]);
    assert!(!ok);
    assert_eq!(sent, vec![WindowRunnerEvent::SetFullscreen(false)]);
    let (sent2, ok2) = run_switch(set_steam_overlay_enabled(false), &[true, false]);
    assert!(!ok2);
    assert_eq!(sent2, vec![WindowRunnerEvent::SetFullscreen(false), WindowRunnerEvent::HideWindow]);
}

#[test]
fn finished_switch_sends_nothing_more() {
    let mut m = set_steam_overlay_enabled(true);
    assert_eq!(m.answer(false), SendStep::Finish(false));
    assert_eq!(m.answer(true), SendStep::Finish(false));
    assert_eq!(m.phase, OverlayPhase::Finished(false));
}

#[test]
fn overlay_toggle_flips_the_config_state() {
    let on = WindowConfig { create: Some(true), fullscreen: None, continuous_draw: None };
    let (enabled, m) = toggle_steam_overlay_enabled(&on);
    assert!(!enabled);
    assert_eq!(m.pending(), SendStep::Send(WindowRunnerEvent::SetFullscreen(false)));
    let (sent, _) = run_switch(m, &[true, true]);
    assert_eq!(sent, vec![WindowRunnerEvent::SetFullscreen(false), WindowRunnerEvent::HideWindow]);
    let off_default = WindowConfig { create: None, fullscreen: None, continuous_draw: None };
    assert!(toggle_steam_overlay_enabled(&off_default).0);
    let windowed = WindowConfig { create: Some(true), fullscreen: Some(false), continuous_draw: None };
    assert!(toggle_steam_overlay_enabled(&windowed).0);
}

#[test]
fn ui_visibility_events() {
    assert_eq!(set_ui_visible(true), WindowRunnerEvent::ToggleUi(Some(true)));
    assert_eq!(set_ui_visible(false), WindowRunnerEvent::ToggleUi(Some(false)));
    assert_eq!(toggle_ui_visible(), WindowRunnerEvent::ToggleUi(None));
    assert_eq!(shutdown(), WindowRunnerEvent::HideWindow);
}

#[test]
fn selected_app_prefers_config() {
    assert_eq!(selected_app_id(Some(1), Some(2)), Some(1));
    assert_eq!(selected_app_id(None, Some(2)), Some(2));
    assert_eq!(selected_app_id(None, None), None);
    assert_eq!(open_controller_config(None, Some(3)), Some(3));
}

#[test]
fn desktop_config_allowed_and_enforced() {
    let mut cfg = ControllerEmulationConfig { allow_desktop_config: None, steam_input_profile_app_id: Some(10) };
    assert_eq!(set_desktop_config_allowed(&mut cfg, true, None), EnforcerCommand::Deactivate);
    assert_eq!(cfg.allow_desktop_config, Some(true));
    assert_eq!(set_desktop_config_allowed(&mut cfg, false, None), EnforcerCommand::ActivateWithAppId(10));
    assert_eq!(set_desktop_config_allowed(&mut cfg, false, Some(20)), EnforcerCommand::ActivateWithAppId(20));
    assert_eq!(cfg.steam_input_profile_app_id, Some(20));
    let mut bare = ControllerEmulationConfig { allow_desktop_config: None, steam_input_profile_app_id: None };
    assert_eq!(set_desktop_config_allowed(&mut bare, false, None), EnforcerCommand::Activate);
    assert_eq!(bare.allow_desktop_config, Some(false));
}

#[test]
fn desktop_config_toggle_follows_enforcer() {
    let mut cfg = ControllerEmulationConfig { allow_desktop_config: None, steam_input_profile_app_id: Some(5) };
    assert_eq!(toggle_desktop_config_allowed(&mut cfg, true), (true, EnforcerCommand::Deactivate));
    assert_eq!(cfg.allow_desktop_config, Some(true));
    assert_eq!(toggle_desktop_config_allowed(&mut cfg, false), (false, EnforcerCommand::Activate));
    assert_eq!(cfg.allow_desktop_config, Some(false));
    assert_eq!(cfg.steam_input_profile_app_id, Some(5));
}

#[test]
fn restart_flags_default_to_true() {
    assert!(default_true());
    assert!(restart_sisr_after(None));
    assert!(!restart_sisr_after(Some(&RestartSteamPayload { restart_sisr: false })));
    assert!(cef_restart_sisr_after(None));
    assert!(!cef_restart_sisr_after(Some(&EnableCefRemoteDebugPayload { restart_sisr: false })));
}

#[test]
fn steam_overlay_request_status() {
    let m = set_steam_overlay(&SetSteamOverlayRequest { enabled: true });
    assert_eq!(m.pending(), SendStep::Send(WindowRunnerEvent::SetFullscreen(true)));
    let (_, ok) = run_switch(m, &[true, true]);
    assert_eq!(steam_overlay_status(ok), 200);
    let (_, failed) = run_switch(set_steam_overlay(&SetSteamOverlayRequest { enabled: false }), &[false]);
    assert_eq!(steam_overlay_status(failed), 500);
}

#[test]
fn force_controller_config_inverts_enforce() {
    let mut cfg = ControllerEmulationConfig { allow_desktop_config: None, steam_input_profile_app_id: None };
    let (status, cmd) = set_force_controller_config(&mut cfg, &SetForceControllerConfigRequest { enforce: true, app_id: Some(8) });
    assert_eq!(status, 200);
    assert_eq!(cmd, EnforcerCommand::ActivateWithAppId(8));
    assert_eq!(cfg.allow_desktop_config, Some(false));
    let (_, cmd2) = set_force_controller_config(&mut cfg, &SetForceControllerConfigRequest { enforce: false, app_id: None });
    assert_eq!(cmd2, EnforcerCommand::Deactivate);
}

#[test]
fn controller_config_app_id_from_request_or_env() {
    let req = OpenSteamControllerConfigRequest { app_id: Some(42) };
    assert_eq!(open_steam_controller_config(Some(&req), Some("7")), (200, Some(42)));
    assert_eq!(open_steam_controller_config(None, Some("7")), (200, Some(7)));
    let empty = OpenSteamControllerConfigRequest { app_id: None };
    assert_eq!(open_steam_controller_config(Some(&empty), Some("+8")), (200, Some(8)));
    assert_eq!(open_steam_controller_config(None, Some("0")), (400, None));
    assert_eq!(open_steam_controller_config(None, Some("x1")), (400, None));
    assert_eq!(open_steam_controller_config(None, Some("4294967296")), (400, None));
    assert_eq!(open_steam_controller_config(None, None), (400, None));
}

fn shortcut(app_id: u32, name: &str) -> SteamShortcut {
    SteamShortcut {
        app_id,
        game_id: (app_id as u64) << 32 | 0x0200_0000,
        name: name.to_string(),
        exe: format!("/games/{name}"),
        start_dir: None,
        launch_options: Some("-x".to_string()),
    }
}

#[test]
fn shortcut_listing_marks_the_selected_one() {
    let r = get_steam_shortcuts(Some("/steam/shortcuts.vdf".to_string()), Some(2), vec![shortcut(1, "a"), shortcut(2, "b")]).ok().unwrap();
    assert_eq!(r.shortcuts_path, "/steam/shortcuts.vdf");
    assert_eq!(r.selected_app_id, Some(2));
    assert_eq!(r.shortcuts.len(), 2);
    assert!(!r.shortcuts[0].selected);
    assert!(r.shortcuts[1].selected);
    assert_eq!(r.shortcuts[1].name, "b");
    assert_eq!(r.shortcuts[1].launch_options.as_deref(), Some("-x"));
    assert!(get_steam_shortcuts(None, None, vec![]).is_err());
    assert_eq!(get_steam_shortcuts(None, None, vec![]).err(), Some(409));
}

#[test]
fn launch_checks() {
    let v = vec![shortcut(1, "a"), shortcut(2, "b")];
    assert_eq!(launch_steam_shortcut_check(None, 1), 409);
    assert_eq!(launch_steam_shortcut_check(Some(&v), 3), 400);
    assert_eq!(launch_steam_shortcut_check(Some(&v), 2), 200);
    assert_eq!(rungameid_url(12345678901234), "steam://rungameid/12345678901234");
}

#[test]
fn steam_path_env_must_not_be_blank() {
    assert_eq!(steam_path_from_env(Some("/home/u/.steam")), Some("/home/u/.steam".to_string()));
    assert_eq!(steam_path_from_env(Some("  ")), None);
    assert_eq!(steam_path_from_env(Some("")), None);
    assert_eq!(steam_path_from_env(None), None);
}

#[test]
fn navigation_reaches_only_a_visible_webview() {
    let h = NavHandler {};
    let ev = WindowRunnerEvent::UiControllerAction(UiControllerAction::Activate);
    assert_eq!(h.handle_event(&ev, Some(true)), Some(UiControllerAction::Activate));
    assert_eq!(h.handle_event(&ev, Some(false)), None);
    assert_eq!(h.handle_event(&ev, None), None);
    assert_eq!(h.handle_event(&WindowRunnerEvent::ShowWindow, Some(true)), None);
    assert_eq!(h.listen_events(), vec![WindowEventKind::UiControllerAction]);
}

#[test]
fn webview_address() {
    assert_eq!(webview_url(true, Some(80)), "http://localhost:5173/");
    assert_eq!(webview_url(false, Some(8080)), "http://localhost:8080/");
    assert_eq!(webview_url(false, None), "http://localhost:5173/");
}

#[test]
fn webview_needs_an_xlib_window_on_linux() {
    assert!(linux_webview_supported(WindowHandleKind::Xlib));
    assert!(!linux_webview_supported(WindowHandleKind::Wayland));
    assert!(!linux_webview_supported(WindowHandleKind::Other));
}
