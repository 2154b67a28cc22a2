use sisr::restart::{
    ps_quote, self_restart_command, RestartAction, RestartEvent, RestartPhase, RestartSteam, SteamUrl,
};

/// Runs the restart against scripted answers and returns the actions in order.
fn run(
    restart_sisr_after: bool,
    hid_hooks: bool,
    mut running: impl FnMut(usize) -> bool,
    mut login: impl FnMut(usize) -> (bool, Option<u32>),
    policy: (bool, Option<bool>),
    marker_ok: bool,
) -> Vec<RestartAction> {
    let mut m = RestartSteam::new(restart_sisr_after, hid_hooks);
    let mut actions = Vec::new();
    let mut ev = RestartEvent::Start;
    let mut running_asks = 0;
    let mut login_asks = 0;
    loop {
        let a = m.step(ev);
        actions.push(a);
        ev = match a {
            RestartAction::QuerySteamRunning => {
                running_asks += 1;
                RestartEvent::SteamRunning(running(running_asks - 1))
            }
            RestartAction::QueryLogin => {
                login_asks += 1;
                let (r, u) = login(login_asks - 1);
                RestartEvent::LoginState { steam_running: r, active_user: u }
            }
            RestartAction::QueryOverlayPolicy => {
                RestartEvent::OverlayPolicy { launched_via_steam: policy.0, no_steam: policy.1 }
            }
            RestartAction::SetMarkerSteamEnv => RestartEvent::MarkerEnvSet(marker_ok),
            RestartAction::Finish | RestartAction::Fail => break,
            _ => RestartEvent::Done,
        };
        assert!(actions.len() < 100_000);
    }
    actions
}

#[test]
fn steam_not_running_skips_exit() {
    let a = run(false, false, |_| false, |_| (true, Some(5)), (true, None), true);
    assert_eq!(
        a,
        vec![
            RestartAction::QuerySteamRunning,
            RestartAction::OpenUrl(SteamUrl::OpenMain),
            RestartAction::QueryLogin,
            RestartAction::Sleep(5000),
            RestartAction::QueryOverlayPolicy,
            RestartAction::Finish,
        ]
    );
}

#[test]
fn running_steam_is_asked_to_exit_and_awaited() {
    // running for the first check and two polls, then gone
    let a = run(false, false, |i| i < 3, |_| (true, Some(5)), (true, None), true);
    assert_eq!(
        a[..8],
        [
            RestartAction::QuerySteamRunning,
            RestartAction::OpenUrl(SteamUrl::Exit),
            RestartAction::QuerySteamRunning,
            RestartAction::Sleep(5000),
            RestartAction::QuerySteamRunning,
            RestartAction::Sleep(5000),
            RestartAction::QuerySteamRunning,
            RestartAction::OpenUrl(SteamUrl::OpenMain),
        ]
    );
}

#[test]
fn exit_wait_gives_up_after_ten_looks() {
    let a = run(false, false, |_| true, |_| (true, Some(5)), (true, None), true);
    let exit_sleeps = a.iter().filter(|x| **x == RestartAction::Sleep(5000)).count();
    // ten sleeps while waiting for exit, one settle sleep
    assert_eq!(exit_sleeps, 11);
    assert!(a.contains(&RestartAction::OpenUrl(SteamUrl::OpenMain)));
}

#[test]
fn login_wait_polls_each_second_until_a_user_is_in() {
    let a = run(false, false, |_| false, |i| if i < 3 { (true, Some(0)) } else { (true, Some(9)) }, (true, None), true);
    let one_second = a.iter().filter(|x| **x == RestartAction::Sleep(1000)).count();
    assert_eq!(one_second, 3);
}

#[test]
fn login_wait_is_bounded() {
    let a = run(false, false, |_| false, |_| (false, None), (true, None), true);
    let logins = a.iter().filter(|x| **x == RestartAction::QueryLogin).count();
    assert_eq!(logins, 19990);
    assert_eq!(*a.last().unwrap(), RestartAction::Finish);
}

#[test]
fn overlay_reload_when_not_launched_by_steam() {
    let a = run(true, true, |_| false, |_| (true, Some(1)), (false, Some(false)), true);
    let tail: Vec<_> = a.iter().skip_while(|x| **x != RestartAction::QueryOverlayPolicy).cloned().collect();
    assert_eq!(
        tail,
        vec![
            RestartAction::QueryOverlayPolicy,
            RestartAction::UnhookHid,
            RestartAction::UnloadSteamOverlay,
            RestartAction::Sleep(1000),
            RestartAction::EnumerateHidExports,
            RestartAction::SetMarkerSteamEnv,
            RestartAction::LoadSteamOverlay,
            RestartAction::RehookHid,
            RestartAction::ScheduleSelfRestart,
            RestartAction::Finish,
        ]
    );
}

#[test]
fn failed_marker_skips_overlay_load() {
    let a = run(false, false, |_| false, |_| (true, Some(1)), (false, None), false);
    let tail: Vec<_> = a.iter().skip_while(|x| **x != RestartAction::QueryOverlayPolicy).cloned().collect();
    assert_eq!(
        tail,
        vec![
            RestartAction::QueryOverlayPolicy,
            RestartAction::UnloadSteamOverlay,
            RestartAction::Sleep(1000),
            RestartAction::EnumerateHidExports,
            RestartAction::SetMarkerSteamEnv,
            RestartAction::Finish,
        ]
    );
}

#[test]
fn no_steam_config_skips_overlay_reload() {
    let a = run(true, false, |_| false, |_| (true, Some(1)), (false, Some(true)), true);
    let tail: Vec<_> = a.iter().skip_while(|x| **x != RestartAction::QueryOverlayPolicy).cloned().collect();
    assert_eq!(tail, vec![RestartAction::QueryOverlayPolicy, RestartAction::ScheduleSelfRestart, RestartAction::Finish]);
}

#[test]
fn unexpected_answers_repeat_the_question() {
    let mut m = RestartSteam::new(false, false);
    assert_eq!(m.step(RestartEvent::Done), RestartAction::QuerySteamRunning);
    assert_eq!(m.phase, RestartPhase::NotStarted);
    assert_eq!(m.step(RestartEvent::Start), RestartAction::QuerySteamRunning);
    assert_eq!(m.step(RestartEvent::Done), RestartAction::QuerySteamRunning);
    assert_eq!(m.phase, RestartPhase::CheckRunning);
}

#[test]
fn finished_restart_stays_finished() {
    let mut m = RestartSteam { phase: RestartPhase::Finished, restart_sisr_after: false, hid_hooks: false };
    assert_eq!(m.step(RestartEvent::Done), RestartAction::Finish);
    assert_eq!(m.phase, RestartPhase::Finished);
}

#[test]
fn powershell_quoting_doubles_quotes() {
    assert_eq!(ps_quote("a'b"), "'a''b'");
    assert_eq!(ps_quote(""), "''");
    assert_eq!(ps_quote("C:\\x y\\sisr.exe"), "'C:\\x y\\sisr.exe'");
}

#[test]
fn self_restart_commands() {
    let args = vec!["--tray".to_string(), "it's".to_string()];
    let w = self_restart_command(true, 4321, "C:\\sisr.exe", &args);
    assert_eq!(w.program, "powershell");
    assert_eq!(w.args[..5], ["-NoProfile", "-NonInteractive", "-WindowStyle", "Hidden", "-Command"]);
    assert_eq!(
        w.args[5],
        "& { while (Get-Process -Id 4321 -ErrorAction SilentlyContinue) { Start-Sleep -Milliseconds 200 }; Start-Process -FilePath 'C:\\sisr.exe' -ArgumentList @('--tray', 'it''s') }"
    );
    let w0 = self_restart_command(true, 1, "x", &vec![]);
    assert!(w0.args[5].ends_with("-ArgumentList @() }"));
    let l = self_restart_command(false, 77, "/usr/bin/sisr", &args);
    assert_eq!(l.program, "sh");
    assert_eq!(
        l.args,
        vec![
            "-lc".to_string(),
            "while kill -0 \"$1\" 2>/dev/null; do sleep 0.2; done; shift; exec \"$@\"".to_string(),
            "restart_sisr".to_string(),
            "77".to_string(),
            "/usr/bin/sisr".to_string(),
            "--tray".to_string(),
            "it's".to_string(),
        ]
    );
}

#[test]
fn failed_steam_start_fails_the_restart() {
    let mut m = RestartSteam::new(true, false);
    assert_eq!(m.step(RestartEvent::Start), RestartAction::QuerySteamRunning);
    assert_eq!(m.step(RestartEvent::SteamRunning(true)), RestartAction::OpenUrl(SteamUrl::Exit));
    // failing to ask Steam to exit is passed over
    assert_eq!(m.step(RestartEvent::UrlFailed), RestartAction::QuerySteamRunning);
    assert_eq!(m.step(RestartEvent::SteamRunning(false)), RestartAction::OpenUrl(SteamUrl::OpenMain));
    assert_eq!(m.step(RestartEvent::UrlFailed), RestartAction::Fail);
    assert_eq!(m.phase, RestartPhase::Failed);
    assert_eq!(m.step(RestartEvent::Done), RestartAction::Fail);
}
