use sisr::updater::{
    check_current_version, clear_remind_later, get_update_state, install_script_command,
    is_dismissed, is_remind_later, open_in_browser, record_release, release_api_url,
    release_version_source, run_install_script, set_remind_later, should_notify, update_notify_from_config,
    write_skip,
    GithubRelease, UpdateInfo, UpdateNotify, UpdaterState,
};
use sisr::version::{parse_version, Version};

fn empty_state() -> UpdaterState {
    UpdaterState { available_update: None, remind_later_version: None }
}

fn state_with(version: &str) -> UpdaterState {
    UpdaterState {
        available_update: Some(UpdateInfo {
            version: version.to_string(),
            html_url: "https://example.invalid/release".to_string(),
            install_channel: "main".to_string(),
        }),
        remind_later_version: None,
    }
}

fn release(tag: &str, name: Option<&str>, prerelease: bool) -> GithubRelease {
    GithubRelease {
        tag_name: tag.to_string(),
        name: name.map(|s| s.to_string()),
        prerelease,
        html_url: "https://github.com/Alia5/SISR/releases/tag/x".to_string(),
    }
}

#[test]
fn no_update_reports_nothing() {
    let s = empty_state();
    let r = get_update_state(&s, Some("v1.0.0"));
    assert!(!r.update_available);
    assert_eq!(r.update_version, None);
    assert!(!r.dismissed);
    assert!(!r.skipped);
}

#[test]
fn remind_later_dismisses_until_cleared() {
    let mut s = state_with("v2.0.0");
    assert!(should_notify(&s, None, "v2.0.0"));
    set_remind_later(&mut s);
    assert!(is_remind_later(&s, "v2.0.0"));
    let r = get_update_state(&s, None);
    assert!(r.update_available);
    assert_eq!(r.update_version.as_deref(), Some("v2.0.0"));
    assert!(r.dismissed);
    assert!(!should_notify(&s, None, "v2.0.0"));
    clear_remind_later(&mut s);
    assert!(!is_remind_later(&s, "v2.0.0"));
    assert!(should_notify(&s, None, "v2.0.0"));
}

#[test]
fn remind_later_without_update_changes_nothing() {
    let mut s = empty_state();
    set_remind_later(&mut s);
    assert_eq!(s.remind_later_version, None);
}

#[test]
fn skip_writes_the_version_and_the_file_skips_it() {
    let s = state_with("v2.0.0");
    let content = write_skip(&s).unwrap();
    assert_eq!(content, "v2.0.0");
    assert!(is_dismissed(Some(&content), "v2.0.0"));
    assert!(is_dismissed(Some("  v2.0.0\n"), "v2.0.0"));
    assert!(!is_dismissed(Some("v1.0.0"), "v2.0.0"));
    assert!(!is_dismissed(None, "v2.0.0"));
    let r = get_update_state(&s, Some(&content));
    assert!(r.skipped);
    assert!(!should_notify(&s, Some(&content), "v2.0.0"));
    assert_eq!(write_skip(&empty_state()), None);
}

#[test]
fn notifications_off_end_the_check() {
    assert_eq!(check_current_version(UpdateNotify::Never, "v1.0.0"), None);
    assert_eq!(
        check_current_version(UpdateNotify::Stable, "v1.0.0"),
        Some(Version { major: 1, minor: 0, patch: 0, commits: 0 })
    );
    assert_eq!(check_current_version(UpdateNotify::Stable, "dev"), None);
}

#[test]
fn api_url_depends_on_channel() {
    assert_eq!(
        release_api_url(UpdateNotify::Prerelease),
        "https://api.github.com/repos/Alia5/SISR/releases?per_page=1"
    );
    assert_eq!(
        release_api_url(UpdateNotify::Stable),
        "https://api.github.com/repos/Alia5/SISR/releases/latest"
    );
}

#[test]
fn prerelease_versions_come_from_the_name() {
    assert_eq!(release_version_source(&release("v1.0.0", Some("v1.1.0-3"), true)), "v1.1.0-3");
    assert_eq!(release_version_source(&release("v1.0.0", None, true)), "v1.0.0");
    assert_eq!(release_version_source(&release("v1.0.0", Some("Big release"), false)), "v1.0.0");
}

#[test]
fn newer_release_is_recorded_with_its_channel() {
    let mut s = empty_state();
    let cur = parse_version("v1.0.0").unwrap();
    let found = record_release(&mut s, UpdateNotify::Prerelease, &cur, &release("1.1.0", None, false));
    assert_eq!(found.as_deref(), Some("v1.1.0"));
    let info = s.available_update.as_ref().unwrap();
    assert_eq!(info.version, "v1.1.0");
    assert_eq!(info.install_channel, "main");
    assert_eq!(info.html_url, "https://github.com/Alia5/SISR/releases/tag/x");

    let mut s2 = empty_state();
    let found2 = record_release(&mut s2, UpdateNotify::Stable, &cur, &release("v2.0.0", None, false));
    assert_eq!(found2.as_deref(), Some("v2.0.0"));
    assert_eq!(s2.available_update.as_ref().unwrap().install_channel, "stable");
}

#[test]
fn older_or_unparsable_release_is_not_recorded() {
    let cur = parse_version("v1.2.0").unwrap();
    let mut s = empty_state();
    assert_eq!(record_release(&mut s, UpdateNotify::Stable, &cur, &release("v1.2.0", None, false)), None);
    assert_eq!(record_release(&mut s, UpdateNotify::Stable, &cur, &release("v1.1.9", None, false)), None);
    assert_eq!(record_release(&mut s, UpdateNotify::Stable, &cur, &release("nightly", None, false)), None);
    assert!(s.available_update.is_none());
}

#[test]
fn skipping_a_found_update_hides_it() {
    let mut s = empty_state();
    let cur = parse_version("v1.0.0").unwrap();
    let label = record_release(&mut s, UpdateNotify::Stable, &cur, &release(" v1.5.0 ", None, false)).unwrap();
    let content = write_skip(&s).unwrap();
    assert!(is_dismissed(Some(&content), &label));
    assert!(get_update_state(&s, Some(&content)).skipped);
}

#[test]
fn install_commands_per_platform() {
    let c = install_script_command("stable", false);
    assert_eq!(c.program, "sh");
    assert_eq!(c.args, vec!["-c".to_string(), "curl -fsSL 'https://alia5.github.io/SISR/stable/install.sh' | sh".to_string()]);
    let w = install_script_command("main", true);
    assert_eq!(w.program, "powershell");
    assert_eq!(w.args[0..4], ["-NoProfile", "-ExecutionPolicy", "Bypass", "-Command"]);
    assert_eq!(
        w.args[4],
        "Start-Process powershell -ArgumentList '-NoExit -NoProfile -ExecutionPolicy Bypass -Command \"iwr -useb https://alia5.github.io/SISR/main/install.ps1 | iex\"' -Verb RunAs"
    );
}

#[test]
fn install_uses_the_update_channel_or_stable() {
    assert_eq!(run_install_script(&state_with("v2"), false).args[1], "curl -fsSL 'https://alia5.github.io/SISR/main/install.sh' | sh");
    assert_eq!(run_install_script(&empty_state(), false).args[1], "curl -fsSL 'https://alia5.github.io/SISR/stable/install.sh' | sh");
}

#[test]
fn browser_opens_the_release_page() {
    assert!(open_in_browser(&empty_state(), false).is_none());
    let c = open_in_browser(&state_with("v2"), false).unwrap();
    assert_eq!(c.program, "xdg-open");
    assert_eq!(c.args, vec!["https://example.invalid/release".to_string()]);
    let w = open_in_browser(&state_with("v2"), true).unwrap();
    assert_eq!(w.program, "cmd");
    assert_eq!(w.args, vec!["/c".to_string(), "start".to_string(), "https://example.invalid/release".to_string()]);
}

#[test]
fn update_channel_follows_the_config_setting() {
    assert_eq!(update_notify_from_config(Some("none")), UpdateNotify::Never);
    assert_eq!(update_notify_from_config(Some("prerelease")), UpdateNotify::Prerelease);
    assert_eq!(update_notify_from_config(Some("stable")), UpdateNotify::Stable);
    assert_eq!(update_notify_from_config(Some("nightly")), UpdateNotify::Stable);
    assert_eq!(update_notify_from_config(None), UpdateNotify::Stable);
}
