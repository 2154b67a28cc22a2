//! The HTTP API's request and response bodies, and what its handlers decide:
//! status codes, defaults, and the Steam shortcut listing.
use vstd::prelude::*;
use crate::actions::{set_desktop_config_allowed, set_steam_overlay_enabled, ControllerEmulationConfig, EnforcerCommand, OverlayPhase, OverlaySwitch};
use crate::text::{chars_of, decimal, opt_text, parse_u32_range, parse_u32_spec, push_decimal, trim, trim_bounds};

verus! {

pub const STATUS_OK: u16 = 200;

pub const STATUS_BAD_REQUEST: u16 = 400;

pub const STATUS_CONFLICT: u16 = 409;

pub const STATUS_INTERNAL_SERVER_ERROR: u16 = 500;

/// The config file's contents; every field is optional.
pub struct ConfigFileData {
    pub tray: Option<bool>,
    pub viiper_address: Option<String>,
    pub viiper_password: Option<String>,
    pub kbm_emulation: Option<bool>,
    pub update_notify: Option<String>,
    pub port: Option<u16>,
    pub window: Option<ConfigFileWindowOpts>,
    pub log: Option<ConfigFileLogOpts>,
    pub steam: Option<ConfigFileSteamOpts>,
    pub controller_emulation: Option<ConfigFileControllerEmulation>,
}

pub struct ConfigFileWindowOpts {
    pub create: Option<bool>,
    pub fullscreen: Option<bool>,
    pub continuous_draw: Option<bool>,
}

pub struct ConfigFileLogOpts {
    pub level: Option<String>,
}

pub struct ConfigFileSteamOpts {
    pub no_steam: Option<bool>,
    pub steam_path: Option<String>,
}

pub struct ConfigFileControllerEmulation {
    pub default_controller_type: Option<String>,
    pub require_controllers_connected_before_launch: Option<bool>,
    pub gyro_passthrough: Option<bool>,
    pub allow_desktop_config: Option<bool>,
    pub steam_input_profile_app_id: Option<u32>,
}

pub struct EnableCefRemoteDebugPayload {
    pub restart_sisr: bool,
}

pub struct OpenSteamControllerConfigRequest {
    pub app_id: Option<u32>,
}

pub struct RestartSteamPayload {
    pub restart_sisr: bool,
}

pub struct SetForceControllerConfigRequest {
    pub enforce: bool,
    pub app_id: Option<u32>,
}

pub struct SetSteamOverlayRequest {
    pub enabled: bool,
}

/// A non-Steam shortcut of the active Steam user.
pub struct SteamShortcut {
    pub app_id: u32,
    pub game_id: u64,
    pub name: String,
    pub exe: String,
    pub start_dir: Option<String>,
    pub launch_options: Option<String>,
}

pub struct SteamShortcutsResponse {
    pub shortcuts_path: String,
    pub selected_app_id: Option<u32>,
    pub shortcuts: Vec<SteamShortcutProfile>,
}

pub struct SteamShortcutProfile {
    pub app_id: u32,
    pub game_id: u64,
    pub name: String,
    pub exe: String,
    pub start_dir: Option<String>,
    pub launch_options: Option<String>,
    pub selected: bool,
}

pub struct SelectSteamShortcutRequest {
    pub app_id: u32,
}

/// The default of the `restart_sisr` flags: restart.
pub fn default_true() -> (r: bool)
    ensures
        r,
{
    true
}

/// Whether to restart this program after restarting Steam: the request's
/// flag, or yes when the request has no body.
pub fn restart_sisr_after(body: Option<&RestartSteamPayload>) -> (r: bool)
    ensures
        r == match body {
            Some(b) => b.restart_sisr,
            None => true,
        },
{
    match body {
        Some(b) => b.restart_sisr,
        None => default_true(),
    }
}

/// Whether to restart this program after enabling CEF remote debugging:
/// the request's flag, or yes when the request has no body.
pub fn cef_restart_sisr_after(body: Option<&EnableCefRemoteDebugPayload>) -> (r: bool)
    ensures
        r == match body {
            Some(b) => b.restart_sisr,
            None => true,
        },
{
    match body {
        Some(b) => b.restart_sisr,
        None => default_true(),
    }
}

/// Sets the Steam overlay window on or off: the switch that sends the
/// window events.
pub fn set_steam_overlay(payload: &SetSteamOverlayRequest) -> (m: OverlaySwitch)
    ensures
        m == (OverlaySwitch { enabled: payload.enabled, phase: OverlayPhase::SendingFullscreen }),
{
    set_steam_overlay_enabled(payload.enabled)
}

/// The answer to a Steam overlay request once its switch has finished: 200
/// when both window events were delivered, 500 otherwise.
pub fn steam_overlay_status(delivered: bool) -> (status: u16)
    ensures
        status == if delivered {
            STATUS_OK
        } else {
            STATUS_INTERNAL_SERVER_ERROR
        },
{
    if delivered {
        STATUS_OK
    } else {
        STATUS_INTERNAL_SERVER_ERROR
    }
}

/// Enforces (or stops enforcing) the Steam Input config: the desktop layout
/// is allowed exactly when enforcement is off. Always 200.
pub fn set_force_controller_config(cfg: &mut ControllerEmulationConfig, payload: &SetForceControllerConfigRequest) -> (r: (u16, EnforcerCommand))
    ensures
        r.0 == STATUS_OK,
        final(cfg).allow_desktop_config == Some(!payload.enforce),
        final(cfg).steam_input_profile_app_id == if payload.app_id is Some {
            payload.app_id
        } else {
            old(cfg).steam_input_profile_app_id
        },
        r.1 == if !payload.enforce {
            EnforcerCommand::Deactivate
        } else {
            match final(cfg).steam_input_profile_app_id {
                Some(id) => EnforcerCommand::ActivateWithAppId(id),
                None => EnforcerCommand::Activate,
            }
        },
{
    let cmd = set_desktop_config_allowed(cfg, !payload.enforce, payload.app_id);
    (STATUS_OK, cmd)
}

/// The app id that the `SteamAppId` environment value names: a number that
/// is not 0.
pub open spec fn env_app_id(v: Option<Seq<char>>) -> Option<u32> {
    match v {
        Some(t) => match parse_u32_spec(t) {
            Some(id) => if id != 0 {
                Some(id)
            } else {
                None
            },
            None => None,
        },
        None => None,
    }
}

/// Opens the Steam controller configurator for the request's app id, or
/// for the running app (`SteamAppId`, given as `steam_app_id_env`) when the
/// request names none: 200 and the app id, or 400 and nothing when there is
/// no app id.
pub fn open_steam_controller_config(payload: Option<&OpenSteamControllerConfigRequest>, steam_app_id_env: Option<&str>) -> (r: (u16, Option<u32>))
    ensures
        ({
            let requested = match payload {
                Some(p) => p.app_id,
                None => None,
            };
            let id = if requested is Some {
                requested
            } else {
                env_app_id(opt_text(steam_app_id_env))
            };
            &&& r.1 == id
            &&& r.0 == if id is Some {
                STATUS_OK
            } else {
                STATUS_BAD_REQUEST
            }
        }),
{
    let requested = match payload {
        Some(p) => p.app_id,
        None => None,
    };
    let id = match requested {
        Some(id) => Some(id),
        None => match steam_app_id_env {
            Some(v) => {
                let cs = chars_of(v);
                assert(cs@.subrange(0, cs.len() as int) =~= v@);
                match parse_u32_range(&cs, 0, cs.len()) {
                    Some(n) => if n != 0 {
                        Some(n)
                    } else {
                        None
                    },
                    None => None,
                }
            },
            None => None,
        },
    };
    match id {
        Some(_) => (STATUS_OK, id),
        None => (STATUS_BAD_REQUEST, None),
    }
}

/// The listing entry of a shortcut: its fields, and whether it is the
/// selected one.
pub open spec fn profile_of(s: SteamShortcut, selected_app_id: Option<u32>, p: SteamShortcutProfile) -> bool {
    &&& p.app_id == s.app_id
    &&& p.game_id == s.game_id
    &&& p.name == s.name
    &&& p.exe == s.exe
    &&& p.start_dir == s.start_dir
    &&& p.launch_options == s.launch_options
    &&& p.selected == (selected_app_id == Some(s.app_id))
}

/// Lists the Steam shortcuts: 409 when the shortcuts file was not found
/// (`shortcuts_path` is `None`), else the listing of `shortcuts`, in order,
/// each marked selected when its app id is the selected one.
pub fn get_steam_shortcuts(shortcuts_path: Option<String>, selected_app_id: Option<u32>, shortcuts: Vec<SteamShortcut>) -> (r: Result<SteamShortcutsResponse, u16>)
    ensures
        shortcuts_path is None ==> r == Err::<SteamShortcutsResponse, u16>(STATUS_CONFLICT),
        shortcuts_path matches Some(path) ==> r matches Ok(resp) && resp.shortcuts_path == path
            && resp.selected_app_id == selected_app_id && resp.shortcuts.len() == shortcuts.len()
            && forall|i: int|
            0 <= i < shortcuts.len() ==> #[trigger] profile_of(
                shortcuts@[i],
                selected_app_id,
                resp.shortcuts@[i],
            ),
{
    let path = match shortcuts_path {
        Some(p) => p,
        None => {
            return Err(STATUS_CONFLICT);
        },
    };
    let ghost src = shortcuts@;
    let mut out: Vec<SteamShortcutProfile> = Vec::new();
    let mut rest = shortcuts;
    let ghost n = rest.len();
    while rest.len() > 0
        invariant
            rest.len() <= n,
            src.len() == n,
            rest@ == src.subrange(n - rest.len(), n as int),
            out.len() == n - rest.len(),
            forall|i: int| 0 <= i < out.len() ==> #[trigger] profile_of(src[i], selected_app_id, out@[i]),
        decreases rest.len(),
    {
        let ghost before = rest@;
        let s = rest.remove(0);
        assert(s == src[n - before.len()]);
        assert(rest@ =~= src.subrange(n - rest.len(), n as int));
        let selected = match selected_app_id {
            Some(id) => id == s.app_id,
            None => false,
        };
        out.push(
            SteamShortcutProfile {
                app_id: s.app_id,
                game_id: s.game_id,
                name: s.name,
                exe: s.exe,
                start_dir: s.start_dir,
                launch_options: s.launch_options,
                selected,
            },
        );
    }
    Ok(SteamShortcutsResponse { shortcuts_path: path, selected_app_id, shortcuts: out })
}

/// Checks a launch request: 409 when the shortcuts file was not found
/// (`shortcuts` is `None`), 400 when no shortcut has the requested app id,
/// 200 (go ahead) otherwise.
pub fn launch_steam_shortcut_check(shortcuts: Option<&Vec<SteamShortcut>>, app_id: u32) -> (status: u16)
    ensures
        shortcuts is None ==> status == STATUS_CONFLICT,
        shortcuts matches Some(v) ==> status == if exists|i: int|
            0 <= i < v.len() && #[trigger] v@[i].app_id == app_id {
            STATUS_OK
        } else {
            STATUS_BAD_REQUEST
        },
{
    let v = match shortcuts {
        Some(v) => v,
        None => {
            return STATUS_CONFLICT;
        },
    };
    let mut i: usize = 0;
    while i < v.len()
        invariant
            i <= v.len(),
            shortcuts == Some(v),
            forall|j: int| 0 <= j < i ==> #[trigger] v@[j].app_id != app_id,
        decreases v.len() - i,
    {
        if v[i].app_id == app_id {
            return STATUS_OK;
        }
        i = i + 1;
    }
    STATUS_BAD_REQUEST
}

/// The Steam URL that launches the game `game_id`.
pub fn rungameid_url(game_id: u64) -> (r: String)
    ensures
        r@ == "steam://rungameid/"@ + decimal(game_id as nat),
{
    let mut r = String::from_str("steam://rungameid/");
    push_decimal(&mut r, game_id);
    r
}

/// The Steam install path that the `SteamPath` environment value gives:
/// the value itself, unless it is empty or only whitespace.
pub fn steam_path_from_env(value: Option<&str>) -> (r: Option<String>)
    ensures
        match value {
            Some(v) => if trim(v@).len() > 0 {
                r matches Some(p) && p@ == v@
            } else {
                r is None
            },
            None => r is None,
        },
{
    match value {
        Some(v) => {
            let cs = chars_of(v);
            assert(cs@.subrange(0, cs.len() as int) =~= v@);
            let (a, b) = trim_bounds(&cs, 0, cs.len());
            if a < b {
                Some(String::from_str(v))
            } else {
                None
            }
        },
        None => None,
    }
}

} // verus!
