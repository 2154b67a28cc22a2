//! Restarting Steam: the sequence of steps that asks Steam to exit, waits
//! for it to go away, starts it again, waits for a user to be logged in,
//! reloads the Steam overlay into this process when it was not launched by
//! Steam, and finally schedules a restart of this program. The steps are a
//! state machine: each call decides the next outside action from the answer
//! to the previous one.
use vstd::prelude::*;
use crate::text::{decimal, decimal_string};
use crate::updater::{texts, ProcessCommand};

verus! {

/// How many times the restart looks whether Steam has exited.
pub const EXIT_POLLS: u32 = 10;

/// How many times the restart looks whether Steam is up with a user logged in.
pub const LOGIN_POLLS: u32 = 19990;

/// A Steam URL that the restart opens.
#[derive(Debug, Clone, Copy, PartialEq, Eq, Structural)]
pub enum SteamUrl {
    /// `steam://exit`
    Exit,
    /// `steam://open/main`
    OpenMain,
}

/// The outside work that the restart asks for next.
#[derive(Debug, Clone, Copy, PartialEq, Eq, Structural)]
pub enum RestartAction {
    /// Find out whether Steam is running; answer with `SteamRunning`.
    QuerySteamRunning,
    /// Open a Steam URL; answer with `Done`, or `UrlFailed` when it could
    /// not be opened.
    OpenUrl(SteamUrl),
    /// Sleep this many milliseconds; answer with `Done`.
    Sleep(u64),
    /// Find out whether Steam runs and which user is logged in; answer with
    /// `LoginState`.
    QueryLogin,
    /// Find out whether this program was launched by Steam and whether the
    /// config turns Steam off; answer with `OverlayPolicy`.
    QueryOverlayPolicy,
    /// Remove the HID detours (64-bit Windows); answer with `Done`.
    UnhookHid,
    /// Unload the Steam overlay from this process; answer with `Done`.
    UnloadSteamOverlay,
    /// Record the exports of the HID library; answer with `Done`.
    EnumerateHidExports,
    /// Set the marker environment that the Steam overlay looks for; answer
    /// with `MarkerEnvSet`.
    SetMarkerSteamEnv,
    /// Load the Steam overlay into this process; answer with `Done`.
    LoadSteamOverlay,
    /// Detect HID hooks that Steam put in and put ours back (64-bit
    /// Windows); answer with `Done`.
    RehookHid,
    /// Schedule this program to start again once it has exited, and shut it
    /// down shortly; answer with `Done`.
    ScheduleSelfRestart,
    /// The restart is over; the request is answered with 200 OK.
    Finish,
    /// Steam could not be started again; the request is answered with 500
    /// and the error.
    Fail,
}

/// The answer to the last action.
#[derive(Debug, Clone, Copy, PartialEq, Eq, Structural)]
pub enum RestartEvent {
    /// Begins the restart.
    Start,
    /// The action is done.
    Done,
    /// The Steam URL could not be opened.
    UrlFailed,
    SteamRunning(bool),
    LoginState { steam_running: bool, active_user: Option<u32> },
    OverlayPolicy { launched_via_steam: bool, no_steam: Option<bool> },
    MarkerEnvSet(bool),
}

/// Where the restart stands; each phase waits for the answer to one action.
#[derive(Debug, Clone, Copy, PartialEq, Eq, Structural)]
pub enum RestartPhase {
    NotStarted,
    CheckRunning,
    ExitRequested,
    /// Waiting for the `polls`-th look at whether Steam has exited (from 0).
    ExitPoll { polls: u32 },
    ExitSleep { polls: u32 },
    OpenMainRequested,
    LoginPoll { polls: u32 },
    LoginSleep { polls: u32 },
    Settling,
    PolicyCheck,
    Unhooking,
    Unloading,
    UnloadSettling,
    Enumerating,
    SettingMarker,
    Loading,
    Rehooking,
    SchedulingRestart,
    Finished,
    /// Steam could not be started again.
    Failed,
}

/// A restart of Steam in progress.
#[derive(Debug, Clone, Copy, PartialEq, Eq, Structural)]
pub struct RestartSteam {
    pub phase: RestartPhase,
    /// Restart this program once Steam is back.
    pub restart_sisr_after: bool,
    /// The HID detour steps apply (64-bit Windows).
    pub hid_hooks: bool,
}

/// The action that a phase waits on.
pub open spec fn pending(phase: RestartPhase) -> RestartAction {
    match phase {
        RestartPhase::NotStarted => RestartAction::QuerySteamRunning,
        RestartPhase::CheckRunning => RestartAction::QuerySteamRunning,
        RestartPhase::ExitRequested => RestartAction::OpenUrl(SteamUrl::Exit),
        RestartPhase::ExitPoll { .. } => RestartAction::QuerySteamRunning,
        RestartPhase::ExitSleep { .. } => RestartAction::Sleep(5000),
        RestartPhase::OpenMainRequested => RestartAction::OpenUrl(SteamUrl::OpenMain),
        RestartPhase::LoginPoll { .. } => RestartAction::QueryLogin,
        RestartPhase::LoginSleep { .. } => RestartAction::Sleep(1000),
        RestartPhase::Settling => RestartAction::Sleep(5000),
        RestartPhase::PolicyCheck => RestartAction::QueryOverlayPolicy,
        RestartPhase::Unhooking => RestartAction::UnhookHid,
        RestartPhase::Unloading => RestartAction::UnloadSteamOverlay,
        RestartPhase::UnloadSettling => RestartAction::Sleep(1000),
        RestartPhase::Enumerating => RestartAction::EnumerateHidExports,
        RestartPhase::SettingMarker => RestartAction::SetMarkerSteamEnv,
        RestartPhase::Loading => RestartAction::LoadSteamOverlay,
        RestartPhase::Rehooking => RestartAction::RehookHid,
        RestartPhase::SchedulingRestart => RestartAction::ScheduleSelfRestart,
        RestartPhase::Finished => RestartAction::Finish,
        RestartPhase::Failed => RestartAction::Fail,
    }
}

/// The phase after the overlay has been dealt with.
pub open spec fn after_overlay(m: RestartSteam) -> RestartPhase {
    if m.hid_hooks {
        RestartPhase::Rehooking
    } else {
        finish_phase(m)
    }
}

/// The last phase: scheduling the restart of this program when asked for.
pub open spec fn finish_phase(m: RestartSteam) -> RestartPhase {
    if m.restart_sisr_after {
        RestartPhase::SchedulingRestart
    } else {
        RestartPhase::Finished
    }
}

/// Whether `ev` answers the action that `phase` waits on.
pub open spec fn answers(phase: RestartPhase, ev: RestartEvent) -> bool {
    match pending(phase) {
        RestartAction::QuerySteamRunning => if phase is NotStarted {
            ev is Start
        } else {
            ev is SteamRunning
        },
        RestartAction::QueryLogin => ev is LoginState,
        RestartAction::QueryOverlayPolicy => ev is OverlayPolicy,
        RestartAction::SetMarkerSteamEnv => ev is MarkerEnvSet,
        RestartAction::OpenUrl(_) => ev is Done || ev is UrlFailed,
        RestartAction::Finish => false,
        RestartAction::Fail => false,
        _ => ev is Done,
    }
}

/// The phase that follows `m.phase` on the answer `ev` (which answers it).
pub open spec fn next_phase(m: RestartSteam, ev: RestartEvent) -> RestartPhase {
    match m.phase {
        RestartPhase::NotStarted => RestartPhase::CheckRunning,
        RestartPhase::CheckRunning => if ev == RestartEvent::SteamRunning(true) {
            RestartPhase::ExitRequested
        } else {
            RestartPhase::OpenMainRequested
        },
        RestartPhase::ExitRequested => RestartPhase::ExitPoll { polls: 0 },
        RestartPhase::ExitPoll { polls } => if ev == RestartEvent::SteamRunning(true) {
            RestartPhase::ExitSleep { polls }
        } else {
            RestartPhase::OpenMainRequested
        },
        RestartPhase::ExitSleep { polls } => if polls + 1 < EXIT_POLLS {
            RestartPhase::ExitPoll { polls: (polls + 1) as u32 }
        } else {
            RestartPhase::OpenMainRequested
        },
        RestartPhase::OpenMainRequested => if ev == RestartEvent::UrlFailed {
            RestartPhase::Failed
        } else {
            RestartPhase::LoginPoll { polls: 0 }
        },
        RestartPhase::LoginPoll { polls } => match ev {
            RestartEvent::LoginState { steam_running, active_user } => if steam_running
                && (active_user matches Some(id) && id != 0) {
                RestartPhase::Settling
            } else {
                RestartPhase::LoginSleep { polls }
            },
            _ => m.phase,
        },
        RestartPhase::LoginSleep { polls } => if polls + 1 < LOGIN_POLLS {
            RestartPhase::LoginPoll { polls: (polls + 1) as u32 }
        } else {
            RestartPhase::Settling
        },
        RestartPhase::Settling => RestartPhase::PolicyCheck,
        RestartPhase::PolicyCheck => match ev {
            RestartEvent::OverlayPolicy { launched_via_steam, no_steam } => if !launched_via_steam
                && !(no_steam == Some(true)) {
                if m.hid_hooks {
                    RestartPhase::Unhooking
                } else {
                    RestartPhase::Unloading
                }
            } else {
                finish_phase(m)
            },
            _ => m.phase,
        },
        RestartPhase::Unhooking => RestartPhase::Unloading,
        RestartPhase::Unloading => RestartPhase::UnloadSettling,
        RestartPhase::UnloadSettling => RestartPhase::Enumerating,
        RestartPhase::Enumerating => RestartPhase::SettingMarker,
        RestartPhase::SettingMarker => if ev == RestartEvent::MarkerEnvSet(true) {
            RestartPhase::Loading
        } else {
            after_overlay(m)
        },
        RestartPhase::Loading => after_overlay(m),
        RestartPhase::Rehooking => finish_phase(m),
        RestartPhase::SchedulingRestart => RestartPhase::Finished,
        RestartPhase::Finished => RestartPhase::Finished,
        RestartPhase::Failed => RestartPhase::Failed,
    }
}

/// How many answered actions, at most, are left before the restart ends.
pub open spec fn steps_left(phase: RestartPhase) -> nat {
    let tail: nat = 12;
    match phase {
        RestartPhase::NotStarted => 2 * (EXIT_POLLS as nat) + 2 * (LOGIN_POLLS as nat) + tail + 5,
        RestartPhase::CheckRunning => 2 * (EXIT_POLLS as nat) + 2 * (LOGIN_POLLS as nat) + tail + 4,
        RestartPhase::ExitRequested => 2 * (EXIT_POLLS as nat) + 2 * (LOGIN_POLLS as nat) + tail + 3,
        RestartPhase::ExitPoll { polls } => 2 * ((EXIT_POLLS - polls) as nat) + 2 * (
        LOGIN_POLLS as nat) + tail + 2,
        RestartPhase::ExitSleep { polls } => 2 * ((EXIT_POLLS - polls) as nat) + 2 * (
        LOGIN_POLLS as nat) + tail + 1,
        RestartPhase::OpenMainRequested => 2 * (LOGIN_POLLS as nat) + tail + 2,
        RestartPhase::LoginPoll { polls } => 2 * ((LOGIN_POLLS - polls) as nat) + tail + 1,
        RestartPhase::LoginSleep { polls } => 2 * ((LOGIN_POLLS - polls) as nat) + tail,
        RestartPhase::Settling => 11,
        RestartPhase::PolicyCheck => 10,
        RestartPhase::Unhooking => 9,
        RestartPhase::Unloading => 8,
        RestartPhase::UnloadSettling => 7,
        RestartPhase::Enumerating => 6,
        RestartPhase::SettingMarker => 5,
        RestartPhase::Loading => 4,
        RestartPhase::Rehooking => 2,
        RestartPhase::SchedulingRestart => 1,
        RestartPhase::Finished => 0,
        RestartPhase::Failed => 0,
    }
}

/// The poll counters stay within their limits.
pub open spec fn phase_ok(phase: RestartPhase) -> bool {
    match phase {
        RestartPhase::ExitPoll { polls } => polls < EXIT_POLLS,
        RestartPhase::ExitSleep { polls } => polls < EXIT_POLLS,
        RestartPhase::LoginPoll { polls } => polls < LOGIN_POLLS,
        RestartPhase::LoginSleep { polls } => polls < LOGIN_POLLS,
        _ => true,
    }
}

impl RestartSteam {
    /// A restart that has not begun; it begins with the event `Start`.
    pub fn new(restart_sisr_after: bool, hid_hooks: bool) -> (m: RestartSteam)
        ensures
            m.phase == RestartPhase::NotStarted,
            m.restart_sisr_after == restart_sisr_after,
            m.hid_hooks == hid_hooks,
    {
        RestartSteam { phase: RestartPhase::NotStarted, restart_sisr_after, hid_hooks }
    }

    fn finish(&self) -> (p: RestartPhase)
        ensures
            p == finish_phase(*self),
    {
        if self.restart_sisr_after {
            RestartPhase::SchedulingRestart
        } else {
            RestartPhase::Finished
        }
    }

    fn after_overlay(&self) -> (p: RestartPhase)
        ensures
            p == after_overlay(*self),
    {
        if self.hid_hooks {
            RestartPhase::Rehooking
        } else {
            self.finish()
        }
    }

    fn answers(&self, ev: RestartEvent) -> (b: bool)
        ensures
            b == answers(self.phase, ev),
    {
        match self.phase {
            RestartPhase::NotStarted => matches!(ev, RestartEvent::Start),
            RestartPhase::CheckRunning | RestartPhase::ExitPoll { .. } => matches!(
                ev,
                RestartEvent::SteamRunning(_)
            ),
            RestartPhase::LoginPoll { .. } => matches!(ev, RestartEvent::LoginState { .. }),
            RestartPhase::PolicyCheck => matches!(ev, RestartEvent::OverlayPolicy { .. }),
            RestartPhase::SettingMarker => matches!(ev, RestartEvent::MarkerEnvSet(_)),
            RestartPhase::ExitRequested | RestartPhase::OpenMainRequested => matches!(
                ev,
                RestartEvent::Done | RestartEvent::UrlFailed
            ),
            RestartPhase::Finished | RestartPhase::Failed => false,
            _ => matches!(ev, RestartEvent::Done),
        }
    }

    /// Takes the answer to the pending action and returns the next action.
    /// An event that does not answer the pending action changes nothing and
    /// the pending action is asked for again.
    pub fn step(&mut self, ev: RestartEvent) -> (a: RestartAction)
        requires
            phase_ok(old(self).phase),
        ensures
            final(self).restart_sisr_after == old(self).restart_sisr_after,
            final(self).hid_hooks == old(self).hid_hooks,
            phase_ok(final(self).phase),
            answers(old(self).phase, ev) ==> final(self).phase == next_phase(*old(self), ev),
            !answers(old(self).phase, ev) ==> final(self).phase == old(self).phase,
            a == pending(final(self).phase),
    {
        if !self.answers(ev) {
            return self.pending();
        }
        let next = match self.phase {
            RestartPhase::NotStarted => RestartPhase::CheckRunning,
            RestartPhase::CheckRunning => if ev == RestartEvent::SteamRunning(true) {
                RestartPhase::ExitRequested
            } else {
                RestartPhase::OpenMainRequested
            },
            RestartPhase::ExitRequested => RestartPhase::ExitPoll { polls: 0 },
            RestartPhase::ExitPoll { polls } => if ev == RestartEvent::SteamRunning(true) {
                RestartPhase::ExitSleep { polls }
            } else {
                RestartPhase::OpenMainRequested
            },
            RestartPhase::ExitSleep { polls } => if polls + 1 < EXIT_POLLS {
                RestartPhase::ExitPoll { polls: polls + 1 }
            } else {
                RestartPhase::OpenMainRequested
            },
            RestartPhase::OpenMainRequested => if ev == RestartEvent::UrlFailed {
                RestartPhase::Failed
            } else {
                RestartPhase::LoginPoll { polls: 0 }
            },
            RestartPhase::LoginPoll { polls } => match ev {
                RestartEvent::LoginState { steam_running, active_user } => {
                    let logged_in = match active_user {
                        Some(id) => id != 0,
                        None => false,
                    };
                    if steam_running && logged_in {
                        RestartPhase::Settling
                    } else {
                        RestartPhase::LoginSleep { polls }
                    }
                },
                _ => self.phase,
            },
            RestartPhase::LoginSleep { polls } => if polls + 1 < LOGIN_POLLS {
                RestartPhase::LoginPoll { polls: polls + 1 }
            } else {
                RestartPhase::Settling
            },
            RestartPhase::Settling => RestartPhase::PolicyCheck,
            RestartPhase::PolicyCheck => match ev {
                RestartEvent::OverlayPolicy { launched_via_steam, no_steam } => {
                    let steam_off = match no_steam {
                        Some(b) => b,
                        None => false,
                    };
                    if !launched_via_steam && !steam_off {
                        if self.hid_hooks {
                            RestartPhase::Unhooking
                        } else {
                            RestartPhase::Unloading
                        }
                    } else {
                        self.finish()
                    }
                },
                _ => self.phase,
            },
            RestartPhase::Unhooking => RestartPhase::Unloading,
            RestartPhase::Unloading => RestartPhase::UnloadSettling,
            RestartPhase::UnloadSettling => RestartPhase::Enumerating,
            RestartPhase::Enumerating => RestartPhase::SettingMarker,
            RestartPhase::SettingMarker => if ev == RestartEvent::MarkerEnvSet(true) {
                RestartPhase::Loading
            } else {
                self.after_overlay()
            },
            RestartPhase::Loading => self.after_overlay(),
            RestartPhase::Rehooking => self.finish(),
            RestartPhase::SchedulingRestart => RestartPhase::Finished,
            RestartPhase::Finished => RestartPhase::Finished,
            RestartPhase::Failed => RestartPhase::Failed,
        };
        self.phase = next;
        self.pending()
    }

    /// The action that the restart waits on.
    pub fn pending(&self) -> (a: RestartAction)
        ensures
            a == pending(self.phase),
    {
        match self.phase {
            RestartPhase::NotStarted => RestartAction::QuerySteamRunning,
            RestartPhase::CheckRunning => RestartAction::QuerySteamRunning,
            RestartPhase::ExitRequested => RestartAction::OpenUrl(SteamUrl::Exit),
            RestartPhase::ExitPoll { .. } => RestartAction::QuerySteamRunning,
            RestartPhase::ExitSleep { .. } => RestartAction::Sleep(5000),
            RestartPhase::OpenMainRequested => RestartAction::OpenUrl(SteamUrl::OpenMain),
            RestartPhase::LoginPoll { .. } => RestartAction::QueryLogin,
            RestartPhase::LoginSleep { .. } => RestartAction::Sleep(1000),
            RestartPhase::Settling => RestartAction::Sleep(5000),
            RestartPhase::PolicyCheck => RestartAction::QueryOverlayPolicy,
            RestartPhase::Unhooking => RestartAction::UnhookHid,
            RestartPhase::Unloading => RestartAction::UnloadSteamOverlay,
            RestartPhase::UnloadSettling => RestartAction::Sleep(1000),
            RestartPhase::Enumerating => RestartAction::EnumerateHidExports,
            RestartPhase::SettingMarker => RestartAction::SetMarkerSteamEnv,
            RestartPhase::Loading => RestartAction::LoadSteamOverlay,
            RestartPhase::Rehooking => RestartAction::RehookHid,
            RestartPhase::SchedulingRestart => RestartAction::ScheduleSelfRestart,
            RestartPhase::Finished => RestartAction::Finish,
            RestartPhase::Failed => RestartAction::Fail,
        }
    }
}

/// The restart always ends: every answered action strictly lowers the
/// number of steps left, so at most `steps_left(NotStarted)` answers (ten
/// looks for Steam's exit, 19990 looks for a login, and a fixed number of
/// other steps) bring it from its start to `Finish`.
pub proof fn restart_always_finishes(m: RestartSteam, ev: RestartEvent)
    requires
        phase_ok(m.phase),
        answers(m.phase, ev),
    ensures
        steps_left(next_phase(m, ev)) < steps_left(m.phase),
        phase_ok(next_phase(m, ev)),
{
}

/// The finished restart asks for nothing more: `Finish` is its only action
/// and no answer moves it; the same holds of a failed one with `Fail`.
pub proof fn finished_restart_stays_finished(m: RestartSteam, ev: RestartEvent)
    requires
        m.phase == RestartPhase::Finished || m.phase == RestartPhase::Failed,
    ensures
        m.phase == RestartPhase::Finished ==> pending(m.phase) == RestartAction::Finish,
        m.phase == RestartPhase::Failed ==> pending(m.phase) == RestartAction::Fail,
        !answers(m.phase, ev),
{
}

/// When Steam cannot be started again the restart ends at once with a
/// failure (the request is answered with 500); a failure to ask Steam to
/// exit is passed over. `Fail` comes from nothing else.
pub proof fn failed_start_fails_the_restart(m: RestartSteam, ev: RestartEvent)
    requires
        answers(m.phase, ev),
    ensures
        m.phase == RestartPhase::OpenMainRequested && ev == RestartEvent::UrlFailed ==> next_phase(m, ev)
            == RestartPhase::Failed,
        m.phase == RestartPhase::ExitRequested ==> next_phase(m, ev) == (RestartPhase::ExitPoll { polls: 0 }),
        next_phase(m, ev) == RestartPhase::Failed ==> m.phase == RestartPhase::OpenMainRequested && ev
            == RestartEvent::UrlFailed,
{
}

/// The wait for a login ends only when Steam runs with a user logged in
/// (a user id that is present and not 0): an answer without Steam running,
/// or without such a user, keeps waiting (sleep, then ask again), and an
/// answer with both goes on to let Steam settle.
pub proof fn login_wait_ends_only_with_a_logged_in_user(
    m: RestartSteam,
    steam_running: bool,
    active_user: Option<u32>,
)
    requires
        m.phase is LoginPoll,
    ensures
        ({
            let ev = RestartEvent::LoginState { steam_running, active_user };
            let polls = m.phase->LoginPoll_polls;
            let logged_in = steam_running && active_user is Some && active_user.unwrap() != 0;
            &&& answers(m.phase, ev)
            &&& !logged_in ==> next_phase(m, ev) == (RestartPhase::LoginSleep { polls })
            &&& !logged_in ==> pending(next_phase(m, ev)) == RestartAction::Sleep(1000)
            &&& logged_in ==> next_phase(m, ev) == RestartPhase::Settling
        }),
{
}

/// Steam is asked to exit only when it runs, and started again once it is
/// seen stopped: a running Steam gets `steam://exit` and is then looked at
/// again after five seconds; a Steam that is not running is opened with
/// `steam://open/main` at once.
pub proof fn steam_is_stopped_before_it_is_started(m: RestartSteam, running: bool)
    requires
        m.phase is CheckRunning || m.phase is ExitPoll,
        phase_ok(m.phase),
    ensures
        ({
            let ev = RestartEvent::SteamRunning(running);
            let next = pending(next_phase(m, ev));
            &&& answers(m.phase, ev)
            &&& !running ==> next == RestartAction::OpenUrl(SteamUrl::OpenMain)
            &&& running && m.phase is CheckRunning ==> next == RestartAction::OpenUrl(SteamUrl::Exit)
            &&& running && m.phase is ExitPoll ==> next == RestartAction::Sleep(5000)
        }),
{
}

/// The Steam overlay is reloaded into this program only when it was not
/// launched by Steam and the config does not turn Steam off; otherwise the
/// restart goes straight to its end. The overlay is loaded only when the
/// marker environment was set.
pub proof fn overlay_reloaded_only_when_needed(m: RestartSteam, launched_via_steam: bool, no_steam: Option<bool>, marker_set: bool)
    ensures
        ({
            let ev = RestartEvent::OverlayPolicy { launched_via_steam, no_steam };
            let reload = !launched_via_steam && no_steam != Some(true);
            let end = if m.restart_sisr_after {
                RestartAction::ScheduleSelfRestart
            } else {
                RestartAction::Finish
            };
            let pm = RestartSteam { phase: RestartPhase::PolicyCheck, ..m };
            let mm = RestartSteam { phase: RestartPhase::SettingMarker, ..m };
            let after_marker = pending(next_phase(mm, RestartEvent::MarkerEnvSet(marker_set)));
            &&& reload && m.hid_hooks ==> pending(next_phase(pm, ev)) == RestartAction::UnhookHid
            &&& reload && !m.hid_hooks ==> pending(next_phase(pm, ev)) == RestartAction::UnloadSteamOverlay
            &&& !reload ==> pending(next_phase(pm, ev)) == end
            &&& marker_set ==> after_marker == RestartAction::LoadSteamOverlay
            &&& !marker_set && m.hid_hooks ==> after_marker == RestartAction::RehookHid
            &&& !marker_set && !m.hid_hooks ==> after_marker == end
        }),
{
}

/// The restart reaches its end through the restart of this program exactly
/// when it was asked for: the phase before `Finished` is
/// `SchedulingRestart` when `restart_sisr_after` holds, and
/// `SchedulingRestart` is never reached otherwise.
pub proof fn self_restart_only_when_asked(m: RestartSteam, ev: RestartEvent)
    requires
        answers(m.phase, ev),
        m.phase != RestartPhase::SchedulingRestart,
    ensures
        next_phase(m, ev) == RestartPhase::Finished ==> !m.restart_sisr_after,
        next_phase(m, ev) == RestartPhase::SchedulingRestart ==> m.restart_sisr_after,
{
}

/// `s` with every `'` doubled, as a PowerShell single-quoted string needs.
pub open spec fn ps_escape(s: Seq<char>) -> Seq<char>
    decreases s.len(),
{
    if s.len() == 0 {
        Seq::empty()
    } else {
        let rest = ps_escape(s.subrange(0, s.len() - 1));
        if s[s.len() - 1] == '\'' {
            rest + seq!['\'', '\'']
        } else {
            rest.push(s[s.len() - 1])
        }
    }
}

/// `s` as a PowerShell single-quoted string literal.
pub open spec fn ps_quoted(s: Seq<char>) -> Seq<char> {
    seq!['\''] + ps_escape(s) + seq!['\'']
}

/// The quoted arguments joined by `, `.
pub open spec fn ps_joined(args: Seq<Seq<char>>) -> Seq<char>
    decreases args.len(),
{
    if args.len() == 0 {
        Seq::empty()
    } else if args.len() == 1 {
        ps_quoted(args[0])
    } else {
        ps_joined(args.subrange(0, args.len() - 1)) + ", "@ + ps_quoted(args[args.len() - 1])
    }
}

/// The PowerShell array literal of the arguments.
pub open spec fn ps_arg_list(args: Seq<Seq<char>>) -> Seq<char> {
    if args.len() == 0 {
        "@()"@
    } else {
        "@("@ + ps_joined(args) + ")"@
    }
}

/// Quotes `s` for PowerShell: in single quotes, with each `'` doubled.
pub fn ps_quote(s: &str) -> (r: String)
    ensures
        r@ == ps_quoted(s@),
{
    let cs = crate::text::chars_of(s);
    let mut r = String::new();
    crate::text::push_char(&mut r, '\'');
    let mut i: usize = 0;
    while i < cs.len()
        invariant
            i <= cs.len(),
            cs@ == s@,
            r@ == seq!['\''] + ps_escape(cs@.subrange(0, i as int)),
        decreases cs.len() - i,
    {
        let c = cs[i];
        let ghost p = cs@.subrange(0, i + 1);
        assert(p.subrange(0, p.len() - 1) =~= cs@.subrange(0, i as int));
        crate::text::push_char(&mut r, c);
        if c == '\'' {
            crate::text::push_char(&mut r, '\'');
        }
        assert(r@ =~= seq!['\''] + ps_escape(p));
        i = i + 1;
    }
    assert(cs@.subrange(0, cs.len() as int) =~= s@);
    crate::text::push_char(&mut r, '\'');
    assert(r@ =~= ps_quoted(s@));
    r
}

/// The PowerShell array literal of `args`, each quoted.
pub fn ps_arg_list_of(args: &Vec<String>) -> (r: String)
    ensures
        r@ == ps_arg_list(texts(args@)),
{
    if args.len() == 0 {
        return String::from_str("@()");
    }
    let mut r = String::from_str("@(");
    let ghost a = texts(args@);
    let mut i: usize = 0;
    while i < args.len()
        invariant
            0 <= i <= args.len(),
            args.len() > 0,
            a == texts(args@),
            r@ == "@("@ + ps_joined(a.subrange(0, i as int)),
        decreases args.len() - i,
    {
        let q = ps_quote(args[i].as_str());
        let ghost p = a.subrange(0, i + 1);
        assert(p.subrange(0, p.len() - 1) =~= a.subrange(0, i as int));
        if i > 0 {
            r.append(", ");
        } else {
            assert(a.subrange(0, 0) =~= Seq::<Seq<char>>::empty());
        }
        r.append(q.as_str());
        assert(r@ =~= "@("@ + ps_joined(p));
        i = i + 1;
    }
    assert(a.subrange(0, args.len() as int) =~= a);
    r.append(")");
    r
}

/// The shell script that waits for process `$1` to exit and then runs the
/// rest of its arguments.
pub open spec fn wait_then_exec_script() -> Seq<char> {
    "while kill -0 \"$1\" 2>/dev/null; do sleep 0.2; done; shift; exec \"$@\""@
}

/// The command that restarts this program (process `pid`, executable `exe`,
/// arguments `args`) once it has exited: a hidden PowerShell loop on
/// Windows, a `sh` loop elsewhere.
pub open spec fn self_restart_command_spec(
    windows: bool,
    pid: u32,
    exe: Seq<char>,
    args: Seq<Seq<char>>,
    cmd: ProcessCommand,
) -> bool {
    if windows {
        &&& cmd.program@ == "powershell"@
        &&& texts(cmd.args@) == seq![
            "-NoProfile"@,
            "-NonInteractive"@,
            "-WindowStyle"@,
            "Hidden"@,
            "-Command"@,
            "& { while (Get-Process -Id "@ + decimal(pid as nat)
                + " -ErrorAction SilentlyContinue) { Start-Sleep -Milliseconds 200 }; Start-Process -FilePath "@
                + ps_quoted(exe) + " -ArgumentList "@ + ps_arg_list(args) + " }"@,
        ]
    } else {
        &&& cmd.program@ == "sh"@
        &&& texts(cmd.args@) == seq!["-lc"@, wait_then_exec_script(), "restart_sisr"@, decimal(pid as nat), exe]
            + args
    }
}

/// The command that restarts this program once it has exited.
pub fn self_restart_command(windows: bool, pid: u32, exe: &str, args: &Vec<String>) -> (cmd: ProcessCommand)
    ensures
        self_restart_command_spec(windows, pid, exe@, texts(args@), cmd),
{
    if windows {
        let mut c = String::from_str("& { while (Get-Process -Id ");
        let pid_text = decimal_string(pid as u64);
        c.append(pid_text.as_str());
        c.append(" -ErrorAction SilentlyContinue) { Start-Sleep -Milliseconds 200 }; Start-Process -FilePath ");
        let q = ps_quote(exe);
        c.append(q.as_str());
        c.append(" -ArgumentList ");
        let l = ps_arg_list_of(args);
        c.append(l.as_str());
        c.append(" }");
        let cmd = ProcessCommand {
            program: String::from_str("powershell"),
            args: vec![
                String::from_str("-NoProfile"),
                String::from_str("-NonInteractive"),
                String::from_str("-WindowStyle"),
                String::from_str("Hidden"),
                String::from_str("-Command"),
                c,
            ],
        };
        assert(texts(cmd.args@) =~= seq![
            "-NoProfile"@,
            "-NonInteractive"@,
            "-WindowStyle"@,
            "Hidden"@,
            "-Command"@,
            "& { while (Get-Process -Id "@ + decimal(pid as nat)
                + " -ErrorAction SilentlyContinue) { Start-Sleep -Milliseconds 200 }; Start-Process -FilePath "@
                + ps_quoted(exe@) + " -ArgumentList "@ + ps_arg_list(texts(args@)) + " }"@,
        ]);
        cmd
    } else {
        let mut v: Vec<String> = vec![
            String::from_str("-lc"),
            String::from_str("while kill -0 \"$1\" 2>/dev/null; do sleep 0.2; done; shift; exec \"$@\""),
            String::from_str("restart_sisr"),
            decimal_string(pid as u64),
            String::from_str(exe),
        ];
        let ghost fixed = texts(v@);
        let mut i: usize = 0;
        while i < args.len()
            invariant
                i <= args.len(),
                texts(v@) == fixed + texts(args@).subrange(0, i as int),
            decreases args.len() - i,
        {
            let ghost old_v = v@;
            let a = args[i].clone();
            v.push(a);
            assert(v@ == old_v.push(args@[i as int]));
            assert(texts(v@) =~= texts(old_v).push(args@[i as int]@));
            assert(texts(v@) =~= fixed + texts(args@).subrange(0, i + 1));
            i = i + 1;
        }
        assert(texts(args@).subrange(0, args.len() as int) =~= texts(args@));
        let cmd = ProcessCommand { program: String::from_str("sh"), args: v };
        assert(fixed =~= seq!["-lc"@, wait_then_exec_script(), "restart_sisr"@, decimal(pid as nat), exe@]);
        cmd
    }
}

} // verus!
