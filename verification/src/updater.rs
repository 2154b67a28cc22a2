//! Update notifications: which release counts as an update, what the
//! update state reported to the UI is, the "remind later" and "skip this
//! version" choices, and the commands that install an update or open its
//! release page.
use vstd::prelude::*;
use crate::text::{opt_text, trim};
use crate::version::{newer, parse_version, release_version_label, version_label, version_of, Version};

verus! {

/// Which releases the user wants to be told about.
#[derive(Debug, Clone, Copy, PartialEq, Eq, Structural)]
pub enum UpdateNotify {
    Never,
    Stable,
    Prerelease,
}

/// A release as the GitHub releases API describes it.
pub struct GithubRelease {
    pub tag_name: String,
    pub name: Option<String>,
    pub prerelease: bool,
    pub html_url: String,
}

/// An update that was found: its version label, its release page and the
/// install channel its install script comes from.
pub struct UpdateInfo {
    pub version: String,
    pub html_url: String,
    pub install_channel: String,
}

/// What the updater holds while the program runs: the update found by the
/// last check, and the version the user asked to be reminded of later
/// (kept in memory only, so it is forgotten on restart).
pub struct UpdaterState {
    pub available_update: Option<UpdateInfo>,
    pub remind_later_version: Option<String>,
}

/// The update state reported to the UI.
pub struct UpdateStateResponse {
    pub update_available: bool,
    pub update_version: Option<String>,
    /// In-memory only: cleared on restart (remind later)
    pub dismissed: bool,
    /// Persisted: skip this version
    pub skipped: bool,
}

/// A program to start, with its arguments.
pub struct ProcessCommand {
    pub program: String,
    pub args: Vec<String>,
}

/// The texts of a sequence of strings.
pub open spec fn texts(v: Seq<String>) -> Seq<Seq<char>> {
    v.map_values(|a: String| a@)
}

/// The version text of a release: the release name for a prerelease that
/// has one, else its tag.
pub open spec fn release_source(r: GithubRelease) -> Seq<char> {
    if r.prerelease && r.name is Some {
        r.name->0@
    } else {
        r.tag_name@
    }
}

/// The install channel that an update found under `notify` is installed from.
pub open spec fn channel_for(notify: UpdateNotify) -> Seq<char> {
    if notify == UpdateNotify::Prerelease {
        "main"@
    } else {
        "stable"@
    }
}

/// The version that the user asked to be reminded of later is `ver`.
pub open spec fn remind_later_is(state: UpdaterState, ver: Seq<char>) -> bool {
    state.remind_later_version matches Some(v) && v@ == ver
}

/// The persisted skip file, with content `content` (`None` when there is no
/// such file or it cannot be read), skips `ver`.
pub open spec fn dismissed_by(content: Option<Seq<char>>, ver: Seq<char>) -> bool {
    content matches Some(c) && trim(c) == ver
}

/// The install channel of the available update, or `stable` when there is
/// none.
pub open spec fn current_channel(state: UpdaterState) -> Seq<char> {
    match state.available_update {
        Some(info) => info.install_channel@,
        None => "stable"@,
    }
}

/// The URL of the install script for `channel`.
pub open spec fn install_script_url(channel: Seq<char>, windows: bool) -> Seq<char> {
    "https://alia5.github.io/SISR/"@ + channel + (if windows {
        "/install.ps1"@
    } else {
        "/install.sh"@
    })
}

/// The command that runs the install script for `channel`: an elevated
/// PowerShell that pipes the script into `iex` on Windows, `curl | sh`
/// elsewhere.
pub open spec fn install_command_spec(channel: Seq<char>, windows: bool, cmd: ProcessCommand) -> bool {
    let url = install_script_url(channel, windows);
    if windows {
        &&& cmd.program@ == "powershell"@
        &&& texts(cmd.args@) == seq![
            "-NoProfile"@,
            "-ExecutionPolicy"@,
            "Bypass"@,
            "-Command"@,
            "Start-Process powershell -ArgumentList '-NoExit -NoProfile -ExecutionPolicy Bypass -Command \"iwr -useb "@
                + url + " | iex\"' -Verb RunAs"@,
        ]
    } else {
        &&& cmd.program@ == "sh"@
        &&& texts(cmd.args@) == seq!["-c"@, "curl -fsSL '"@ + url + "' | sh"@]
    }
}

/// Whether the user asked to be reminded later of `ver`.
pub fn is_remind_later(state: &UpdaterState, ver: &str) -> (r: bool)
    ensures
        r == remind_later_is(*state, ver@),
{
    match &state.remind_later_version {
        Some(v) => str_eq(v.as_str(), ver),
        None => false,
    }
}

/// Whether two texts are equal.
fn str_eq(a: &str, b: &str) -> (r: bool)
    ensures
        r == (a@ == b@),
{
    let ca = crate::text::chars_of(a);
    let cb = crate::text::chars_of(b);
    if ca.len() != cb.len() {
        return false;
    }
    let mut i: usize = 0;
    while i < ca.len()
        invariant
            ca@ == a@,
            cb@ == b@,
            ca.len() == cb.len(),
            i <= ca.len(),
            forall|j: int| 0 <= j < i ==> ca@[j] == cb@[j],
        decreases ca.len() - i,
    {
        if ca[i] != cb[i] {
            return false;
        }
        i = i + 1;
    }
    assert(ca@ =~= cb@);
    true
}

/// Whether the skip file, with content `content`, skips `ver`.
pub fn is_dismissed(content: Option<&str>, ver: &str) -> (r: bool)
    ensures
        r == dismissed_by(opt_text(content), ver@),
{
    match content {
        Some(c) => {
            let cs = crate::text::chars_of(c);
            let n = cs.len();
            assert(cs@.subrange(0, n as int) =~= c@);
            let (a, b) = crate::text::trim_bounds(&cs, 0, n);
            let t = crate::text::string_of(&cs, a, b);
            str_eq(t.as_str(), ver)
        },
        None => false,
    }
}

/// Remind later: remembers the available update's version, so that it is
/// reported as dismissed until the program restarts.
pub fn set_remind_later(state: &mut UpdaterState)
    ensures
        final(state).available_update == old(state).available_update,
        match old(state).available_update {
            Some(info) => final(state).remind_later_version == Some(info.version),
            None => final(state).remind_later_version == old(state).remind_later_version,
        },
{
    match &state.available_update {
        Some(info) => {
            let v = info.version.clone();
            state.remind_later_version = Some(v);
        },
        None => {},
    }
}

/// Forgets the version the user asked to be reminded of later.
pub fn clear_remind_later(state: &mut UpdaterState)
    ensures
        final(state).available_update == old(state).available_update,
        final(state).remind_later_version is None,
{
    state.remind_later_version = None;
}

/// Skip this version: the content to write to the skip file, which is the
/// available update's version (`None`, and nothing to write, when there is
/// no update).
pub fn write_skip(state: &UpdaterState) -> (r: Option<String>)
    ensures
        match state.available_update {
            Some(info) => r matches Some(c) && c@ == info.version@,
            None => r is None,
        },
{
    match &state.available_update {
        Some(info) => Some(info.version.clone()),
        None => None,
    }
}

/// The update state reported to the UI, given the content of the skip file.
pub fn get_update_state(state: &UpdaterState, skip_file: Option<&str>) -> (r: UpdateStateResponse)
    ensures
        match state.available_update {
            None => !r.update_available && r.update_version is None && !r.dismissed && !r.skipped,
            Some(info) => {
                &&& r.update_available
                &&& r.update_version matches Some(v) && v@ == info.version@
                &&& r.dismissed == remind_later_is(*state, info.version@)
                &&& r.skipped == dismissed_by(opt_text(skip_file), info.version@)
            },
        },
{
    match &state.available_update {
        None => UpdateStateResponse {
            update_available: false,
            update_version: None,
            dismissed: false,
            skipped: false,
        },
        Some(info) => UpdateStateResponse {
            update_available: true,
            update_version: Some(info.version.clone()),
            dismissed: is_remind_later(state, info.version.as_str()),
            skipped: is_dismissed(skip_file, info.version.as_str()),
        },
    }
}

/// Whether the user should be told about `ver`: it is neither skipped nor
/// put off until later.
pub fn should_notify(state: &UpdaterState, skip_file: Option<&str>, ver: &str) -> (r: bool)
    ensures
        r == (!dismissed_by(opt_text(skip_file), ver@) && !remind_later_is(*state, ver@)),
{
    !is_dismissed(skip_file, ver) && !is_remind_later(state, ver)
}

/// The command that runs the install script for `channel`.
pub fn install_script_command(channel: &str, windows: bool) -> (cmd: ProcessCommand)
    ensures
        install_command_spec(channel@, windows, cmd),
{
    let mut url = String::from_str("https://alia5.github.io/SISR/");
    url.append(channel);
    if windows {
        url.append("/install.ps1");
        let mut script = String::from_str(
            "Start-Process powershell -ArgumentList '-NoExit -NoProfile -ExecutionPolicy Bypass -Command \"iwr -useb ",
        );
        script.append(url.as_str());
        script.append(" | iex\"' -Verb RunAs");
        let args = vec![
            String::from_str("-NoProfile"),
            String::from_str("-ExecutionPolicy"),
            String::from_str("Bypass"),
            String::from_str("-Command"),
            script,
        ];
        let cmd = ProcessCommand { program: String::from_str("powershell"), args };
        assert(texts(cmd.args@) =~= seq![
            "-NoProfile"@,
            "-ExecutionPolicy"@,
            "Bypass"@,
            "-Command"@,
            "Start-Process powershell -ArgumentList '-NoExit -NoProfile -ExecutionPolicy Bypass -Command \"iwr -useb "@
                + install_script_url(channel@, windows) + " | iex\"' -Verb RunAs"@,
        ]);
        cmd
    } else {
        url.append("/install.sh");
        let mut script = String::from_str("curl -fsSL '");
        script.append(url.as_str());
        script.append("' | sh");
        let args = vec![String::from_str("-c"), script];
        let cmd = ProcessCommand { program: String::from_str("sh"), args };
        assert(texts(cmd.args@) =~= seq!["-c"@, "curl -fsSL '"@ + install_script_url(channel@, windows) + "' | sh"@]);
        cmd
    }
}

/// The install script is the one of the given channel, on every platform:
/// the SISR site, then the channel, then `/install.ps1` on Windows or
/// `/install.sh` elsewhere. The channel can be read back from the URL, so
/// two different channels never run the same script.
pub proof fn install_script_follows_the_channel(channel: Seq<char>, other: Seq<char>, windows: bool)
    ensures
        ({
            let site = "https://alia5.github.io/SISR/"@;
            let ext = if windows {
                "/install.ps1"@
            } else {
                "/install.sh"@
            };
            let url = install_script_url(channel, windows);
            &&& url == site + channel + ext
            &&& url.subrange(site.len() as int, url.len() - ext.len()) == channel
            &&& install_script_url(other, windows) == url ==> other == channel
        }),
{
    let site = "https://alia5.github.io/SISR/"@;
    let ext = if windows {
        "/install.ps1"@
    } else {
        "/install.sh"@
    };
    let url = install_script_url(channel, windows);
    let url2 = install_script_url(other, windows);
    assert(url.subrange(site.len() as int, url.len() - ext.len()) =~= channel);
    assert(url2.subrange(site.len() as int, url2.len() - ext.len()) =~= other);
}

/// The install command runs the script of the given channel: on Windows an
/// elevated PowerShell that pipes `<site><channel>/install.ps1` into `iex`,
/// elsewhere `sh -c` with `curl` of `<site><channel>/install.sh` piped into
/// `sh`.
pub proof fn install_command_runs_the_channel_script(channel: Seq<char>, windows: bool, cmd: ProcessCommand)
    requires
        install_command_spec(channel, windows, cmd),
    ensures
        windows ==> cmd.program@ == "powershell"@ && texts(cmd.args@).len() == 5 && texts(cmd.args@)[4]
            == "Start-Process powershell -ArgumentList '-NoExit -NoProfile -ExecutionPolicy Bypass -Command \"iwr -useb https://alia5.github.io/SISR/"@
            + channel + "/install.ps1 | iex\"' -Verb RunAs"@,
        !windows ==> cmd.program@ == "sh"@ && texts(cmd.args@) == seq![
            "-c"@,
            "curl -fsSL 'https://alia5.github.io/SISR/"@ + channel + "/install.sh' | sh"@,
        ],
{
    if windows {
        assert(("Start-Process powershell -ArgumentList '-NoExit -NoProfile -ExecutionPolicy Bypass -Command \"iwr -useb "@
            + ("https://alia5.github.io/SISR/"@ + channel + "/install.ps1"@) + " | iex\"' -Verb RunAs"@)
            =~= ("Start-Process powershell -ArgumentList '-NoExit -NoProfile -ExecutionPolicy Bypass -Command \"iwr -useb https://alia5.github.io/SISR/"@
            + channel + "/install.ps1 | iex\"' -Verb RunAs"@)) by {
            reveal_strlit("Start-Process powershell -ArgumentList '-NoExit -NoProfile -ExecutionPolicy Bypass -Command \"iwr -useb ");
            reveal_strlit("https://alia5.github.io/SISR/");
            reveal_strlit("/install.ps1");
            reveal_strlit(" | iex\"' -Verb RunAs");
            reveal_strlit("Start-Process powershell -ArgumentList '-NoExit -NoProfile -ExecutionPolicy Bypass -Command \"iwr -useb https://alia5.github.io/SISR/");
            reveal_strlit("/install.ps1 | iex\"' -Verb RunAs");
        }
    } else {
        assert(("curl -fsSL '"@ + ("https://alia5.github.io/SISR/"@ + channel + "/install.sh"@) + "' | sh"@)
            =~= ("curl -fsSL 'https://alia5.github.io/SISR/"@ + channel + "/install.sh' | sh"@)) by {
            reveal_strlit("curl -fsSL '");
            reveal_strlit("https://alia5.github.io/SISR/");
            reveal_strlit("/install.sh");
            reveal_strlit("' | sh");
            reveal_strlit("curl -fsSL 'https://alia5.github.io/SISR/");
            reveal_strlit("/install.sh' | sh");
        }
    }
}

/// An update found while following prereleases installs from the `main`
/// channel, any other from `stable`; and the version of a release is read
/// from the name of a named prerelease, from the tag otherwise.
pub proof fn updates_install_from_their_channel(notify: UpdateNotify, r: GithubRelease)
    ensures
        notify == UpdateNotify::Prerelease ==> channel_for(notify) == "main"@,
        notify != UpdateNotify::Prerelease ==> channel_for(notify) == "stable"@,
        r.prerelease && r.name is Some ==> release_source(r) == r.name.unwrap()@,
        !(r.prerelease && r.name is Some) ==> release_source(r) == r.tag_name@,
{
}

/// Install update: the command that runs the install script of the
/// available update's channel (`stable` when no update is known).
pub fn run_install_script(state: &UpdaterState, windows: bool) -> (cmd: ProcessCommand)
    ensures
        install_command_spec(current_channel(*state), windows, cmd),
{
    match &state.available_update {
        Some(info) => install_script_command(info.install_channel.as_str(), windows),
        None => install_script_command("stable", windows),
    }
}

/// View on GitHub: the command that opens the available update's release
/// page in the default browser (`None` when there is no update).
pub fn open_in_browser(state: &UpdaterState, windows: bool) -> (cmd: Option<ProcessCommand>)
    ensures
        match state.available_update {
            None => cmd is None,
            Some(info) => cmd matches Some(c) && if windows {
                c.program@ == "cmd"@ && texts(c.args@) == seq!["/c"@, "start"@, info.html_url@]
            } else {
                c.program@ == "xdg-open"@ && texts(c.args@) == seq![info.html_url@]
            },
        },
{
    match &state.available_update {
        None => None,
        Some(info) => {
            let url = info.html_url.clone();
            if windows {
                let c = ProcessCommand {
                    program: String::from_str("cmd"),
                    args: vec![String::from_str("/c"), String::from_str("start"), url],
                };
                assert(texts(c.args@) =~= seq!["/c"@, "start"@, info.html_url@]);
                Some(c)
            } else {
                let c = ProcessCommand { program: String::from_str("xdg-open"), args: vec![url] };
                assert(texts(c.args@) =~= seq![info.html_url@]);
                Some(c)
            }
        },
    }
}

/// The GitHub API address that an update check under `notify` asks: the
/// newest release of any kind for prereleases, the latest stable release
/// otherwise.
pub fn release_api_url(notify: UpdateNotify) -> (r: &'static str)
    ensures
        notify == UpdateNotify::Prerelease ==> r@ == "https://api.github.com/repos/Alia5/SISR/releases?per_page=1"@,
        notify != UpdateNotify::Prerelease ==> r@ == "https://api.github.com/repos/Alia5/SISR/releases/latest"@,
{
    if notify == UpdateNotify::Prerelease {
        "https://api.github.com/repos/Alia5/SISR/releases?per_page=1"
    } else {
        "https://api.github.com/repos/Alia5/SISR/releases/latest"
    }
}

/// The update channel that the config file's `update_notify` text names:
/// `none` turns notifications off, `prerelease` follows prereleases, and
/// anything else, or no setting, means stable releases.
pub fn update_notify_from_config(name: Option<&str>) -> (r: UpdateNotify)
    ensures
        r == match name {
            Some(n) => if n@ == "none"@ {
                UpdateNotify::Never
            } else if n@ == "prerelease"@ {
                UpdateNotify::Prerelease
            } else {
                UpdateNotify::Stable
            },
            None => UpdateNotify::Stable,
        },
{
    match name {
        Some(n) => if str_eq(n, "none") {
            UpdateNotify::Never
        } else if str_eq(n, "prerelease") {
            UpdateNotify::Prerelease
        } else {
            UpdateNotify::Stable
        },
        None => UpdateNotify::Stable,
    }
}

/// The first step of an update check: the running version, when update
/// notifications are on and the running version string parses; `None` ends
/// the check without asking GitHub.
pub fn check_current_version(notify: UpdateNotify, current: &str) -> (r: Option<Version>)
    ensures
        notify == UpdateNotify::Never ==> r is None,
        notify != UpdateNotify::Never ==> r == version_of(current@),
{
    if notify == UpdateNotify::Never {
        return None;
    }
    parse_version(current)
}

/// The version text of a release: the release name for a prerelease that
/// has one, else its tag.
pub fn release_version_source(release: &GithubRelease) -> (r: &str)
    ensures
        r@ == release_source(*release),
{
    if release.prerelease {
        match &release.name {
            Some(n) => n.as_str(),
            None => release.tag_name.as_str(),
        }
    } else {
        release.tag_name.as_str()
    }
}

/// The last step of an update check: when the fetched release is newer than
/// the running version `current`, records it as the available update and
/// returns its version label; otherwise changes nothing and returns `None`.
pub fn record_release(
    state: &mut UpdaterState,
    notify: UpdateNotify,
    current: &Version,
    release: &GithubRelease,
) -> (r: Option<String>)
    ensures
        final(state).remind_later_version == old(state).remind_later_version,
        ({
            let src = release_source(*release);
            match version_of(src) {
                Some(remote) if newer(remote, *current) => {
                    &&& r matches Some(v) && v@ == version_label(src)
                    &&& final(state).available_update matches Some(info) && info.version@
                        == version_label(src) && info.html_url@ == release.html_url@
                        && info.install_channel@ == channel_for(notify)
                },
                _ => r is None && final(state).available_update == old(state).available_update,
            }
        }),
{
    let source = release_version_source(release);
    let remote = match parse_version(source) {
        Some(v) => v,
        None => {
            return None;
        },
    };
    if !remote.is_newer_than(current) {
        return None;
    }
    let version = release_version_label(source);
    let install_channel = if notify == UpdateNotify::Prerelease {
        String::from_str("main")
    } else {
        String::from_str("stable")
    };
    let label = version.clone();
    state.available_update = Some(
        UpdateInfo { version, html_url: release.html_url.clone(), install_channel },
    );
    Some(label)
}

/// "Remind later" puts off the available update: afterwards it is
/// reported as dismissed and the user is not told about it, until
/// "clear" forgets the choice.
pub proof fn remind_later_puts_off_update(before: UpdaterState, after: UpdaterState, info: UpdateInfo, skip_file: Option<Seq<char>>)
    requires
        before.available_update == Some(info),
        after.available_update == before.available_update,
        after.remind_later_version == Some(info.version),
    ensures
        remind_later_is(after, info.version@),
        !(!dismissed_by(skip_file, info.version@) && !remind_later_is(after, info.version@)),
{
}

/// After "clear", no version is put off until later.
pub proof fn cleared_remind_later_reminds_nothing(after: UpdaterState, ver: Seq<char>)
    requires
        after.remind_later_version is None,
    ensures
        !remind_later_is(after, ver),
{
}

/// "Skip this version" skips the update that a check found: the version
/// label recorded by a check is written to the skip file, and a skip file
/// holding that text skips that version.
pub proof fn skipped_version_is_dismissed(source: Seq<char>, written: Seq<char>)
    requires
        written == version_label(source),
    ensures
        dismissed_by(Some(written), version_label(source)),
{
    crate::version::version_label_is_trimmed(source);
}

/// A check records an update only when the release is newer than the
/// running version, and then the recorded label reads back as that newer
/// release version when the release's version text has no surrounding
/// whitespace.
pub proof fn recorded_update_is_newer(current: Version, source: Seq<char>)
    requires
        version_of(source) matches Some(remote) && newer(remote, current),
        trim(source) == source,
    ensures
        version_of(version_label(source)) == version_of(source),
        version_of(version_label(source)) matches Some(v) && newer(v, current),
{
    crate::version::version_label_parses_as_source(source);
}

} // verus!
