//! Auto-start on login, by way of a systemd user unit. "Login" is the graphical
//! one: the unit is wanted by the default target of the user's own instance.

use vstd::prelude::*;

use crate::path;
use crate::text;

verus! {

/// The systemd user unit.
pub const UNIT_NAME: &'static str = "lindiction.service";

/// What `systemctl --user is-enabled` says of the unit.
#[derive(Debug, Clone, PartialEq, Eq)]
pub enum Status {
    /// The daemon starts on login.
    Enabled,
    /// The unit is installed but does not start on login.
    Disabled,
    /// No unit can be loaded.
    NotInstalled,
    /// There is no `systemctl`.
    SystemctlMissing,
    /// Anything else, as `systemctl` put it.
    Other(String),
}

impl Status {
    /// What to tell the user.
    pub open spec fn text(self) -> Seq<char> {
        match self {
            Status::Enabled => "enabled — lindiction will start automatically on login"@,
            Status::Disabled => "disabled — lindiction will not start automatically"@,
            Status::NotInstalled => "not installed — "@ + UNIT_NAME@
                + " was not found in any systemd search path"@,
            Status::SystemctlMissing => "systemctl not found on PATH; cannot manage autostart"@,
            Status::Other(s) => "unexpected state: "@ + s@,
        }
    }

    /// Whether the daemon starts on login.
    pub fn is_enabled(&self) -> (r: bool)
        ensures
            r == (self is Enabled),
    {
        matches!(self, Status::Enabled)
    }

    /// Human-friendly one-liner for the terminal and for tool-tips.
    pub fn describe(&self) -> (r: String)
        ensures
            r@ == self.text(),
    {
        match self {
            Status::Enabled => "enabled — lindiction will start automatically on login".to_owned(),
            Status::Disabled => "disabled — lindiction will not start automatically".to_owned(),
            Status::NotInstalled => text::concat3(
                "not installed — ",
                UNIT_NAME,
                " was not found in any systemd search path",
            ),
            Status::SystemctlMissing =>
                "systemctl not found on PATH; cannot manage autostart".to_owned(),
            Status::Other(s) => text::concat2("unexpected state: ", s.as_str()),
        }
    }
}

/// Whether an error output says that the unit was not found.
pub open spec fn says_missing(stderr: Seq<char>) -> bool {
    ||| text::has_infix(stderr, "No such file"@)
    ||| text::has_infix(stderr, "not found"@)
    ||| text::has_infix(stderr, "Failed to get unit file state"@)
}

/// Whether `s` is what the given output of `systemctl is-enabled` means.
pub open spec fn is_status(
    s: Status,
    stdout: Seq<char>,
    stderr: Seq<char>,
    success: bool,
) -> bool {
    if stdout == "enabled"@ || stdout == "enabled-runtime"@ {
        s is Enabled
    } else if stdout == "disabled"@ {
        s is Disabled
    } else if stdout.len() > 0 {
        s matches Status::Other(t) && t@ == stdout
    } else if says_missing(stderr) {
        s is NotInstalled
    } else if success {
        s matches Status::Other(t) && t@.len() == 0
    } else {
        s matches Status::Other(t) && t@ == stderr
    }
}

/// What the trimmed output of `systemctl is-enabled` means. The exit code alone
/// does not tell: it is an error for everything that is not enabled.
pub fn parse_is_enabled_output(stdout: &str, stderr: &str, success: bool) -> (r: Status)
    ensures
        is_status(r, stdout@, stderr@, success),
{
    proof {
        reveal_strlit("enabled");
        reveal_strlit("enabled-runtime");
        reveal_strlit("disabled");
    }
    if text::same(stdout, "enabled") || text::same(stdout, "enabled-runtime") {
        Status::Enabled
    } else if text::same(stdout, "disabled") {
        Status::Disabled
    } else if !stdout.is_empty() {
        Status::Other(stdout.to_owned())
    } else if text::contains(stderr, "No such file") || text::contains(stderr, "not found")
        || text::contains(stderr, "Failed to get unit file state") {
        Status::NotInstalled
    } else if success {
        Status::Other(String::new())
    } else {
        Status::Other(stderr.to_owned())
    }
}

/// How a command ended.
#[derive(Debug)]
pub struct CommandOutput {
    pub stdout: String,
    pub stderr: String,
    pub success: bool,
}

/// Whether auto-start can be managed: `systemctl` is there, and the user's
/// instance answered.
pub fn is_supported(systemctl_found: bool, answered: Option<bool>) -> (r: bool)
    ensures
        r == (systemctl_found && answered == Some(true)),
{
    systemctl_found && match answered {
        Some(ok) => ok,
        None => false,
    }
}

/// The state of the unit, from the output of `systemctl is-enabled` where it
/// could be run.
pub fn status(systemctl_found: bool, output: Option<CommandOutput>) -> (r: Status)
    ensures
        if systemctl_found && output is Some {
            is_status(
                r,
                text::trimmed(output->0.stdout@),
                text::trimmed(output->0.stderr@),
                output->0.success,
            )
        } else {
            r is SystemctlMissing
        },
{
    if !systemctl_found {
        return Status::SystemctlMissing;
    }
    match output {
        Some(out) => {
            let stdout = text::trim(out.stdout.as_str());
            let stderr = text::trim(out.stderr.as_str());
            parse_is_enabled_output(stdout.as_str(), stderr.as_str(), out.success)
        },
        None => Status::SystemctlMissing,
    }
}

/// A command for the user's systemd instance.
#[derive(Debug, Clone, Copy, PartialEq, Eq)]
pub enum Verb {
    Enable,
    Disable,
    DaemonReload,
}

impl Verb {
    /// The arguments of `systemctl`.
    pub open spec fn words(self) -> Seq<Seq<char>> {
        match self {
            Verb::Enable => seq!["--user"@, "enable"@, UNIT_NAME@],
            Verb::Disable => seq!["--user"@, "disable"@, UNIT_NAME@],
            Verb::DaemonReload => seq!["--user"@, "daemon-reload"@],
        }
    }

    /// The command line.
    pub open spec fn line(self) -> Seq<char> {
        match self {
            Verb::Enable => "systemctl --user enable "@ + UNIT_NAME@,
            Verb::Disable => "systemctl --user disable "@ + UNIT_NAME@,
            Verb::DaemonReload => "systemctl --user daemon-reload"@,
        }
    }

    /// The arguments of `systemctl`.
    pub fn args(self) -> (r: Vec<String>)
        ensures
            text::texts(r@) == self.words(),
    {
        let args: Vec<String> = match self {
            Verb::Enable => vec!["--user".to_owned(), "enable".to_owned(), UNIT_NAME.to_owned()],
            Verb::Disable => vec!["--user".to_owned(), "disable".to_owned(), UNIT_NAME.to_owned()],
            Verb::DaemonReload => vec!["--user".to_owned(), "daemon-reload".to_owned()],
        };
        assert(text::texts(args@) =~= self.words());
        args
    }

    /// The command line.
    pub fn command(self) -> (r: String)
        ensures
            r@ == self.line(),
    {
        match self {
            Verb::Enable => text::concat2("systemctl --user enable ", UNIT_NAME),
            Verb::Disable => text::concat2("systemctl --user disable ", UNIT_NAME),
            Verb::DaemonReload => "systemctl --user daemon-reload".to_owned(),
        }
    }

    /// Judge how the command ended.
    pub fn finish(self, success: bool, stderr: &str) -> (r: Result<(), AutostartError>)
        ensures
            match r {
                Ok(_) => success,
                Err(e) => !success && (e matches AutostartError::CommandFailed { verb, stderr: s }
                    && verb == self && s@ == text::trimmed(stderr@)),
            },
    {
        if success {
            Ok(())
        } else {
            Err(AutostartError::CommandFailed { verb: self, stderr: text::trim(stderr) })
        }
    }
}

/// Why auto-start could not be changed.
#[derive(Debug)]
pub enum AutostartError {
    /// There is no `systemctl`.
    SystemctlMissing,
    /// The user has no configuration directory.
    NoConfigDir,
    /// A unit file is there, but systemd does not load it.
    Unloadable { path: String },
    /// The path of the running binary is unknown.
    NoExecutable { detail: String },
    /// `systemctl` failed.
    CommandFailed { verb: Verb, stderr: String },
}

impl AutostartError {
    /// The message for this error.
    pub open spec fn text(self) -> Seq<char> {
        match self {
            AutostartError::SystemctlMissing =>
                "systemctl not found on PATH; cannot manage autostart"@,
            AutostartError::NoConfigDir =>
                "could not resolve XDG config directory for systemd user unit"@,
            AutostartError::Unloadable { path } => "unit file exists at "@ + path@
                + " but systemd can't load it — check its contents or run `systemctl --user daemon-reload`"@,
            AutostartError::NoExecutable { detail } => "determining current executable path: "@
                + detail@,
            AutostartError::CommandFailed { verb, stderr } => verb.line() + " failed: "@ + stderr@,
        }
    }

    /// The message for this error.
    pub fn message(&self) -> (r: String)
        ensures
            r@ == self.text(),
    {
        match self {
            AutostartError::SystemctlMissing =>
                "systemctl not found on PATH; cannot manage autostart".to_owned(),
            AutostartError::NoConfigDir =>
                "could not resolve XDG config directory for systemd user unit".to_owned(),
            AutostartError::Unloadable { path } => text::concat3(
                "unit file exists at ",
                path.as_str(),
                " but systemd can't load it — check its contents or run `systemctl --user daemon-reload`",
            ),
            AutostartError::NoExecutable { detail } => text::concat2(
                "determining current executable path: ",
                detail.as_str(),
            ),
            AutostartError::CommandFailed { verb, stderr } => {
                let line = verb.command();
                text::concat3(line.as_str(), " failed: ", stderr.as_str())
            },
        }
    }
}

/// Auto-start cannot be managed without `systemctl`.
pub fn ensure_systemctl(found: bool) -> (r: Result<(), AutostartError>)
    ensures
        match r {
            Ok(_) => found,
            Err(e) => !found && e is SystemctlMissing,
        },
{
    if found {
        Ok(())
    } else {
        Err(AutostartError::SystemctlMissing)
    }
}

/// A unit file to be written, and never over an existing file.
#[derive(Debug)]
pub struct UnitFile {
    pub path: String,
    pub contents: String,
}

/// The unit for the binary at `exe`.
pub open spec fn unit_text(exe: Seq<char>) -> Seq<char> {
    "[Unit]\nDescription=Lindiction voice dictation\nAfter=graphical-session.target sound.target\nPartOf=graphical-session.target\n\n[Service]\nType=simple\nExecStart="@
        + exe
        + "\nRestart=on-failure\nRestartSec=3\nEnvironment=RUST_LOG=lindiction=info\n\n[Install]\nWantedBy=default.target\n"@
}

/// The unit for the binary at `exe`.
pub fn generate_unit_contents(exe: &str) -> (r: String)
    ensures
        r@ == unit_text(exe@),
{
    text::concat3(
        "[Unit]\nDescription=Lindiction voice dictation\nAfter=graphical-session.target sound.target\nPartOf=graphical-session.target\n\n[Service]\nType=simple\nExecStart=",
        exe,
        "\nRestart=on-failure\nRestartSec=3\nEnvironment=RUST_LOG=lindiction=info\n\n[Install]\nWantedBy=default.target\n",
    )
}

/// Where the user's own unit file goes, in the configuration directory.
pub fn user_unit_path(config_dir: Option<&str>) -> (r: Option<String>)
    ensures
        match config_dir {
            Some(dir) => r matches Some(p) && p@ == path::joined(
                path::joined(path::joined(dir@, "systemd"@), "user"@),
                UNIT_NAME@,
            ),
            None => r is None,
        },
{
    match config_dir {
        Some(dir) => {
            let systemd = path::join(dir, "systemd");
            let user = path::join(systemd.as_str(), "user");
            Some(path::join(user.as_str(), UNIT_NAME))
        },
        None => None,
    }
}

/// See to it that systemd can load the unit: where one is loadable already,
/// nothing is to be done; else a unit file for the running binary is to be
/// written, unless there is a file already that the user may be editing.
pub fn ensure_unit_loadable(
    status: &Status,
    unit_path: Option<&str>,
    present: bool,
    exe: Result<String, String>,
) -> (r: Result<Option<UnitFile>, AutostartError>)
    ensures
        if !(status is NotInstalled) {
            r matches Ok(None)
        } else if unit_path is None {
            r matches Err(AutostartError::NoConfigDir)
        } else if present {
            r matches Err(AutostartError::Unloadable { path }) && path@ == unit_path->0@
        } else {
            match exe {
                Err(why) => r matches Err(AutostartError::NoExecutable { detail }) && detail@
                    == why@,
                Ok(exe) => r matches Ok(Some(unit)) && unit.path@ == unit_path->0@
                    && unit.contents@ == unit_text(exe@),
            }
        },
{
    if !matches!(status, Status::NotInstalled) {
        return Ok(None);
    }
    let path = match unit_path {
        Some(path) => path,
        None => {
            return Err(AutostartError::NoConfigDir);
        },
    };
    if present {
        return Err(AutostartError::Unloadable { path: path.to_owned() });
    }
    match exe {
        Ok(exe) => Ok(
            Some(
                UnitFile {
                    path: path.to_owned(),
                    contents: generate_unit_contents(exe.as_str()),
                },
            ),
        ),
        Err(detail) => Err(AutostartError::NoExecutable { detail }),
    }
}

/// One step of switching auto-start on or off. Where a step fails, the ones
/// after it are not taken.
#[derive(Debug)]
pub enum Step {
    /// Write a unit file, never over an existing file.
    Write(UnitFile),
    /// Run `systemctl`.
    Run(Verb),
}

/// A step by what it does.
#[verifier::ext_equal]
pub enum Deed {
    /// Write to a path the unit for a binary.
    Write(Seq<char>, Seq<char>),
    Run(Verb),
}

impl View for Step {
    type V = Deed;

    open spec fn view(&self) -> Deed {
        match *self {
            Step::Write(unit) => Deed::Write(unit.path@, unit.contents@),
            Step::Run(verb) => Deed::Run(verb),
        }
    }
}

/// Steps by what they do.
pub open spec fn deeds(steps: Seq<Step>) -> Seq<Deed> {
    steps.map_values(|s: Step| s@)
}

/// What switching auto-start on takes: the command for it, after writing a unit
/// and having it read where none is installed.
pub open spec fn enabling(status: Status, unit_path: Seq<char>, exe: Seq<char>) -> Seq<Deed> {
    if status is NotInstalled {
        seq![
            Deed::Write(unit_path, unit_text(exe)),
            Deed::Run(Verb::DaemonReload),
            Deed::Run(Verb::Enable),
        ]
    } else {
        seq![Deed::Run(Verb::Enable)]
    }
}

/// Switch auto-start on: the steps to take. Where systemd cannot load the unit,
/// a unit file for the running binary is generated, so that it works for builds
/// from source too.
pub fn enable(
    systemctl_found: bool,
    status: &Status,
    unit_path: Option<&str>,
    present: bool,
    exe: Result<String, String>,
) -> (r: Result<Vec<Step>, AutostartError>)
    ensures
        if !systemctl_found {
            r matches Err(AutostartError::SystemctlMissing)
        } else if !(status is NotInstalled) {
            r matches Ok(steps) && deeds(steps@) == seq![Deed::Run(Verb::Enable)]
        } else if unit_path is None {
            r matches Err(AutostartError::NoConfigDir)
        } else if present {
            r matches Err(AutostartError::Unloadable { path }) && path@ == unit_path->0@
        } else {
            match exe {
                Err(why) => r matches Err(AutostartError::NoExecutable { detail }) && detail@
                    == why@,
                Ok(exe) => r matches Ok(steps) && deeds(steps@) == enabling(
                    *status,
                    unit_path->0@,
                    exe@,
                ),
            }
        },
{
    match ensure_systemctl(systemctl_found) {
        Ok(_) => {},
        Err(e) => {
            return Err(e);
        },
    }
    let unit = match ensure_unit_loadable(status, unit_path, present, exe) {
        Ok(unit) => unit,
        Err(e) => {
            return Err(e);
        },
    };
    let mut steps: Vec<Step> = Vec::new();
    match unit {
        Some(unit) => {
            steps.push(Step::Write(unit));
            steps.push(Step::Run(Verb::DaemonReload));
        },
        None => {},
    }
    steps.push(Step::Run(Verb::Enable));
    Ok(steps)
}

/// Switch auto-start off: the steps to take. Where no unit is installed it is
/// off already.
pub fn disable(systemctl_found: bool, status: &Status) -> (r: Result<Vec<Step>, AutostartError>)
    ensures
        if !systemctl_found {
            r matches Err(AutostartError::SystemctlMissing)
        } else if status is NotInstalled {
            r matches Ok(steps) && steps@.len() == 0
        } else {
            r matches Ok(steps) && deeds(steps@) == seq![Deed::Run(Verb::Disable)]
        },
{
    match ensure_systemctl(systemctl_found) {
        Ok(_) => {},
        Err(e) => {
            return Err(e);
        },
    }
    let mut steps: Vec<Step> = Vec::new();
    if !matches!(status, Status::NotInstalled) {
        steps.push(Step::Run(Verb::Disable));
    }
    Ok(steps)
}

/// A unit that systemd can load already is enabled as it is, with nothing
/// written; and switching on always ends with the command for it.
pub proof fn loadable_units_are_kept(status: Status, unit_path: Seq<char>, exe: Seq<char>)
    ensures
        !(status is NotInstalled) ==> enabling(status, unit_path, exe) == seq![
            Deed::Run(Verb::Enable),
        ],
        enabling(status, unit_path, exe).last() == Deed::Run(Verb::Enable),
{
}

// ---------------------------------------------------------------------------
// Laws
// ---------------------------------------------------------------------------

/// What `systemctl` says and what it means, both ways: the unit starts on login
/// exactly where it is said to be enabled, does not exactly where it is said to be
/// disabled, and is not installed exactly where nothing is said but one of the three
/// complaints; everything else is passed on word for word.
pub proof fn answers_are_understood(stdout: &str, stderr: &str, success: bool, r: Status)
    requires
        call_ensures(parse_is_enabled_output, (stdout, stderr, success), r),
    ensures
        r is Enabled <==> stdout@ == "enabled"@ || stdout@ == "enabled-runtime"@,
        r is Disabled <==> stdout@ == "disabled"@,
        r is NotInstalled <==> stdout@.len() == 0 && (text::has_infix(stderr@, "No such file"@)
            || text::has_infix(stderr@, "not found"@) || text::has_infix(
            stderr@,
            "Failed to get unit file state"@,
        )),
        !(r is SystemctlMissing),
        r matches Status::Other(t) ==> t@ == if stdout@.len() > 0 {
            stdout@
        } else if success {
            Seq::empty()
        } else {
            stderr@
        },
{
    reveal_strlit("enabled");
    reveal_strlit("enabled-runtime");
    reveal_strlit("disabled");
    assert("enabled"@.len() == 7 && "enabled-runtime"@.len() == 15 && "disabled"@.len() == 8);
}

/// White space round the answer does not matter, and without `systemctl` or without
/// an answer of it nothing is known.
pub proof fn answers_are_trimmed(found: bool, out: CommandOutput, r: Status, none: Status)
    requires
        call_ensures(status, (found, Some(out)), r),
        call_ensures(status, (found, None::<CommandOutput>), none),
    ensures
        none is SystemctlMissing,
        r is SystemctlMissing <==> !found,
        found ==> (r is Enabled <==> text::trimmed(out.stdout@) == "enabled"@ || text::trimmed(
            out.stdout@,
        ) == "enabled-runtime"@),
        found ==> (r is Disabled <==> text::trimmed(out.stdout@) == "disabled"@),
{
    reveal_strlit("enabled");
    reveal_strlit("enabled-runtime");
    reveal_strlit("disabled");
    assert("enabled"@.len() == 7 && "enabled-runtime"@.len() == 15 && "disabled"@.len() == 8);
}

/// The command line of a verb is `systemctl` and its arguments with spaces between
/// them; each verb has its own word, and only reloading names no unit.
pub proof fn verbs_are_commands(verb: Verb)
    ensures
        verb.line() == text::glued(seq!["systemctl"@] + verb.words(), ' '),
        verb.words()[0] == "--user"@,
        verb.words()[1] == match verb {
            Verb::Enable => "enable"@,
            Verb::Disable => "disable"@,
            Verb::DaemonReload => "daemon-reload"@,
        },
        verb is DaemonReload ==> verb.words().len() == 2,
        !(verb is DaemonReload) ==> verb.words().len() == 3 && verb.words()[2]
            == "lindiction.service"@,
{
    reveal_strlit("systemctl");
    reveal_strlit("--user");
    reveal_strlit("enable");
    reveal_strlit("disable");
    reveal_strlit("daemon-reload");
    reveal_strlit("systemctl --user enable ");
    reveal_strlit("systemctl --user disable ");
    reveal_strlit("systemctl --user daemon-reload");
    let all = seq!["systemctl"@] + verb.words();
    assert(all.drop_last().drop_last() =~= seq!["systemctl"@, "--user"@].take(all.len() - 2));
    reveal_with_fuel(text::glued, 4);
    assert(all[0] == "systemctl"@ && all[1] == "--user"@);
    assert(verb.line() =~= text::glued(all, ' '));
}

/// A unit starts the binary it was made for, again after a failure, and on login:
/// the line that starts it holds the binary's path as it is, and units for different
/// binaries differ.
pub proof fn units_start_their_binary(a: Seq<char>, b: Seq<char>)
    ensures
        text::has_infix(unit_text(a), "\n[Service]\nType=simple\nExecStart="@ + a + "\n"@),
        "[Unit]\nDescription=Lindiction voice dictation\n"@.is_prefix_of(unit_text(a)),
        "\nRestart=on-failure\nRestartSec=3\nEnvironment=RUST_LOG=lindiction=info\n\n[Install]\nWantedBy=default.target\n"@.is_suffix_of(
            unit_text(a),
        ),
        unit_text(a) == unit_text(b) ==> a == b,
{
    reveal_strlit("\n[Service]\nType=simple\nExecStart=");
    reveal_strlit("\n");
    reveal_strlit("[Unit]\nDescription=Lindiction voice dictation\n");
    reveal_strlit(
        "[Unit]\nDescription=Lindiction voice dictation\nAfter=graphical-session.target sound.target\nPartOf=graphical-session.target\n\n[Service]\nType=simple\nExecStart=",
    );
    reveal_strlit(
        "\nRestart=on-failure\nRestartSec=3\nEnvironment=RUST_LOG=lindiction=info\n\n[Install]\nWantedBy=default.target\n",
    );
    let head =
        "[Unit]\nDescription=Lindiction voice dictation\nAfter=graphical-session.target sound.target\nPartOf=graphical-session.target\n\n[Service]\nType=simple\nExecStart="@;
    let tail =
        "\nRestart=on-failure\nRestartSec=3\nEnvironment=RUST_LOG=lindiction=info\n\n[Install]\nWantedBy=default.target\n"@;
    let unit = unit_text(a);
    let line = "\n[Service]\nType=simple\nExecStart="@ + a + "\n"@;
    let at = head.len() - "\n[Service]\nType=simple\nExecStart="@.len();
    assert(unit.subrange(at, at + line.len()) =~= line);
    assert(text::occurs_at(unit, line, at));
    let start = "[Unit]\nDescription=Lindiction voice dictation\n"@;
    assert(unit.subrange(0, start.len() as int) =~= start);
    assert(unit.subrange(unit.len() - tail.len(), unit.len() as int) =~= tail);
    if unit_text(a) == unit_text(b) {
        let other = unit_text(b);
        assert(unit.subrange(head.len() as int, unit.len() - tail.len()) =~= a);
        assert(other.subrange(head.len() as int, other.len() - tail.len()) =~= b);
    }
}

/// The user's own unit lies in `systemd/user` of the configuration directory.
pub proof fn units_live_in_the_config_directory(
    dir: &str,
    r: Option<String>,
    none: Option<String>,
)
    requires
        call_ensures(user_unit_path, (Some(dir),), r),
        call_ensures(user_unit_path, (None::<&str>,), none),
        dir@.len() > 0,
        dir@[dir@.len() - 1] != '/',
    ensures
        r matches Some(p) && p@ == dir@ + "/systemd/user/lindiction.service"@,
        none is None,
{
    reveal_strlit("/");
    reveal_strlit("systemd");
    reveal_strlit("user");
    reveal_strlit("lindiction.service");
    reveal_strlit("/systemd/user/lindiction.service");
    let systemd = path::joined(dir@, "systemd"@);
    assert(systemd =~= dir@ + "/"@ + "systemd"@);
    assert(systemd.last() == 'd');
    let user = path::joined(systemd, "user"@);
    assert(user =~= systemd + "/"@ + "user"@);
    assert(user.last() == 'r');
    assert(path::joined(user, UNIT_NAME@) =~= dir@ + "/systemd/user/lindiction.service"@);
}

/// Switching on: the last step is the command for it, and the command to switch off
/// is never among them; a file is written exactly where no unit is installed, only
/// where there is no file yet, to the user's path and for the running binary, and
/// systemd reads it before the unit is enabled.
pub proof fn switching_on(
    found: bool,
    status: Status,
    unit_path: Option<&str>,
    present: bool,
    exe: Result<String, String>,
    r: Result<Vec<Step>, AutostartError>,
    i: int,
)
    requires
        call_ensures(enable, (found, &status, unit_path, present, exe), r),
    ensures
        r is Ok <==> found && (status is NotInstalled ==> unit_path is Some && !present && exe
            is Ok),
        r matches Ok(steps) ==> {
            let done = deeds(steps@);
            &&& done.len() >= 1
            &&& done.last() == Deed::Run(Verb::Enable)
            &&& 0 <= i < done.len() ==> done[i] != Deed::Run(Verb::Disable)
            &&& 0 <= i < done.len() && done[i] is Write ==> {
                &&& status is NotInstalled
                &&& !present
                &&& done[i] == Deed::Write(unit_path->0@, unit_text(exe->Ok_0@))
            }
            &&& status is NotInstalled ==> done.len() == 3 && done[0] is Write && done[1]
                == Deed::Run(Verb::DaemonReload)
            &&& !(status is NotInstalled) ==> done.len() == 1
        },
{
}

/// Switching off: nothing but the command for it, and not even that where no unit is
/// installed.
pub proof fn switching_off(found: bool, status: Status, r: Result<Vec<Step>, AutostartError>)
    requires
        call_ensures(disable, (found, &status), r),
    ensures
        r is Ok <==> found,
        r matches Ok(steps) ==> {
            let done = deeds(steps@);
            &&& status is NotInstalled <==> done.len() == 0
            &&& done.len() > 0 ==> done == seq![Deed::Run(Verb::Disable)]
        },
{
}

/// What the user is told of each state, word for word.
pub proof fn states_are_told(why: String)
    ensures
        Status::Enabled.text() == "enabled — lindiction will start automatically on login"@,
        Status::Disabled.text() == "disabled — lindiction will not start automatically"@,
        Status::NotInstalled.text()
            == "not installed — lindiction.service was not found in any systemd search path"@,
        Status::SystemctlMissing.text() == "systemctl not found on PATH; cannot manage autostart"@,
        (Status::Other(why)).text() == "unexpected state: "@ + why@,
        AutostartError::SystemctlMissing.text() == Status::SystemctlMissing.text(),
        (AutostartError::CommandFailed { verb: Verb::Enable, stderr: why }).text()
            == "systemctl --user enable lindiction.service failed: "@ + why@,
        (AutostartError::CommandFailed { verb: Verb::Disable, stderr: why }).text()
            == "systemctl --user disable lindiction.service failed: "@ + why@,
        (AutostartError::CommandFailed { verb: Verb::DaemonReload, stderr: why }).text()
            == "systemctl --user daemon-reload failed: "@ + why@,
{
    reveal_strlit("not installed — ");
    reveal_strlit("lindiction.service");
    reveal_strlit(" was not found in any systemd search path");
    reveal_strlit("not installed — lindiction.service was not found in any systemd search path");
    reveal_strlit(" failed: ");
    reveal_strlit("systemctl --user enable ");
    reveal_strlit("systemctl --user disable ");
    reveal_strlit("systemctl --user daemon-reload");
    reveal_strlit("systemctl --user enable lindiction.service failed: ");
    reveal_strlit("systemctl --user disable lindiction.service failed: ");
    reveal_strlit("systemctl --user daemon-reload failed: ");
    assert(Status::NotInstalled.text()
        =~= "not installed — lindiction.service was not found in any systemd search path"@);
    assert((AutostartError::CommandFailed { verb: Verb::Enable, stderr: why }).text()
        =~= "systemctl --user enable lindiction.service failed: "@ + why@);
    assert((AutostartError::CommandFailed { verb: Verb::Disable, stderr: why }).text()
        =~= "systemctl --user disable lindiction.service failed: "@ + why@);
    assert((AutostartError::CommandFailed { verb: Verb::DaemonReload, stderr: why }).text()
        =~= "systemctl --user daemon-reload failed: "@ + why@);
}

/// A command failed exactly where it says so, and its complaint is passed on.
pub proof fn failures_are_reported(
    verb: Verb,
    success: bool,
    stderr: &str,
    r: Result<(), AutostartError>,
)
    requires
        call_ensures(Verb::finish, (verb, success, stderr), r),
    ensures
        r is Ok <==> success,
        r matches Err(e) ==> e.text() == verb.line() + " failed: "@ + text::trimmed(stderr@),
{
}

/// Auto-start is managed exactly where `systemctl` is there and answered well, and it
/// is on exactly where the unit is enabled.
pub proof fn support_needs_an_answer(
    found: bool,
    answered: Option<bool>,
    supported: bool,
    status: Status,
    on: bool,
)
    requires
        call_ensures(is_supported, (found, answered), supported),
        call_ensures(Status::is_enabled, (&status,), on),
    ensures
        supported ==> found,
        supported ==> answered is Some,
        supported <==> found && answered is Some && answered->0,
        on <==> status == Status::Enabled,
{
}

/// A unit is written only where none is installed and no file is there, and then for
/// the running binary, at the user's path; every other case leaves all files alone.
pub proof fn files_are_never_overwritten(
    status: Status,
    unit_path: Option<&str>,
    present: bool,
    exe: Result<String, String>,
    r: Result<Option<UnitFile>, AutostartError>,
)
    requires
        call_ensures(ensure_unit_loadable, (&status, unit_path, present, exe), r),
    ensures
        r matches Ok(Some(unit)) ==> {
            &&& status is NotInstalled
            &&& !present
            &&& unit_path matches Some(p) && unit.path@ == p@
            &&& exe matches Ok(binary) && unit.contents@ == unit_text(binary@)
        },
        r matches Ok(None) <==> !(status is NotInstalled),
        r is Err <==> status is NotInstalled && (unit_path is None || present || exe is Err),
{
}

/// What is run, said and written, from end to end.
pub proof fn commands_are_run_as_told(
    verb: Verb,
    args: Vec<String>,
    line: String,
    status: Status,
    said: String,
    exe: &str,
    unit: String,
    found: bool,
    able: Result<(), AutostartError>,
)
    requires
        call_ensures(Verb::args, (verb,), args),
        call_ensures(Verb::command, (verb,), line),
        call_ensures(Status::describe, (&status,), said),
        call_ensures(generate_unit_contents, (exe,), unit),
        call_ensures(ensure_systemctl, (found,), able),
    ensures
        line@ == text::glued(seq!["systemctl"@] + text::texts(args@), ' '),
        text::has_infix(unit@, "\n[Service]\nType=simple\nExecStart="@ + exe@ + "\n"@),
        able is Ok <==> found,
        said@ == status.text(),
{
    verbs_are_commands(verb);
    units_start_their_binary(exe@, exe@);
}

/// Why switching on is refused, and what is said of it: the first of what is missing,
/// a unit file that is there but cannot be loaded by its path.
pub proof fn refusals_are_told(
    found: bool,
    status: Status,
    unit_path: Option<&str>,
    present: bool,
    exe: Result<String, String>,
    r: Result<Vec<Step>, AutostartError>,
    off: Result<Vec<Step>, AutostartError>,
)
    requires
        call_ensures(enable, (found, &status, unit_path, present, exe), r),
        call_ensures(disable, (found, &status), off),
    ensures
        r matches Err(e) ==> e.text() == if !found {
            "systemctl not found on PATH; cannot manage autostart"@
        } else if unit_path is None {
            "could not resolve XDG config directory for systemd user unit"@
        } else if present {
            "unit file exists at "@ + unit_path->0@
                + " but systemd can't load it — check its contents or run `systemctl --user daemon-reload`"@
        } else {
            "determining current executable path: "@ + exe->Err_0@
        },
        off matches Err(e) ==> e.text() == "systemctl not found on PATH; cannot manage autostart"@,
{
}

/// The message of an error is its text, and two errors with the same text give the
/// same message.
pub proof fn messages_are_their_text(a: AutostartError, b: AutostartError, one: String, other: String)
    requires
        call_ensures(AutostartError::message, (&a,), one),
        call_ensures(AutostartError::message, (&b,), other),
    ensures
        one@ == a.text(),
        a.text() == b.text() <==> one@ == other@,
{
}

} // verus!
