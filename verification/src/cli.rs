//! The command-line client's decisions and reports: which commands a lock
//! forbids, whether the daemon's reply says a lock is in effect, and the
//! text of the status and doctor reports.

use vstd::prelude::*;
use crate::lock::{lock_in_effect, effective_locked_at};
use crate::protocol::{LockState, Response, StatusInfo};
use crate::server::shutdown_refused;
use crate::text::{decimal, push_decimal};
use crate::theme::{styled, ok, err, warn, bold_pink, dim, GREEN, RED, YELLOW, BOLD_PINK, DIM, OK_MARK, ERR_MARK, WARN_MARK};

verus! {

/// The client's commands.
#[derive(Debug, Clone, Copy, PartialEq, Eq, Structural)]
pub enum Commands {
    Install,
    Uninstall,
    Start,
    Stop,
    Restart,
    Status,
    Doctor,
    Logs,
    NativeBridge,
}

/// The commands that undo protection, which a lock forbids. Starting the
/// daemon is always allowed: a daemon that is not running holds no lock.
pub open spec fn destructive(cmd: Commands) -> bool {
    cmd == Commands::Install || cmd == Commands::Uninstall || cmd == Commands::Stop || cmd == Commands::Restart
}

/// The daemon's reply to a status request says a lock is in effect at
/// `now`. No reply at all (daemon not running, read failure, undecodable
/// answer) means nothing is locked.
pub open spec fn reply_reports_lock(reply: Option<Response>, now: u64) -> bool {
    match reply {
        Some(Response::Status(info)) => shutdown_refused(info.lock_state, now),
        _ => false,
    }
}

/// A command may run unless it is destructive and the daemon reports a lock.
pub open spec fn command_permitted(cmd: Commands, reply: Option<Response>, now: u64) -> bool {
    !(destructive(cmd) && reply_reports_lock(reply, now))
}

/// Whether the command must first ask the daemon about a lock.
pub fn needs_lock_check(cmd: Commands) -> (res: bool)
    ensures
        res == destructive(cmd),
{
    match cmd {
        Commands::Install | Commands::Uninstall | Commands::Stop | Commands::Restart => true,
        _ => false,
    }
}

/// Whether the daemon's reply says a lock is in effect at `now`.
pub fn lock_check_blocks(reply: &Option<Response>, now: u64) -> (res: bool)
    ensures
        res == reply_reports_lock(*reply, now),
{
    match reply {
        Some(Response::Status(info)) => match &info.lock_state {
            Some(l) => effective_locked_at(l, now),
            None => false,
        },
        _ => false,
    }
}

/// Whether `cmd` may run, given the daemon's reply to a status request
/// (asked only for destructive commands).
pub fn command_allowed(cmd: Commands, reply: &Option<Response>, now: u64) -> (res: bool)
    ensures
        res == command_permitted(cmd, *reply, now),
{
    !(needs_lock_check(cmd) && lock_check_blocks(reply, now))
}

/// How the status report describes the lock.
#[derive(Debug, Clone, Copy, PartialEq, Eq, Structural)]
pub enum LockDescription {
    Unlocked,
    UnlockedExpired,
    LockedForever,
    LockedFor { hours: u64, minutes: u64, seconds: u64 },
}

/// The description of the reported lock at `now`.
pub open spec fn lock_description(lock: Option<LockState>, now: u64) -> LockDescription {
    match lock {
        None => LockDescription::Unlocked,
        Some(l) => if !l.locked {
            LockDescription::Unlocked
        } else if !lock_in_effect(l, now) {
            LockDescription::UnlockedExpired
        } else {
            match l.unlock_at {
                None => LockDescription::LockedForever,
                Some(u) => {
                    let secs = (u - now) / 1000;
                    LockDescription::LockedFor {
                        hours: (secs / 3600) as u64,
                        minutes: ((secs % 3600) / 60) as u64,
                        seconds: (secs % 60) as u64,
                    }
                },
            }
        },
    }
}

/// Describes the reported lock at `now`.
pub fn describe_lock(lock: &Option<LockState>, now: u64) -> (res: LockDescription)
    ensures
        res == lock_description(*lock, now),
{
    match lock {
        None => LockDescription::Unlocked,
        Some(l) => {
            if !l.locked {
                LockDescription::Unlocked
            } else if !effective_locked_at(l, now) {
                LockDescription::UnlockedExpired
            } else {
                match l.unlock_at {
                    None => LockDescription::LockedForever,
                    Some(u) => {
                        let remaining_ms = u.saturating_sub(now);
                        let secs = remaining_ms / 1000;
                        LockDescription::LockedFor {
                            hours: secs / 3600,
                            minutes: (secs % 3600) / 60,
                            seconds: secs % 60,
                        }
                    },
                }
            }
        },
    }
}

pub const LOCK_LABEL: &'static str = "Lock Status:         ";
pub const DAEMON_LABEL: &'static str = "Daemon Running:      ";
pub const EXTENSION_LABEL: &'static str = "Extension Connected: ";
pub const STATUS_HEADING: &'static str = "--- MindGate Status ---";

/// The lock line of the status report.
pub open spec fn lock_line(desc: LockDescription, color: bool) -> Seq<char> {
    LOCK_LABEL@ + match desc {
        LockDescription::Unlocked => styled(GREEN@, OK_MARK@ + "UNLOCKED"@, color),
        LockDescription::UnlockedExpired => styled(GREEN@, OK_MARK@ + "UNLOCKED (Expired)"@, color),
        LockDescription::LockedForever => styled(RED@, ERR_MARK@ + "LOCKED"@, color) + " FOREVER"@,
        LockDescription::LockedFor { hours, minutes, seconds } => styled(RED@, ERR_MARK@ + "LOCKED"@, color)
            + " "@ + decimal(hours as nat) + "h "@ + decimal(minutes as nat) + "m "@ + decimal(seconds as nat)
            + "s remaining"@,
    }
}

/// The lock line of the status report.
pub fn render_lock_line(desc: LockDescription, color: bool) -> (s: String)
    ensures
        s@ == lock_line(desc, color),
{
    let mut out = String::from_str(LOCK_LABEL);
    match desc {
        LockDescription::Unlocked => {
            let t = ok("UNLOCKED", color);
            out.append(t.as_str());
        },
        LockDescription::UnlockedExpired => {
            let t = ok("UNLOCKED (Expired)", color);
            out.append(t.as_str());
        },
        LockDescription::LockedForever => {
            let t = err("LOCKED", color);
            out.append(t.as_str());
            out.append(" FOREVER");
        },
        LockDescription::LockedFor { hours, minutes, seconds } => {
            let t = err("LOCKED", color);
            out.append(t.as_str());
            out.append(" ");
            push_decimal(&mut out, hours);
            out.append("h ");
            push_decimal(&mut out, minutes);
            out.append("m ");
            push_decimal(&mut out, seconds);
            out.append("s remaining");
        },
    }
    out
}

/// `YES` in green or `NO` in red.
pub open spec fn yes_no(b: bool, color: bool) -> Seq<char> {
    if b {
        styled(GREEN@, OK_MARK@ + "YES"@, color)
    } else {
        styled(RED@, ERR_MARK@ + "NO"@, color)
    }
}

fn render_yes_no(b: bool, color: bool) -> (s: String)
    ensures
        s@ == yes_no(b, color),
{
    if b {
        ok("YES", color)
    } else {
        err("NO", color)
    }
}

fn labelled(label: &str, value: String) -> (s: String)
    ensures
        s@ == label@ + value@,
{
    let mut out = String::from_str(label);
    out.append(value.as_str());
    out
}

/// The lines of the status report for the daemon's status at `now`.
pub fn render_status_report(info: &StatusInfo, now: u64, color: bool) -> (lines: Vec<String>)
    ensures
        lines@.len() == 4,
        lines@[0]@ == styled(BOLD_PINK@, STATUS_HEADING@, color),
        lines@[1]@ == DAEMON_LABEL@ + yes_no(info.daemon_running, color),
        lines@[2]@ == EXTENSION_LABEL@ + yes_no(info.extension_connected, color),
        lines@[3]@ == lock_line(lock_description(info.lock_state, now), color),
{
    let mut lines: Vec<String> = Vec::new();
    lines.push(bold_pink(STATUS_HEADING, color));
    lines.push(labelled(DAEMON_LABEL, render_yes_no(info.daemon_running, color)));
    lines.push(labelled(EXTENSION_LABEL, render_yes_no(info.extension_connected, color)));
    let desc = describe_lock(&info.lock_state, now);
    lines.push(render_lock_line(desc, color));
    lines
}

/// What the doctor learned from asking the daemon for its status.
#[derive(Debug, Clone)]
pub enum DaemonProbe {
    /// The socket could not be reached.
    Unreachable,
    /// The answer could not be read.
    ReadError,
    /// The answer, decoded where it could be.
    Reply(Option<Response>),
}

pub const EXTENSION_CONNECTED: &'static str = "Extension connected";
pub const HEARTBEAT_HEALTHY: &'static str = "Heartbeat healthy";
pub const EXTENSION_MISSING: &'static str = "Extension connected: NO (Heartbeat missing)";
pub const EXTENSION_INVALID: &'static str = "Extension connected: NO (Invalid response)";
pub const EXTENSION_READ_ERROR: &'static str = "Extension connected: NO (Read error)";
pub const EXTENSION_UNREACHABLE: &'static str = "Extension connected: NO (Daemon unreachable)";

/// A success line, a warning line and an error line of a report.
pub open spec fn ok_line(text: Seq<char>, color: bool) -> Seq<char> {
    styled(GREEN@, OK_MARK@ + text, color)
}

pub open spec fn warn_line(text: Seq<char>, color: bool) -> Seq<char> {
    styled(YELLOW@, WARN_MARK@ + text, color)
}

pub open spec fn err_line(text: Seq<char>, color: bool) -> Seq<char> {
    styled(RED@, ERR_MARK@ + text, color)
}

/// The doctor's extension lines for a probe of the daemon.
pub open spec fn extension_lines(probe: DaemonProbe, color: bool) -> Seq<Seq<char>> {
    match probe {
        DaemonProbe::Reply(Some(Response::Status(info))) => if info.extension_connected {
            seq![ok_line(EXTENSION_CONNECTED@, color), ok_line(HEARTBEAT_HEALTHY@, color)]
        } else {
            seq![warn_line(EXTENSION_MISSING@, color)]
        },
        DaemonProbe::Reply(_) => seq![warn_line(EXTENSION_INVALID@, color)],
        DaemonProbe::ReadError => seq![warn_line(EXTENSION_READ_ERROR@, color)],
        DaemonProbe::Unreachable => seq![warn_line(EXTENSION_UNREACHABLE@, color)],
    }
}

/// The doctor's extension lines for a probe of the daemon.
pub fn doctor_extension_lines(probe: &DaemonProbe, color: bool) -> (lines: Vec<String>)
    ensures
        lines@.map_values(|l: String| l@) == extension_lines(*probe, color),
        match probe {
            DaemonProbe::Reply(Some(Response::Status(info))) => if info.extension_connected {
                &&& lines@.len() == 2
                &&& lines@[0]@ == styled(GREEN@, OK_MARK@ + EXTENSION_CONNECTED@, color)
                &&& lines@[1]@ == styled(GREEN@, OK_MARK@ + HEARTBEAT_HEALTHY@, color)
            } else {
                lines@.len() == 1 && lines@[0]@ == styled(YELLOW@, WARN_MARK@ + EXTENSION_MISSING@, color)
            },
            DaemonProbe::Reply(_) => lines@.len() == 1 && lines@[0]@ == styled(
                YELLOW@,
                WARN_MARK@ + EXTENSION_INVALID@,
                color,
            ),
            DaemonProbe::ReadError => lines@.len() == 1 && lines@[0]@ == styled(
                YELLOW@,
                WARN_MARK@ + EXTENSION_READ_ERROR@,
                color,
            ),
            DaemonProbe::Unreachable => lines@.len() == 1 && lines@[0]@ == styled(
                YELLOW@,
                WARN_MARK@ + EXTENSION_UNREACHABLE@,
                color,
            ),
        },
{
    let mut lines: Vec<String> = Vec::new();
    match probe {
        DaemonProbe::Reply(Some(Response::Status(info))) => {
            if info.extension_connected {
                lines.push(ok(EXTENSION_CONNECTED, color));
                lines.push(ok(HEARTBEAT_HEALTHY, color));
            } else {
                lines.push(warn(EXTENSION_MISSING, color));
            }
        },
        DaemonProbe::Reply(_) => lines.push(warn(EXTENSION_INVALID, color)),
        DaemonProbe::ReadError => lines.push(warn(EXTENSION_READ_ERROR, color)),
        DaemonProbe::Unreachable => lines.push(warn(EXTENSION_UNREACHABLE, color)),
    }
    assert(lines@.map_values(|l: String| l@) =~= extension_lines(*probe, color));
    lines
}

pub const DOCTOR_HEADING: &'static str = "--- MindGate Doctor ---";
pub const DAEMON_RUNNING: &'static str = "Daemon running";
pub const DAEMON_NOT_RUNNING: &'static str = "Daemon not running";
pub const WATCHDOG_RUNNING: &'static str = "Watchdog running";
pub const WATCHDOG_NOT_RUNNING: &'static str = "Watchdog not running";
pub const NM_INSTALLED: &'static str = "Native Messaging installed";
pub const NM_NOT_INSTALLED: &'static str = "Native Messaging not installed";
pub const BROWSER_DETECTED: &'static str = "Browser detected";
pub const NO_BROWSER: &'static str = "No supported Chromium browser detected";
pub const INCOGNITO_REMINDER: &'static str = "Reminder: Ensure 'Allow in Incognito' is enabled in chrome://extensions";
pub const PROFILES_REMINDER: &'static str = "Reminder: Load extension in all browser profiles you wish to protect";
pub const STATUS_HINT: &'static str = "Run `mindgate status` for more details.";

/// The whole doctor report, line by line: the heading; the daemon, the
/// watchdog and native messaging; the extension; a browser; the two
/// reminders, always; and, after a blank line, the hint.
pub open spec fn doctor_lines(
    daemon_running: bool,
    watchdog_running: bool,
    nm_installed: bool,
    probe: DaemonProbe,
    browser_found: bool,
    color: bool,
) -> Seq<Seq<char>> {
    seq![
        styled(BOLD_PINK@, DOCTOR_HEADING@, color),
        if daemon_running { ok_line(DAEMON_RUNNING@, color) } else { err_line(DAEMON_NOT_RUNNING@, color) },
        if watchdog_running { ok_line(WATCHDOG_RUNNING@, color) } else { warn_line(WATCHDOG_NOT_RUNNING@, color) },
        if nm_installed { ok_line(NM_INSTALLED@, color) } else { warn_line(NM_NOT_INSTALLED@, color) },
    ] + extension_lines(probe, color) + seq![
        if browser_found { ok_line(BROWSER_DETECTED@, color) } else { warn_line(NO_BROWSER@, color) },
        warn_line(INCOGNITO_REMINDER@, color),
        warn_line(PROFILES_REMINDER@, color),
        "\n"@ + styled(DIM@, STATUS_HINT@, color),
    ]
}

/// The doctor report for what the probes found.
pub fn doctor_report(
    daemon_running: bool,
    watchdog_running: bool,
    nm_installed: bool,
    probe: &DaemonProbe,
    browser_found: bool,
    color: bool,
) -> (lines: Vec<String>)
    ensures
        lines@.map_values(|l: String| l@) == doctor_lines(
            daemon_running,
            watchdog_running,
            nm_installed,
            *probe,
            browser_found,
            color,
        ),
{
    let mut lines: Vec<String> = Vec::new();
    lines.push(bold_pink(DOCTOR_HEADING, color));
    lines.push(if daemon_running { ok(DAEMON_RUNNING, color) } else { err(DAEMON_NOT_RUNNING, color) });
    lines.push(if watchdog_running { ok(WATCHDOG_RUNNING, color) } else { warn(WATCHDOG_NOT_RUNNING, color) });
    lines.push(if nm_installed { ok(NM_INSTALLED, color) } else { warn(NM_NOT_INSTALLED, color) });
    let ghost head = lines@.map_values(|l: String| l@);
    assert(head =~= doctor_lines(daemon_running, watchdog_running, nm_installed, *probe, browser_found, color).subrange(0, 4));
    let ext = doctor_extension_lines(probe, color);
    let mut i: usize = 0;
    while i < ext.len()
        invariant
            0 <= i <= ext@.len(),
            lines@.map_values(|l: String| l@) == head + ext@.map_values(|l: String| l@).subrange(0, i as int),
        decreases ext@.len() - i,
    {
        let ghost before = lines@;
        lines.push(ext[i].clone());
        proof {
            assert(lines@ == before.push(ext@[i as int]));
            assert(ext@.map_values(|l: String| l@).subrange(0, i + 1) =~= ext@.map_values(|l: String| l@).subrange(0, i as int).push(ext@[i as int]@));
            assert(lines@.map_values(|l: String| l@) =~= before.map_values(|l: String| l@).push(ext@[i as int]@));
        }
        i += 1;
    }
    assert(ext@.map_values(|l: String| l@).subrange(0, ext@.len() as int) =~= ext@.map_values(|l: String| l@));
    let ghost mid = lines@;
    assert(mid.map_values(|l: String| l@) == head + extension_lines(*probe, color));
    lines.push(if browser_found { ok(BROWSER_DETECTED, color) } else { warn(NO_BROWSER, color) });
    lines.push(warn(INCOGNITO_REMINDER, color));
    lines.push(warn(PROFILES_REMINDER, color));
    let mut hint = String::from_str("\n");
    let d = dim(STATUS_HINT, color);
    hint.append(d.as_str());
    lines.push(hint);
    assert(lines@.map_values(|l: String| l@) =~= mid.map_values(|l: String| l@) + seq![
        lines@[mid.len() as int]@, lines@[mid.len() + 1 as int]@, lines@[mid.len() + 2 as int]@, lines@[mid.len() + 3 as int]@]);
    assert(lines@.map_values(|l: String| l@) =~= doctor_lines(
        daemon_running,
        watchdog_running,
        nm_installed,
        *probe,
        browser_found,
        color,
    ));
    lines
}

pub const LOCKED_REFUSAL: &'static str = " MindGate is currently locked. Destructive operations are disabled.";

/// The message a destructive command fails with while locked.
pub fn locked_refusal_message(color: bool) -> (s: String)
    ensures
        s@ == styled(RED@, ERR_MARK@ + "ERROR:"@, color) + LOCKED_REFUSAL@,
{
    let mut out = err("ERROR:", color);
    out.append(LOCKED_REFUSAL);
    out
}

/// The message after a successful `systemctl <action>`.
pub fn systemctl_success_message(action: &str, color: bool) -> (s: String)
    ensures
        s@ == styled(GREEN@, OK_MARK@ + "MindGate "@ + action@ + " successfully."@, color),
{
    let mut text = String::from_str("MindGate ");
    text.append(action);
    text.append(" successfully.");
    ok(text.as_str(), color)
}

/// The client and the daemon agree: a destructive command is refused on
/// the strength of the daemon's status report exactly when the daemon itself
/// would refuse to shut down.
pub proof fn client_and_daemon_agree_on_lock(lock_state: Option<LockState>, connected: bool, now: u64)
    ensures
        reply_reports_lock(
            Some(Response::Status(StatusInfo { daemon_running: true, extension_connected: connected, lock_state })),
            now,
        ) == shutdown_refused(lock_state, now),
{
}

/// Starting the daemon, and every read-only command, is allowed whatever
/// the daemon says; a destructive one is refused only on a reported lock.
pub proof fn only_destructive_commands_are_refused(cmd: Commands, reply: Option<Response>, now: u64)
    ensures
        !destructive(cmd) ==> command_permitted(cmd, reply, now),
        command_permitted(Commands::Start, reply, now),
        reply is None ==> command_permitted(cmd, reply, now),
        destructive(cmd) ==> (command_permitted(cmd, reply, now) <==> !reply_reports_lock(reply, now)),
{
}

/// The remaining time is split exactly into hours, minutes and seconds, and
/// the lock is described as locked exactly while it is in effect.
pub proof fn lock_description_is_faithful(lock: Option<LockState>, now: u64)
    ensures
        (lock_description(lock, now) is LockedForever || lock_description(lock, now) is LockedFor)
            <==> shutdown_refused(lock, now),
        lock_description(lock, now) matches LockDescription::LockedFor { hours, minutes, seconds } ==> {
            &&& minutes < 60
            &&& seconds < 60
            &&& hours * 3600 + minutes * 60 + seconds == (lock.unwrap().unlock_at.unwrap() - now) / 1000
        },
{
    if let LockDescription::LockedFor { hours, minutes, seconds } = lock_description(lock, now) {
        let secs = (lock.unwrap().unlock_at.unwrap() - now) / 1000;
        assert(secs >= 0);
        assert(secs == (secs / 3600) * 3600 + (secs % 3600)) by (nonlinear_arith);
        assert(secs % 3600 == ((secs % 3600) / 60) * 60 + (secs % 3600) % 60) by (nonlinear_arith);
        assert((secs % 3600) % 60 == secs % 60) by (nonlinear_arith)
            requires secs >= 0;
    }
}

/// A lock in effect is described as "forever" exactly when it has no timer;
/// a timed lock in effect is always described by its remaining time, however
/// long that is, and that time is what is left until its unlock moment.
pub proof fn forever_only_without_timer(l: LockState, now: u64)
    ensures
        lock_description(Some(l), now) is LockedForever <==> (lock_in_effect(l, now) && l.unlock_at is None),
        lock_description(Some(l), now) is LockedFor <==> (lock_in_effect(l, now) && l.unlock_at is Some),
        (lock_in_effect(l, now) && l.unlock_at is Some) ==> (lock_description(Some(l), now) matches
            LockDescription::LockedFor { hours, minutes, seconds }
            && hours * 3600 + minutes * 60 + seconds == (l.unlock_at.unwrap() - now) / 1000),
{
    lock_description_is_faithful(Some(l), now);
}

} // verus!
