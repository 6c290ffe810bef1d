use mindgate::cli::{
    command_allowed, describe_lock, doctor_extension_lines, doctor_report, lock_check_blocks, locked_refusal_message,
    needs_lock_check, render_lock_line, render_status_report, Commands, DaemonProbe, LockDescription,
};
use mindgate::protocol::{LockState, Response, StatusInfo};
use mindgate::theme::{bold_pink, dim, err, ok, warn};
use mindgate::wire::{encode_frame, frame_body_len, socket_path_from, split_frame};

fn status_reply(lock_state: Option<LockState>) -> Option<Response> {
    Some(Response::Status(StatusInfo { daemon_running: true, extension_connected: true, lock_state }))
}

#[test]
fn destructive_commands_need_lock_check() {
    assert!(needs_lock_check(Commands::Install));
    assert!(needs_lock_check(Commands::Uninstall));
    assert!(needs_lock_check(Commands::Stop));
    assert!(needs_lock_check(Commands::Restart));
    assert!(!needs_lock_check(Commands::Start));
    assert!(!needs_lock_check(Commands::Status));
    assert!(!needs_lock_check(Commands::Doctor));
    assert!(!needs_lock_check(Commands::Logs));
    assert!(!needs_lock_check(Commands::NativeBridge));
}

#[test]
fn lock_check_follows_the_reported_lock() {
    let forever = status_reply(Some(LockState { locked: true, unlock_at: None }));
    let timed = status_reply(Some(LockState { locked: true, unlock_at: Some(1_000) }));
    assert!(lock_check_blocks(&forever, 5));
    assert!(lock_check_blocks(&timed, 999));
    assert!(!lock_check_blocks(&timed, 1_000));
    assert!(!lock_check_blocks(&status_reply(None), 0));
    assert!(!lock_check_blocks(&None, 0));
    assert!(!lock_check_blocks(&Some(Response::Pong), 0));
    assert!(!command_allowed(Commands::Stop, &forever, 0));
    assert!(command_allowed(Commands::Start, &forever, 0));
    assert!(command_allowed(Commands::Stop, &None, 0));
}

#[test]
fn describe_lock_splits_remaining_time() {
    let lock = Some(LockState { locked: true, unlock_at: Some(3_723_500 + 10) });
    assert_eq!(
        describe_lock(&lock, 10),
        LockDescription::LockedFor { hours: 1, minutes: 2, seconds: 3 }
    );
    assert_eq!(describe_lock(&Some(LockState { locked: true, unlock_at: None }), 0), LockDescription::LockedForever);
    assert_eq!(describe_lock(&Some(LockState { locked: true, unlock_at: Some(5) }), 5), LockDescription::UnlockedExpired);
    assert_eq!(describe_lock(&Some(LockState { locked: false, unlock_at: None }), 0), LockDescription::Unlocked);
    assert_eq!(describe_lock(&None, 0), LockDescription::Unlocked);
}

#[test]
fn lock_lines_without_color() {
    assert_eq!(
        render_lock_line(LockDescription::LockedFor { hours: 1, minutes: 2, seconds: 3 }, false),
        "Lock Status:         \u{2717} LOCKED 1h 2m 3s remaining"
    );
    assert_eq!(render_lock_line(LockDescription::LockedForever, false), "Lock Status:         \u{2717} LOCKED FOREVER");
    assert_eq!(render_lock_line(LockDescription::UnlockedExpired, false), "Lock Status:         \u{2713} UNLOCKED (Expired)");
    assert_eq!(render_lock_line(LockDescription::Unlocked, false), "Lock Status:         \u{2713} UNLOCKED");
}

#[test]
fn status_report_lines() {
    let info = StatusInfo { daemon_running: true, extension_connected: false, lock_state: None };
    let lines = render_status_report(&info, 0, false);
    assert_eq!(
        lines,
        vec![
            "--- MindGate Status ---".to_string(),
            "Daemon Running:      \u{2713} YES".to_string(),
            "Extension Connected: \u{2717} NO".to_string(),
            "Lock Status:         \u{2713} UNLOCKED".to_string(),
        ]
    );
}

#[test]
fn doctor_lines() {
    let connected = DaemonProbe::Reply(status_reply(None));
    assert_eq!(
        doctor_extension_lines(&connected, false),
        vec!["\u{2713} Extension connected".to_string(), "\u{2713} Heartbeat healthy".to_string()]
    );
    let missing = DaemonProbe::Reply(Some(Response::Status(StatusInfo {
        daemon_running: true,
        extension_connected: false,
        lock_state: None,
    })));
    assert_eq!(doctor_extension_lines(&missing, false), vec!["\u{26a0} Extension connected: NO (Heartbeat missing)".to_string()]);
    assert_eq!(
        doctor_extension_lines(&DaemonProbe::Reply(None), false),
        vec!["\u{26a0} Extension connected: NO (Invalid response)".to_string()]
    );
    assert_eq!(
        doctor_extension_lines(&DaemonProbe::ReadError, false),
        vec!["\u{26a0} Extension connected: NO (Read error)".to_string()]
    );
    assert_eq!(
        doctor_extension_lines(&DaemonProbe::Unreachable, false),
        vec!["\u{26a0} Extension connected: NO (Daemon unreachable)".to_string()]
    );
}

#[test]
fn theme_colors_only_when_enabled() {
    assert_eq!(bold_pink("x", true), "\x1b[1;38;5;213mx\x1b[0m");
    assert_eq!(bold_pink("x", false), "x");
    assert_eq!(dim("x", true), "\x1b[2mx\x1b[0m");
    assert_eq!(ok("done", true), "\x1b[32m\u{2713} done\x1b[0m");
    assert_eq!(ok("done", false), "\u{2713} done");
    assert_eq!(warn("careful", false), "\u{26a0} careful");
    assert_eq!(err("bad", true), "\x1b[31m\u{2717} bad\x1b[0m");
    assert_eq!(
        locked_refusal_message(false),
        "\u{2717} ERROR: MindGate is currently locked. Destructive operations are disabled."
    );
}

#[test]
fn frame_round_trip() {
    let body = br#"{"cmd":"Ping"}"#;
    let frame = encode_frame(body);
    assert_eq!(&frame[..4], &[0, 0, 0, body.len() as u8]);
    assert_eq!(frame_body_len([frame[0], frame[1], frame[2], frame[3]]) as usize, body.len());
    let mut buf = frame.clone();
    buf.extend_from_slice(b"rest");
    let (got, used) = split_frame(&buf).unwrap();
    assert_eq!(got, body.to_vec());
    assert_eq!(used, 4 + body.len());
    assert!(split_frame(&frame[..frame.len() - 1]).is_none());
    assert!(split_frame(&[0, 0]).is_none());
}

#[test]
fn frame_length_is_big_endian() {
    assert_eq!(frame_body_len([0x01, 0x02, 0x03, 0x04]), 0x0102_0304);
    let body = vec![7u8; 0x0103];
    let frame = encode_frame(&body);
    assert_eq!(&frame[..4], &[0, 0, 0x01, 0x03]);
    assert_eq!(frame.len(), 4 + 0x0103);
}

#[test]
fn socket_path_default_and_override() {
    assert_eq!(socket_path_from(None), "/run/mindgate/mindgate.sock");
    assert_eq!(socket_path_from(Some("/tmp/x.sock".to_string())), "/tmp/x.sock");
}

#[test]
fn systemctl_success_text() {
    assert_eq!(mindgate::cli::systemctl_success_message("start", false), "\u{2713} MindGate start successfully.");
    assert_eq!(
        mindgate::cli::systemctl_success_message("stop", true),
        "\x1b[32m\u{2713} MindGate stop successfully.\x1b[0m"
    );
}

#[test]
fn doctor_report_lines() {
    let probe = DaemonProbe::Reply(status_reply(None));
    let lines = doctor_report(true, false, false, &probe, false, false);
    assert_eq!(
        lines,
        vec![
            "--- MindGate Doctor ---".to_string(),
            "\u{2713} Daemon running".to_string(),
            "\u{26a0} Watchdog not running".to_string(),
            "\u{26a0} Native Messaging not installed".to_string(),
            "\u{2713} Extension connected".to_string(),
            "\u{2713} Heartbeat healthy".to_string(),
            "\u{26a0} No supported Chromium browser detected".to_string(),
            "\u{26a0} Reminder: Ensure 'Allow in Incognito' is enabled in chrome://extensions".to_string(),
            "\u{26a0} Reminder: Load extension in all browser profiles you wish to protect".to_string(),
            "\nRun `mindgate status` for more details.".to_string(),
        ]
    );
    let lines = doctor_report(false, true, true, &DaemonProbe::Unreachable, true, false);
    assert_eq!(lines[1], "\u{2717} Daemon not running");
    assert_eq!(lines[2], "\u{2713} Watchdog running");
    assert_eq!(lines[3], "\u{2713} Native Messaging installed");
    assert_eq!(lines[4], "\u{26a0} Extension connected: NO (Daemon unreachable)");
    assert_eq!(lines[5], "\u{2713} Browser detected");
    assert_eq!(lines.len(), 9);
}
