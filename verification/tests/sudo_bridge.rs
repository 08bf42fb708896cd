use turbo_desktop::shell_bridge::Platform;
use turbo_desktop::sudo_bridge::{
    build_osascript_command, sudo_action, user_cancelled, windows_batch_script,
    windows_elevation_script, SudoAction,
};

#[test]
fn the_applescript_quotes_the_command() {
    let script = build_osascript_command("echo \"hi\" C:\\path");
    assert_eq!(
        script,
        "do shell script \"echo \\\"hi\\\" C:\\\\path\" with administrator privileges"
    );
}

#[test]
fn elevation_runs_through_a_uac_prompt() {
    let script = windows_elevation_script("C:\\t\\x.cmd", "C:\\t\\x.out", "C:\\t\\x.err");
    assert!(script.contains("-Verb RunAs"));
    assert!(script.contains("1223"));
    assert!(script.contains("'C:\\t\\x.cmd'"));

    // The command itself lives in the batch file, verbatim.
    let batch = windows_batch_script("ipconfig /flushdns", "C:\\t\\x.out", "C:\\t\\x.err");
    assert!(batch.contains("ipconfig /flushdns 1>"));
    assert_eq!(
        batch,
        "@echo off\r\nipconfig /flushdns 1>\"C:\\t\\x.out\" 2>\"C:\\t\\x.err\"\r\n"
    );
}

#[test]
fn a_declined_prompt_reads_as_cancelled() {
    assert!(user_cancelled(
        Platform::MacOs,
        Some(1),
        "execution error: User canceled. (-128)"
    ));
    assert!(user_cancelled(Platform::Linux, Some(126), ""));
    assert!(user_cancelled(Platform::Linux, Some(127), "Request dismissed"));
    assert!(user_cancelled(Platform::Windows, Some(1223), ""));
}

#[test]
fn an_ordinary_failure_is_not_a_cancellation() {
    for platform in [Platform::MacOs, Platform::Linux, Platform::Windows] {
        assert!(!user_cancelled(platform, Some(1), "No such file or directory"));
        assert!(!user_cancelled(platform, Some(0), ""));
    }
    // Each platform reads only its own signal.
    assert!(!user_cancelled(Platform::Windows, Some(126), "-128"));
    assert!(!user_cancelled(Platform::MacOs, Some(1223), ""));
}

#[test]
fn sudo_events_name_their_actions() {
    assert_eq!(sudo_action("execute"), Some(SudoAction::Execute));
    assert_eq!(sudo_action("spawn"), Some(SudoAction::Spawn));
    assert_eq!(sudo_action("kill"), None);
}

use turbo_desktop::sudo_bridge::{cancelled_report, execution_report, CANCELLED_CODE};

#[test]
fn a_finished_command_reports_its_trimmed_output() {
    let report = execution_report(Platform::Linux, true, Some(0), "done\n\n", "  note \n");
    assert_eq!(report.status, "ok");
    assert_eq!(report.stdout, "done");
    assert_eq!(report.stderr, "  note");
    assert_eq!(report.code, Some(0));

    let failed = execution_report(Platform::Linux, false, Some(2), "", "no such package\n");
    assert_eq!(failed.status, "error");
    assert_eq!(failed.stderr, "no such package");
    assert_eq!(failed.code, Some(2));
}

#[test]
fn a_declined_prompt_reports_a_cancellation() {
    let report = execution_report(Platform::Linux, false, Some(126), "partial", "dismissed");
    assert_eq!(report, cancelled_report());
    assert_eq!(report.status, "cancelled");
    assert_eq!(report.stdout, "");
    assert_eq!(report.code, Some(CANCELLED_CODE));
    assert_eq!(CANCELLED_CODE, -128);
}

use turbo_desktop::sudo_bridge::elevation_invocation;

#[test]
fn elevation_runs_through_osascript() {
    let (program, args) = elevation_invocation(Platform::MacOs, "softwareupdate -l", "", "", "");
    assert_eq!(program, "osascript");
    assert_eq!(
        args,
        vec![
            "-e".to_string(),
            "do shell script \"softwareupdate -l\" with administrator privileges".to_string()
        ]
    );
}

#[test]
fn elevation_runs_through_pkexec() {
    let (program, args) = elevation_invocation(Platform::Linux, "apt-get update", "", "", "");
    assert_eq!(program, "pkexec");
    assert_eq!(args, ["sh", "-c", "apt-get update"]);
}

#[test]
fn elevation_on_windows_wraps_the_batch_file() {
    let (program, args) =
        elevation_invocation(Platform::Windows, "ipconfig /flushdns", "C:\\b.cmd", "C:\\o", "C:\\e");
    assert_eq!(program, "powershell");
    assert_eq!(&args[..3], ["-NoProfile", "-NonInteractive", "-Command"]);
    assert_eq!(args[3], windows_elevation_script("C:\\b.cmd", "C:\\o", "C:\\e"));
}

/// The text an AppleScript string literal stands for, when `literal` is one.
fn read_applescript_string(literal: &str) -> Option<String> {
    let mut chars = literal.chars();
    if chars.next() != Some('"') {
        return None;
    }
    let mut text = String::new();
    while let Some(c) = chars.next() {
        match c {
            '"' => return if chars.next().is_none() { Some(text) } else { None },
            '\\' => match chars.next()? {
                '\\' => text.push('\\'),
                '"' => text.push('"'),
                'n' => text.push('\n'),
                't' => text.push('\t'),
                'r' => text.push('\r'),
                _ => return None,
            },
            other => text.push(other),
        }
    }
    None
}

#[test]
fn the_approved_command_is_the_one_that_runs() {
    for command in ["softwareupdate -l", "echo \"hi\" C:\\path", "a\\\"b", "\\n stays \\n", ""] {
        let script = build_osascript_command(command);
        let literal = script
            .strip_prefix("do shell script ")
            .and_then(|s| s.strip_suffix(" with administrator privileges"))
            .expect("the script wraps one string literal");
        assert_eq!(read_applescript_string(literal).as_deref(), Some(command), "{script}");
    }
}
