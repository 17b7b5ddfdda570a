use termx::shell::{
    check_command, completed_run, failure_message, is_denied, summarize_run, timeout_message,
    ShellFailure, TIMEOUT_SECONDS,
};

#[test]
fn empty_commands_are_refused() {
    assert_eq!(check_command(""), Err("Empty command".to_string()));
    assert_eq!(check_command("   \t\n"), Err("Empty command".to_string()));
    assert_eq!(check_command("\u{3000}\u{a0}"), Err("Empty command".to_string()));
}

#[test]
fn denied_programs_are_refused() {
    for cmd in ["rm", "rm -rf /", "dd if=/dev/zero", "mkfs.ext4", "mkfs /dev/sda", ":(", "sudo ls", "su root"] {
        let expected = if cmd.starts_with("mkfs.") {
            Ok(())
        } else {
            Err("Denied command".to_string())
        };
        assert_eq!(check_command(cmd), expected, "{}", cmd);
    }
}

#[test]
fn screening_ignores_surrounding_whitespace() {
    assert_eq!(check_command("  \trm  "), Err("Denied command".to_string()));
    assert_eq!(check_command("\u{2003}sudo\u{2003}reboot"), Err("Denied command".to_string()));
    assert_eq!(check_command("  ls -la  "), check_command("ls -la"));
}

#[test]
fn other_programs_are_allowed() {
    assert_eq!(check_command("ls -la"), Ok(()));
    assert_eq!(check_command("rmdir build"), Ok(()));
    assert_eq!(check_command("echo rm"), Ok(()));
    assert_eq!(check_command("Rm x"), Ok(()));
    assert_eq!(check_command("sudoedit f"), Ok(()));
}

#[test]
fn denied_names() {
    for name in ["rm", "dd", "mkfs", ":(", "sudo", "su"] {
        assert!(is_denied(&name.to_string()));
    }
    for name in ["", "r", "rm ", "ls", "SUDO"] {
        assert!(!is_denied(&name.to_string()));
    }
}

#[test]
fn failure_messages() {
    assert_eq!(failure_message(ShellFailure::Spawn, "no such file"), "Failed to spawn: no such file");
    assert_eq!(failure_message(ShellFailure::Wait, "x"), "Wait error: x");
    assert_eq!(failure_message(ShellFailure::Output, "y"), "Failed to get output: y");
    assert_eq!(failure_message(ShellFailure::Kill, ""), "Failed to kill: ");
}

#[test]
fn timeout_message_names_the_limit() {
    assert_eq!(TIMEOUT_SECONDS, 30);
    assert_eq!(timeout_message(), "Command timed out after 30 seconds");
}

#[test]
fn successful_run_reports_stdout() {
    let r = summarize_run(true, "a\nb\n".to_string(), "warn\n".to_string());
    assert_eq!(r.outcome, Ok("a\nb\n".to_string()));
    assert_eq!(r.stdout_preview.shown, vec!["a".to_string(), "b".to_string()]);
    assert_eq!(r.stdout_preview.hidden, 0);
    assert_eq!(r.stderr_preview.shown, vec!["warn".to_string()]);
}

#[test]
fn failed_run_reports_stderr() {
    let r = summarize_run(false, "out".to_string(), "e1\ne2\ne3\ne4\ne5".to_string());
    assert_eq!(r.outcome, Err("e1\ne2\ne3\ne4\ne5".to_string()));
    assert_eq!(r.stderr_preview.shown, vec!["e1".to_string(), "e2".to_string(), "e3".to_string()]);
    assert_eq!(r.stderr_preview.hidden, 2);
    assert_eq!(r.stdout_preview.shown, vec!["out".to_string()]);
}

#[test]
fn long_output_preview_is_six_lines() {
    let text: String = (1..=10).map(|i| format!("line{}\n", i)).collect();
    let r = summarize_run(true, text.clone(), String::new());
    assert_eq!(r.stdout_preview.shown.len(), 6);
    assert_eq!(r.stdout_preview.shown[5], "line6");
    assert_eq!(r.stdout_preview.hidden, 4);
    assert!(r.stderr_preview.shown.is_empty());
    assert_eq!(r.stderr_preview.hidden, 0);
    assert_eq!(r.outcome, Ok(text));
}

#[test]
fn raw_output_is_decoded_lossily() {
    let r = completed_run(true, b"ok\xff\n", b"");
    assert_eq!(r.outcome, Ok("ok\u{fffd}\n".to_string()));
    assert_eq!(r.stdout_preview.shown, vec!["ok\u{fffd}".to_string()]);
    let r = completed_run(false, b"", "fail \u{e9}".as_bytes());
    assert_eq!(r.outcome, Err("fail \u{e9}".to_string()));
}

#[test]
fn each_stream_is_decoded_on_its_own() {
    let r = completed_run(false, b"\xff", b"");
    assert_eq!(r.outcome, Err(String::new()));
    let r = completed_run(true, b"fine", b"\xfe");
    assert_eq!(r.outcome, Ok("fine".to_string()));
    assert_eq!(r.stderr_preview.shown, vec!["\u{fffd}".to_string()]);
}
