use termx::shell::{shell_step, ShellAction, ShellEvent, ShellPhase, TIMEOUT_SECONDS};

fn fail_text(a: ShellAction) -> String {
    match a {
        ShellAction::Fail(m) => m,
        _ => panic!("expected a failure"),
    }
}

#[test]
fn refused_command_ends_without_spawning() {
    let (p, a) = shell_step(ShellPhase::Screening, ShellEvent::Requested("rm -rf /".to_string()));
    assert_eq!(p, ShellPhase::Finished);
    assert_eq!(fail_text(a), "Denied command");
    let (p, a) = shell_step(ShellPhase::Screening, ShellEvent::Requested("  ".to_string()));
    assert_eq!(p, ShellPhase::Finished);
    assert_eq!(fail_text(a), "Empty command");
}

#[test]
fn allowed_command_is_spawned_then_waited_on() {
    let (p, a) = shell_step(ShellPhase::Screening, ShellEvent::Requested("  ls -la ".to_string()));
    assert_eq!(p, ShellPhase::Spawning);
    match a {
        ShellAction::Spawn(c) => assert_eq!(c, "  ls -la "),
        _ => panic!("expected a spawn"),
    }
    let (p, a) = shell_step(p, ShellEvent::Spawned);
    assert_eq!(p, ShellPhase::Waiting);
    assert!(matches!(a, ShellAction::Wait(n) if n == TIMEOUT_SECONDS));
}

#[test]
fn exit_then_output_is_reported() {
    let (p, a) = shell_step(ShellPhase::Waiting, ShellEvent::Exited(false));
    assert_eq!(p, ShellPhase::Collecting(false));
    assert!(matches!(a, ShellAction::Collect));
    let (p, a) = shell_step(p, ShellEvent::Output { stdout: b"o\n".to_vec(), stderr: b"bad\n".to_vec() });
    assert_eq!(p, ShellPhase::Finished);
    match a {
        ShellAction::Report(run) => {
            assert_eq!(run.outcome, Err("bad\n".to_string()));
            assert_eq!(run.stdout_preview.shown, vec!["o".to_string()]);
        }
        _ => panic!("expected a report"),
    }
    let (_, a) = shell_step(ShellPhase::Collecting(true), ShellEvent::Output { stdout: b"yes".to_vec(), stderr: vec![] });
    match a {
        ShellAction::Report(run) => assert_eq!(run.outcome, Ok("yes".to_string())),
        _ => panic!("expected a report"),
    }
}

#[test]
fn timeout_kills_then_reports_timeout() {
    let (p, a) = shell_step(ShellPhase::Waiting, ShellEvent::TimedOut);
    assert_eq!(p, ShellPhase::Killing);
    match a {
        ShellAction::Kill(m) => assert_eq!(m, "Command timed out after 30 seconds"),
        _ => panic!("expected a kill"),
    }
    let (p, a) = shell_step(ShellPhase::Killing, ShellEvent::Killed);
    assert_eq!(p, ShellPhase::Finished);
    assert_eq!(fail_text(a), "Command timed out after 30 seconds");
    let (_, a) = shell_step(ShellPhase::Killing, ShellEvent::KillFailed("denied".to_string()));
    assert_eq!(fail_text(a), "Failed to kill: denied");
}

#[test]
fn outside_failures_end_the_run() {
    let (p, a) = shell_step(ShellPhase::Spawning, ShellEvent::SpawnFailed("no sh".to_string()));
    assert_eq!(p, ShellPhase::Finished);
    assert_eq!(fail_text(a), "Failed to spawn: no sh");
    let (_, a) = shell_step(ShellPhase::Waiting, ShellEvent::WaitFailed("x".to_string()));
    assert_eq!(fail_text(a), "Wait error: x");
    let (_, a) = shell_step(ShellPhase::Collecting(true), ShellEvent::OutputFailed("y".to_string()));
    assert_eq!(fail_text(a), "Failed to get output: y");
}

#[test]
fn allowed_commands_are_started_verbatim() {
    for cmd in ["echo rm", "rmdir d", "sudoku", "/bin/rm f"] {
        let (p, a) = shell_step(ShellPhase::Screening, ShellEvent::Requested(cmd.to_string()));
        assert_eq!(p, ShellPhase::Spawning);
        match a {
            ShellAction::Spawn(c) => assert_eq!(c, cmd),
            _ => panic!("expected a spawn"),
        }
    }
}
