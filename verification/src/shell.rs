//! The decisions of the shell tool: which commands may run, how long a run
//! may take, and what a finished, failed or timed-out run reports.

use vstd::prelude::*;
use vstd::utf8::{decode_utf8, valid_utf8};
use crate::text::{
    decimal, decimal_string, first_word, lines, texts, is_white_space, lemma_first_word_of,
    lemma_words_append_white_space, lemma_words_prepend_white_space, line_preview, words,
    LinePreview,
};

verus! {

/// Seconds a command may run before it is killed.
pub const TIMEOUT_SECONDS: u64 = 30;

/// Lines of standard output shown while a command finishes.
pub const STDOUT_PREVIEW_LINES: usize = 6;

/// Lines of standard error shown while a command finishes.
pub const STDERR_PREVIEW_LINES: usize = 3;

/// Program names that the shell tool refuses to run.
pub open spec fn denied_names() -> Seq<Seq<char>> {
    seq!["rm"@, "dd"@, "mkfs"@, ":("@, "sudo"@, "su"@]
}

/// Whether `name` is one of the refused program names.
pub fn is_denied(name: &String) -> (b: bool)
    ensures
        b == denied_names().contains(name@),
{
    let denied = [
        "rm".to_string(),
        "dd".to_string(),
        "mkfs".to_string(),
        ":(".to_string(),
        "sudo".to_string(),
        "su".to_string(),
    ];
    assert(denied@.map_values(|s: String| s@) =~= denied_names());
    let mut i: usize = 0;
    while i < 6
        invariant
            i <= 6,
            denied@.len() == 6,
            denied@.map_values(|s: String| s@) == denied_names(),
            forall|k: int| 0 <= k < i ==> denied_names()[k] != name@,
        decreases 6 - i,
    {
        assert(denied@.map_values(|s: String| s@)[i as int] == denied@[i as int]@);
        if *name == denied[i] {
            assert(denied_names()[i as int] == name@);
            return true;
        }
        i = i + 1;
    }
    assert forall|k: int| 0 <= k < denied_names().len() implies denied_names()[k] != name@ by {}
    false
}

/// What the screening of `command` decides: refused as empty, refused as
/// denied by its first word, or allowed.
pub open spec fn command_verdict(command: Seq<char>) -> Result<(), Seq<char>> {
    let ws = words(command);
    if ws.len() == 0 {
        Err("Empty command"@)
    } else if denied_names().contains(ws[0]) {
        Err("Denied command"@)
    } else {
        Ok(())
    }
}

/// Screens `command` before it may run.
pub fn check_command(command: &str) -> (r: Result<(), String>)
    ensures
        match r {
            Ok(()) => command_verdict(command@) == Ok::<(), Seq<char>>(()),
            Err(e) => command_verdict(command@) == Err::<(), Seq<char>>(e@),
        },
{
    match first_word(command) {
        None => Err("Empty command".to_string()),
        Some(name) => {
            if is_denied(&name) {
                Err("Denied command".to_string())
            } else {
                Ok(())
            }
        },
    }
}

/// A command whose program name is a refused one is refused, whatever
/// arguments follow the name.
pub proof fn law_denied_program_refused(i: int, rest: Seq<char>)
    requires
        0 <= i < denied_names().len(),
        rest.len() == 0 || is_white_space(rest[0]),
    ensures
        command_verdict(denied_names()[i] + rest) == Err::<(), Seq<char>>("Denied command"@),
{
    reveal_strlit("rm");
    reveal_strlit("dd");
    reveal_strlit("mkfs");
    reveal_strlit(":(");
    reveal_strlit("sudo");
    reveal_strlit("su");
    let name = denied_names()[i];
    assert(name.len() > 0);
    assert forall|k: int| 0 <= k < name.len() implies !is_white_space(#[trigger] name[k]) by {}
    lemma_first_word_of(name, rest);
    assert(denied_names().contains(name));
}

/// Whitespace around a command does not change how it is screened.
pub proof fn law_screening_ignores_surrounding_white_space(
    lead: Seq<char>,
    command: Seq<char>,
    trail: Seq<char>,
)
    requires
        forall|k: int| 0 <= k < lead.len() ==> is_white_space(#[trigger] lead[k]),
        forall|k: int| 0 <= k < trail.len() ==> is_white_space(#[trigger] trail[k]),
    ensures
        command_verdict(lead + command + trail) == command_verdict(command),
{
    lemma_words_append_white_space(command, trail);
    lemma_words_prepend_white_space(lead, command + trail);
    assert(lead + command + trail =~= lead + (command + trail));
}

/// A step of a run that can fail outside the command itself.
#[derive(Clone, Copy, Debug, PartialEq, Eq)]
pub enum ShellFailure {
    Spawn,
    Wait,
    Output,
    Kill,
}

/// The text that introduces a failure of `stage`.
pub open spec fn failure_prefix(stage: ShellFailure) -> Seq<char> {
    match stage {
        ShellFailure::Spawn => "Failed to spawn: "@,
        ShellFailure::Wait => "Wait error: "@,
        ShellFailure::Output => "Failed to get output: "@,
        ShellFailure::Kill => "Failed to kill: "@,
    }
}

/// The error reported when `stage` fails with `detail`.
pub fn failure_message(stage: ShellFailure, detail: &str) -> (m: String)
    ensures
        m@ == failure_prefix(stage) + detail@,
{
    let prefix = match stage {
        ShellFailure::Spawn => "Failed to spawn: ",
        ShellFailure::Wait => "Wait error: ",
        ShellFailure::Output => "Failed to get output: ",
        ShellFailure::Kill => "Failed to kill: ",
    };
    let mut m = prefix.to_string();
    m.append(detail);
    m
}

/// The error reported for a command that outlived its time limit.
pub open spec fn timeout_text() -> Seq<char> {
    "Command timed out after "@ + decimal(TIMEOUT_SECONDS as nat) + " seconds"@
}

/// The error reported for a command that outlived its time limit.
pub fn timeout_message() -> (m: String)
    ensures
        m@ == timeout_text(),
{
    let mut m = "Command timed out after ".to_string();
    let n = decimal_string(TIMEOUT_SECONDS);
    m.append(n.as_str());
    m.append(" seconds");
    m
}

/// What `String::from_utf8_lossy` makes of `bytes`.
pub uninterp spec fn utf8_lossy(bytes: Seq<u8>) -> Seq<char>;

/// Calls `String::from_utf8_lossy` (std). Trusted: the text is the named
/// result `utf8_lossy` of the bytes, and, as std documents, valid UTF-8 is
/// decoded unchanged; how invalid sequences become U+FFFD is left unsaid.
#[verifier::external_body]
fn from_utf8_lossy(bytes: &[u8]) -> (s: String)
    ensures
        s@ == utf8_lossy(bytes@),
        valid_utf8(bytes@) ==> s@ == decode_utf8(bytes@),
{
    String::from_utf8_lossy(bytes).into_owned()
}

/// What a command that ran to its end reports: a preview of each stream,
/// and its result, the standard output on success, the standard error else.
pub struct RunSummary {
    pub stdout_preview: LinePreview,
    pub stderr_preview: LinePreview,
    pub outcome: Result<String, String>,
}

impl RunSummary {
    /// `self` summarizes a run with exit status `success` and the given streams.
    pub open spec fn summarizes(&self, success: bool, stdout: Seq<char>, stderr: Seq<char>) -> bool {
        &&& self.stdout_preview.previews(stdout, STDOUT_PREVIEW_LINES as nat)
        &&& self.stderr_preview.previews(stderr, STDERR_PREVIEW_LINES as nat)
        &&& match self.outcome {
            Ok(out) => success && out@ == stdout,
            Err(err) => !success && err@ == stderr,
        }
    }
}

/// Summarizes a finished run from its decoded streams.
pub fn summarize_run(success: bool, stdout: String, stderr: String) -> (r: RunSummary)
    ensures
        r.summarizes(success, stdout@, stderr@),
{
    let stdout_preview = line_preview(stdout.as_str(), STDOUT_PREVIEW_LINES);
    let stderr_preview = line_preview(stderr.as_str(), STDERR_PREVIEW_LINES);
    let outcome = if success {
        Ok(stdout)
    } else {
        Err(stderr)
    };
    RunSummary { stdout_preview, stderr_preview, outcome }
}

/// Summarizes a finished run from the raw bytes of its streams.
pub fn completed_run(success: bool, stdout: &[u8], stderr: &[u8]) -> (r: RunSummary)
    ensures
        r.summarizes(success, utf8_lossy(stdout@), utf8_lossy(stderr@)),
        valid_utf8(stdout@) ==> r.summarizes(success, decode_utf8(stdout@), utf8_lossy(stderr@)),
        valid_utf8(stderr@) ==> r.summarizes(success, utf8_lossy(stdout@), decode_utf8(stderr@)),
        valid_utf8(stdout@) && valid_utf8(stderr@) ==> r.summarizes(
            success,
            decode_utf8(stdout@),
            decode_utf8(stderr@),
        ),
{
    let out = from_utf8_lossy(stdout);
    let err = from_utf8_lossy(stderr);
    summarize_run(success, out, err)
}

/// Where a run of the shell tool stands.
#[derive(Clone, Copy, Debug, PartialEq, Eq, Structural)]
pub enum ShellPhase {
    /// The command has not been looked at.
    Screening,
    /// The command was allowed and is being started.
    Spawning,
    /// The command runs; the tool waits for it within the time limit.
    Waiting,
    /// The command exited with the given success; its output is being read.
    Collecting(bool),
    /// The command outlived the time limit and is being killed.
    Killing,
    /// The run has ended.
    Finished,
}

/// What the outside world reports to the shell tool.
pub enum ShellEvent {
    /// A command was handed to the tool.
    Requested(String),
    /// The command started.
    Spawned,
    /// The command could not be started, for the given reason.
    SpawnFailed(String),
    /// The command exited within the time limit, successfully or not.
    Exited(bool),
    /// The time limit passed before the command exited.
    TimedOut,
    /// Waiting for the command failed, for the given reason.
    WaitFailed(String),
    /// The command's standard output and standard error, as bytes.
    Output { stdout: Vec<u8>, stderr: Vec<u8> },
    /// Reading the command's output failed, for the given reason.
    OutputFailed(String),
    /// The command was killed.
    Killed,
    /// Killing the command failed, for the given reason.
    KillFailed(String),
}

/// What the shell tool asks the outside world to do next.
pub enum ShellAction {
    /// Announce this command and start it, as it is, under `sh -c`.
    Spawn(String),
    /// Wait for the command to exit, for at most this many seconds.
    Wait(u64),
    /// Read the rest of the command's output.
    Collect,
    /// Announce the time-out with this text, then kill the command.
    Kill(String),
    /// Show the previews of the streams and give the run's outcome.
    Report(RunSummary),
    /// End the run with this error.
    Fail(String),
}

/// The events that can come in `phase`.
pub open spec fn accepts(phase: ShellPhase, event: ShellEvent) -> bool {
    match phase {
        ShellPhase::Screening => event is Requested,
        ShellPhase::Spawning => event is Spawned || event is SpawnFailed,
        ShellPhase::Waiting => event is Exited || event is TimedOut || event is WaitFailed,
        ShellPhase::Collecting(_) => event is Output || event is OutputFailed,
        ShellPhase::Killing => event is Killed || event is KillFailed,
        ShellPhase::Finished => false,
    }
}

/// `action` is the error `message` and the run ends.
pub open spec fn fails_with(next: ShellPhase, action: ShellAction, message: Seq<char>) -> bool {
    &&& next == ShellPhase::Finished
    &&& action matches ShellAction::Fail(m) && m@ == message
}

/// The step that `event` causes in `phase`: the next phase and the action.
pub open spec fn shell_step_spec(
    phase: ShellPhase,
    event: ShellEvent,
    next: ShellPhase,
    action: ShellAction,
) -> bool {
    match event {
        ShellEvent::Requested(c) => match command_verdict(c@) {
            Ok(()) => {
                &&& next == ShellPhase::Spawning
                &&& action matches ShellAction::Spawn(command) && command@ == c@
            },
            Err(e) => fails_with(next, action, e),
        },
        ShellEvent::Spawned => {
            &&& next == ShellPhase::Waiting
            &&& action matches ShellAction::Wait(n) && n == TIMEOUT_SECONDS
        },
        ShellEvent::SpawnFailed(d) => fails_with(
            next,
            action,
            failure_prefix(ShellFailure::Spawn) + d@,
        ),
        ShellEvent::Exited(ok) => next == ShellPhase::Collecting(ok) && action is Collect,
        ShellEvent::TimedOut => {
            &&& next == ShellPhase::Killing
            &&& action matches ShellAction::Kill(m) && m@ == timeout_text()
        },
        ShellEvent::WaitFailed(d) => fails_with(next, action, failure_prefix(ShellFailure::Wait) + d@),
        ShellEvent::Output { stdout, stderr } => {
            &&& next == ShellPhase::Finished
            &&& phase matches ShellPhase::Collecting(ok)
            &&& action matches ShellAction::Report(run)
            &&& run.summarizes(ok, utf8_lossy(stdout@), utf8_lossy(stderr@))
            &&& valid_utf8(stdout@) ==> run.summarizes(ok, decode_utf8(stdout@), utf8_lossy(stderr@))
            &&& valid_utf8(stderr@) ==> run.summarizes(ok, utf8_lossy(stdout@), decode_utf8(stderr@))
            &&& valid_utf8(stdout@) && valid_utf8(stderr@) ==> run.summarizes(
                ok,
                decode_utf8(stdout@),
                decode_utf8(stderr@),
            )
        },
        ShellEvent::OutputFailed(d) => fails_with(
            next,
            action,
            failure_prefix(ShellFailure::Output) + d@,
        ),
        ShellEvent::Killed => fails_with(next, action, timeout_text()),
        ShellEvent::KillFailed(d) => fails_with(next, action, failure_prefix(ShellFailure::Kill) + d@),
    }
}

/// Decides the next step of a run of the shell tool from the event that came
/// in its current phase.
pub fn shell_step(phase: ShellPhase, event: ShellEvent) -> (r: (ShellPhase, ShellAction))
    requires
        accepts(phase, event),
    ensures
        shell_step_spec(phase, event, r.0, r.1),
{
    match event {
        ShellEvent::Requested(c) => match check_command(c.as_str()) {
            Ok(()) => (ShellPhase::Spawning, ShellAction::Spawn(c)),
            Err(e) => (ShellPhase::Finished, ShellAction::Fail(e)),
        },
        ShellEvent::Spawned => (ShellPhase::Waiting, ShellAction::Wait(TIMEOUT_SECONDS)),
        ShellEvent::SpawnFailed(d) => (
            ShellPhase::Finished,
            ShellAction::Fail(failure_message(ShellFailure::Spawn, d.as_str())),
        ),
        ShellEvent::Exited(ok) => (ShellPhase::Collecting(ok), ShellAction::Collect),
        ShellEvent::TimedOut => (ShellPhase::Killing, ShellAction::Kill(timeout_message())),
        ShellEvent::WaitFailed(d) => (
            ShellPhase::Finished,
            ShellAction::Fail(failure_message(ShellFailure::Wait, d.as_str())),
        ),
        ShellEvent::Output { stdout, stderr } => {
            let ok = match phase {
                ShellPhase::Collecting(ok) => ok,
                _ => false,
            };
            let run = completed_run(ok, stdout.as_slice(), stderr.as_slice());
            (ShellPhase::Finished, ShellAction::Report(run))
        },
        ShellEvent::OutputFailed(d) => (
            ShellPhase::Finished,
            ShellAction::Fail(failure_message(ShellFailure::Output, d.as_str())),
        ),
        ShellEvent::Killed => (ShellPhase::Finished, ShellAction::Fail(timeout_message())),
        ShellEvent::KillFailed(d) => (
            ShellPhase::Finished,
            ShellAction::Fail(failure_message(ShellFailure::Kill, d.as_str())),
        ),
    }
}

/// Steps left before a run ends, at most, from `phase`.
pub open spec fn steps_left(phase: ShellPhase) -> nat {
    match phase {
        ShellPhase::Screening => 4,
        ShellPhase::Spawning => 3,
        ShellPhase::Waiting => 2,
        ShellPhase::Collecting(_) => 1,
        ShellPhase::Killing => 1,
        ShellPhase::Finished => 0,
    }
}

/// A command is started only when it was requested and screening allowed it,
/// and then exactly the requested text is started: a refused command is never
/// started.
pub proof fn law_spawn_only_after_screening(
    phase: ShellPhase,
    event: ShellEvent,
    next: ShellPhase,
    action: ShellAction,
)
    requires
        accepts(phase, event),
        shell_step_spec(phase, event, next, action),
        action is Spawn,
    ensures
        phase == ShellPhase::Screening,
        event matches ShellEvent::Requested(c) && command_verdict(c@) == Ok::<(), Seq<char>>(()),
        event matches ShellEvent::Requested(c) && action matches ShellAction::Spawn(started)
            && started@ == c@,
{
}

/// An allowed command is started as it was requested, word for word, and
/// the run then waits for it.
pub proof fn law_allowed_command_is_started(command: String, next: ShellPhase, action: ShellAction)
    requires
        command_verdict(command@) is Ok,
        shell_step_spec(ShellPhase::Screening, ShellEvent::Requested(command), next, action),
    ensures
        next == ShellPhase::Spawning,
        action matches ShellAction::Spawn(started) && started@ == command@,
{
}

/// A refused command ends the run at once with the screening's error.
pub proof fn law_refused_command_ends_run(
    command: String,
    next: ShellPhase,
    action: ShellAction,
)
    requires
        command_verdict(command@) is Err,
        shell_step_spec(ShellPhase::Screening, ShellEvent::Requested(command), next, action),
    ensures
        fails_with(next, action, command_verdict(command@)->Err_0),
        forall|e: ShellEvent| !accepts(next, e),
{
}

/// A command that outlives the time limit is killed, and the run then ends
/// with the time-out error, or with the kill's error when killing fails.
pub proof fn law_timeout_kills(
    next: ShellPhase,
    action: ShellAction,
    kill_event: ShellEvent,
    last: ShellPhase,
    last_action: ShellAction,
)
    requires
        shell_step_spec(ShellPhase::Waiting, ShellEvent::TimedOut, next, action),
        accepts(next, kill_event),
        shell_step_spec(next, kill_event, last, last_action),
    ensures
        next == ShellPhase::Killing,
        action matches ShellAction::Kill(m) && m@ == timeout_text(),
        kill_event is Killed ==> fails_with(last, last_action, timeout_text()),
        kill_event matches ShellEvent::KillFailed(d) ==> fails_with(
            last,
            last_action,
            failure_prefix(ShellFailure::Kill) + d@,
        ),
{
}

/// Every step brings a run closer to its end, so a run ends after at most
/// four steps, and an ended run takes no more events.
pub proof fn law_runs_end(phase: ShellPhase, event: ShellEvent, next: ShellPhase, action: ShellAction)
    requires
        accepts(phase, event),
        shell_step_spec(phase, event, next, action),
    ensures
        steps_left(next) < steps_left(phase),
        steps_left(ShellPhase::Screening) == 4,
        forall|e: ShellEvent| !accepts(ShellPhase::Finished, e),
{
}

/// The six refused program names, written out character by character.
pub open spec fn is_refused_program(w: Seq<char>) -> bool {
    ||| w == seq!['r', 'm']
    ||| w == seq!['d', 'd']
    ||| w == seq!['m', 'k', 'f', 's']
    ||| w == seq![':', '(']
    ||| w == seq!['s', 'u', 'd', 'o']
    ||| w == seq!['s', 'u']
}

/// Screening refuses a command as denied exactly when its first word is one
/// of rm, dd, mkfs, `:(`, sudo and su (whole-word equality, nothing else):
/// a command whose first word is any other word is allowed.
pub proof fn law_denied_exactly_the_six_programs(command: Seq<char>)
    requires
        words(command).len() > 0,
    ensures
        command_verdict(command) is Err <==> is_refused_program(words(command)[0]),
        !is_refused_program(words(command)[0]) ==> command_verdict(command) is Ok,
{
    reveal_strlit("rm");
    reveal_strlit("dd");
    reveal_strlit("mkfs");
    reveal_strlit(":(");
    reveal_strlit("sudo");
    reveal_strlit("su");
    let w = words(command)[0];
    assert("rm"@ =~= seq!['r', 'm']);
    assert("dd"@ =~= seq!['d', 'd']);
    assert("mkfs"@ =~= seq!['m', 'k', 'f', 's']);
    assert(":("@ =~= seq![':', '(']);
    assert("sudo"@ =~= seq!['s', 'u', 'd', 'o']);
    assert("su"@ =~= seq!['s', 'u']);
    assert(denied_names() =~= seq![
        seq!['r', 'm'],
        seq!['d', 'd'],
        seq!['m', 'k', 'f', 's'],
        seq![':', '('],
        seq!['s', 'u', 'd', 'o'],
        seq!['s', 'u'],
    ]);
    if is_refused_program(w) {
        if w == seq!['r', 'm'] {
            assert(denied_names()[0] == w);
        } else if w == seq!['d', 'd'] {
            assert(denied_names()[1] == w);
        } else if w == seq!['m', 'k', 'f', 's'] {
            assert(denied_names()[2] == w);
        } else if w == seq![':', '('] {
            assert(denied_names()[3] == w);
        } else if w == seq!['s', 'u', 'd', 'o'] {
            assert(denied_names()[4] == w);
        } else {
            assert(denied_names()[5] == w);
        }
    }
    if denied_names().contains(w) {
        let i = choose|i: int| 0 <= i < denied_names().len() && denied_names()[i] == w;
        assert(0 <= i < 6);
    }
}

/// On success the outcome is exactly the standard output, whatever the
/// standard error holds; on failure it is exactly the standard error,
/// whatever the standard output holds.
pub proof fn law_outcome_follows_exit_status(
    r: RunSummary,
    success: bool,
    stdout: Seq<char>,
    stderr: Seq<char>,
)
    requires
        r.summarizes(success, stdout, stderr),
    ensures
        success ==> (r.outcome matches Ok(out) && out@ == stdout),
        !success ==> (r.outcome matches Err(err) && err@ == stderr),
{
}

/// Two successful runs with the same standard output report the same
/// outcome, however their standard errors differ; two failed runs with the
/// same standard error report the same outcome, however their outputs differ.
pub proof fn law_outcome_ignores_the_other_stream(
    r1: RunSummary,
    r2: RunSummary,
    success: bool,
    out1: Seq<char>,
    err1: Seq<char>,
    out2: Seq<char>,
    err2: Seq<char>,
)
    requires
        r1.summarizes(success, out1, err1),
        r2.summarizes(success, out2, err2),
    ensures
        success && out1 == out2 ==> (r1.outcome matches Ok(a) && r2.outcome matches Ok(b) && a@
            == b@),
        !success && err1 == err2 ==> (r1.outcome matches Err(a) && r2.outcome matches Err(b)
            && a@ == b@),
{
}

/// A command that exited with status `ok` is then read, and the run reports
/// its decoded standard output when `ok` holds and its decoded standard error
/// otherwise: the exit status, and nothing else, decides the outcome.
pub proof fn law_exit_status_decides_report(
    ok: bool,
    collect: ShellPhase,
    wait_action: ShellAction,
    stdout: Vec<u8>,
    stderr: Vec<u8>,
    last: ShellPhase,
    action: ShellAction,
)
    requires
        shell_step_spec(ShellPhase::Waiting, ShellEvent::Exited(ok), collect, wait_action),
        shell_step_spec(collect, ShellEvent::Output { stdout, stderr }, last, action),
    ensures
        collect == ShellPhase::Collecting(ok),
        last == ShellPhase::Finished,
        ok ==> (action matches ShellAction::Report(run) && run.outcome matches Ok(out) && out@
            == utf8_lossy(stdout@)),
        !ok ==> (action matches ShellAction::Report(run) && run.outcome matches Err(err) && err@
            == utf8_lossy(stderr@)),
{
    if let ShellAction::Report(run) = action {
        law_outcome_follows_exit_status(run, ok, utf8_lossy(stdout@), utf8_lossy(stderr@));
    }
}

/// A started command is waited on for thirty seconds, and a run that
/// outlives them ends with "Command timed out after 30 seconds".
pub proof fn law_time_limit_is_thirty_seconds(next: ShellPhase, action: ShellAction)
    requires
        shell_step_spec(ShellPhase::Spawning, ShellEvent::Spawned, next, action),
    ensures
        action matches ShellAction::Wait(n) && n == 30,
        timeout_text() == "Command timed out after 30 seconds"@,
{
    reveal_strlit("Command timed out after ");
    reveal_strlit(" seconds");
    reveal_strlit("Command timed out after 30 seconds");
    reveal_with_fuel(decimal, 2);
    assert(decimal(30) =~= seq!['3', '0']);
    assert(timeout_text() =~= "Command timed out after 30 seconds"@);
}

/// A finished run shows at most six lines of its standard output and three
/// of its standard error, the first ones, and counts the lines it leaves out.
pub proof fn law_preview_sizes(r: RunSummary, success: bool, stdout: Seq<char>, stderr: Seq<char>)
    requires
        r.summarizes(success, stdout, stderr),
    ensures
        r.stdout_preview.shown.len() == if lines(stdout).len() < 6 { lines(stdout).len() } else { 6 },
        r.stdout_preview.shown.len() + r.stdout_preview.hidden == lines(stdout).len(),
        r.stderr_preview.shown.len() == if lines(stderr).len() < 3 { lines(stderr).len() } else { 3 },
        r.stderr_preview.shown.len() + r.stderr_preview.hidden == lines(stderr).len(),
        forall|i: int|
            0 <= i < r.stdout_preview.shown.len() ==> (#[trigger] r.stdout_preview.shown[i])@
                == lines(stdout)[i],
        forall|i: int|
            0 <= i < r.stderr_preview.shown.len() ==> (#[trigger] r.stderr_preview.shown[i])@
                == lines(stderr)[i],
{
    let o = r.stdout_preview.shown@;
    let e = r.stderr_preview.shown@;
    assert(texts(o).len() == o.len());
    assert(texts(e).len() == e.len());
    assert forall|i: int| 0 <= i < o.len() implies (#[trigger] r.stdout_preview.shown[i])@
        == lines(stdout)[i] by {
        assert(texts(o)[i] == o[i]@);
    }
    assert forall|i: int| 0 <= i < e.len() implies (#[trigger] r.stderr_preview.shown[i])@
        == lines(stderr)[i] by {
        assert(texts(e)[i] == e[i]@);
    }
}

} // verus!
