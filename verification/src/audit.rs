//! Running the audit tool: the command, the record of a run, and the
//! decisions of the runner that watches the child process.
//!
//! The runner itself starts no process. It is told what happened and
//! answers with what to do next; whoever drives it does the work. That the
//! exit code is sent once, and that a run only ends well after both relays
//! have drained their pipes, is proved of every sequence of events.
use crate::error::AuditCheckError;
use crate::split::strings;
use vstd::prelude::*;
use vstd::string::StringExecFns;

verus! {

/// The shell that runs the audit command.
pub const SHELL: &'static str = "sh";

/// The option with which the shell takes a command.
pub const SHELL_OPTION: &'static str = "-c";

/// The audit command up to the deny level.
pub const AUDIT_COMMAND: &'static str = "cargo audit -D";

/// The time to rest between two looks at the child process, in
/// milliseconds.
pub const POLL_INTERVAL_MS: u64 = 500;

/// Composes the command that audits with the deny level `deny`.
pub fn audit_command(deny: &str) -> (command: String)
    ensures
        command@ == AUDIT_COMMAND@ + deny@,
{
    let mut command = AUDIT_COMMAND.to_string();
    command.append(deny);
    command
}

/// Takes the exit code out of an exit status: `code` is what the platform
/// reports for a process that has ended, and is `None` where a signal
/// ended it.
pub fn handle_status(code: Option<i32>) -> (result: Result<i32, AuditCheckError>)
    ensures
        result == match code {
            Some(c) => Ok::<i32, AuditCheckError>(c),
            None => Err(AuditCheckError::Code),
        },
{
    match code {
        Some(c) => Ok(c),
        None => Err(AuditCheckError::Code),
    }
}

/// One run of the audit tool: its command, its exit code once the process
/// has ended, and the lines of its two output streams. Lines are only ever
/// added at the end, and the exit code is set once. With its exit code the
/// record is final: from then on nothing of it changes.
#[derive(Clone, Debug)]
pub struct AuditRun {
    command: String,
    code: Option<i32>,
    stdout: Vec<String>,
    stderr: Vec<String>,
}

/// An `AuditRun` with its texts as sequences of characters.
pub ghost struct AuditRunView {
    pub command: Seq<char>,
    pub code: Option<i32>,
    pub stdout: Seq<Seq<char>>,
    pub stderr: Seq<Seq<char>>,
}

impl View for AuditRun {
    type V = AuditRunView;

    closed spec fn view(&self) -> AuditRunView {
        AuditRunView {
            command: self.command@,
            code: self.code,
            stdout: strings(self.stdout@),
            stderr: strings(self.stderr@),
        }
    }
}

impl AuditRun {
    /// The record of a run that is about to start, for the deny level
    /// `deny`.
    pub fn new(deny: &str) -> (run: AuditRun)
        ensures
            run@ == (AuditRunView {
                command: AUDIT_COMMAND@ + deny@,
                code: None,
                stdout: Seq::empty(),
                stderr: Seq::empty(),
            }),
    {
        let run = AuditRun {
            command: audit_command(deny),
            code: None,
            stdout: Vec::new(),
            stderr: Vec::new(),
        };
        assert(strings(run.stdout@) == Seq::<Seq<char>>::empty());
        assert(strings(run.stderr@) == Seq::<Seq<char>>::empty());
        run
    }

    /// The command of the run.
    pub fn command(&self) -> (command: &str)
        ensures
            command@ == self@.command,
    {
        self.command.as_str()
    }

    /// The exit code, once it is set.
    pub fn code(&self) -> (code: Option<i32>)
        ensures
            code == self@.code,
    {
        self.code
    }

    /// Whether the run has its exit code, so that the record is final.
    pub fn is_final(&self) -> (is_final: bool)
        ensures
            is_final == self@.code is Some,
    {
        self.code.is_some()
    }

    /// The lines of standard output so far.
    pub fn stdout(&self) -> (lines: &Vec<String>)
        ensures
            strings(lines@) == self@.stdout,
    {
        &self.stdout
    }

    /// The lines of standard error so far.
    pub fn stderr(&self) -> (lines: &Vec<String>)
        ensures
            strings(lines@) == self@.stderr,
    {
        &self.stderr
    }

    /// Adds a line at the end of standard output, and returns whether it
    /// did. A run that has its exit code is final and takes no more lines.
    pub fn push_stdout(&mut self, line: String) -> (added: bool)
        ensures
            added == old(self)@.code is None,
            added ==> final(self)@ == (AuditRunView {
                stdout: old(self)@.stdout.push(line@),
                ..old(self)@
            }),
            !added ==> final(self)@ == old(self)@,
    {
        if self.code.is_none() {
            self.stdout.push(line);
            assert(strings(self.stdout@) == strings(old(self).stdout@).push(line@));
            true
        } else {
            false
        }
    }

    /// Adds a line at the end of standard error, and returns whether it
    /// did. A run that has its exit code is final and takes no more lines.
    pub fn push_stderr(&mut self, line: String) -> (added: bool)
        ensures
            added == old(self)@.code is None,
            added ==> final(self)@ == (AuditRunView {
                stderr: old(self)@.stderr.push(line@),
                ..old(self)@
            }),
            !added ==> final(self)@ == old(self)@,
    {
        if self.code.is_none() {
            self.stderr.push(line);
            assert(strings(self.stderr@) == strings(old(self).stderr@).push(line@));
            true
        } else {
            false
        }
    }

    /// Sets the exit code of a run that has none yet, and returns whether
    /// it did. A run that has its exit code keeps it.
    pub fn set_code(&mut self, code: i32) -> (set: bool)
        ensures
            set == old(self)@.code is None,
            set ==> final(self)@ == (AuditRunView { code: Some(code), ..old(self)@ }),
            !set ==> final(self)@ == old(self)@,
    {
        if self.code.is_none() {
            self.code = Some(code);
            true
        } else {
            false
        }
    }
}

/// What was seen of the child process at one look.
#[derive(Clone, Copy, Debug, PartialEq, Eq)]
pub enum Poll {
    /// The process is still running.
    Running,
    /// The process has ended, with this exit code if it has one.
    Exited(Option<i32>),
    /// The look itself failed.
    Failed,
}

/// What happened when the runner's last instruction was carried out.
#[derive(Clone, Copy, Debug, PartialEq, Eq)]
pub enum RunnerEvent {
    /// The child process was not created.
    SpawnFailed,
    /// The child process was created; which of its pipes could be taken.
    Spawned { stdout: bool, stderr: bool },
    /// A relay is running on each pipe.
    RelaysStarted,
    /// The child process was looked at.
    Polled(Poll),
    /// The rest is over.
    Rested,
    /// The exit code was sent.
    CodeSent,
    /// The exit code could not be sent: nobody waits for it any more.
    CodeLost,
    /// The child process was ended and waited for.
    Abandoned,
    /// Both relays have ended; whether each one ended well.
    Drained { stdout: bool, stderr: bool },
}

/// What the runner wants done next.
#[derive(Clone, Copy, Debug, PartialEq, Eq)]
pub enum RunnerAction {
    /// Create the child process with both outputs on pipes, and take the
    /// pipes.
    Spawn,
    /// Start a relay on each pipe.
    StartRelays,
    /// Look at the child process without waiting for it.
    Poll,
    /// Rest for this many milliseconds.
    Rest(u64),
    /// Send the exit code to whoever waits for it.
    SendCode(i32),
    /// End the child process and wait for it, so that nothing of it stays
    /// behind.
    Abandon,
    /// Wait for both relays to end.
    Drain,
    /// The run is over, with the exit code or with a failure.
    Finish(RunnerResult),
}

/// How a run ended.
#[derive(Clone, Copy, Debug, PartialEq, Eq)]
pub enum RunnerResult {
    /// The audit tool ran and ended with this exit code, and all it printed
    /// has been relayed.
    Code(i32),
    /// The child process could not be created.
    SpawnFailed,
    /// Standard output could not be attached.
    NoStdout,
    /// Standard error could not be attached.
    NoStderr,
    /// The child process ended without an exit code, or could not be
    /// looked at.
    NoCode,
    /// A relay did not end well, or an event came that the runner had not
    /// asked for.
    Disorder,
}

/// Where the runner stands.
#[derive(Clone, Copy, Debug, PartialEq, Eq)]
pub enum RunnerState {
    /// Waiting for the child process to be created.
    Spawning,
    /// Waiting for the relays to be started.
    Starting,
    /// Waiting for a look at the child process.
    Polling,
    /// Resting between two looks.
    Resting,
    /// Waiting for the exit code to be sent.
    Sending(i32),
    /// Waiting for the child process to be ended, to finish with this
    /// result; `relaying` tells whether the relays run.
    Abandoning { result: RunnerResult, relaying: bool },
    /// Waiting for the relays to end, to finish with this result.
    Draining(RunnerResult),
    /// The run is over.
    Done,
}

impl RunnerResult {
    /// The result in the terms of the check: the exit code, or the error
    /// that the failure stands for.
    pub fn into_result(self) -> (result: Result<i32, AuditCheckError>)
        ensures
            result == match self {
                RunnerResult::Code(code) => Ok::<i32, AuditCheckError>(code),
                RunnerResult::SpawnFailed => Err(AuditCheckError::Spawn),
                RunnerResult::NoStdout => Err(AuditCheckError::Stdout),
                RunnerResult::NoStderr => Err(AuditCheckError::Stderr),
                RunnerResult::NoCode => Err(AuditCheckError::Code),
                RunnerResult::Disorder => Err(AuditCheckError::Join),
            },
    {
        match self {
            RunnerResult::Code(code) => Ok(code),
            RunnerResult::SpawnFailed => Err(AuditCheckError::Spawn),
            RunnerResult::NoStdout => Err(AuditCheckError::Stdout),
            RunnerResult::NoStderr => Err(AuditCheckError::Stderr),
            RunnerResult::NoCode => Err(AuditCheckError::Code),
            RunnerResult::Disorder => Err(AuditCheckError::Join),
        }
    }
}

/// The result with which a run ends once the relays have ended: the one
/// that was waited with, unless a relay did not end well.
pub open spec fn drained(result: RunnerResult, stdout: bool, stderr: bool) -> RunnerResult {
    if stdout && stderr {
        result
    } else {
        match result {
            RunnerResult::Code(_) => RunnerResult::Disorder,
            failure => failure,
        }
    }
}

/// The runner's rule: where it stands next and what it wants done, given
/// where it stands and what happened.
///
/// A child process that was created is looked at until it has ended, with a
/// rest after every look that found it running. Its exit code is sent as
/// soon as it is known. Whatever way the run goes after the relays were
/// started, it ends only when they have ended; and a child process that
/// was created and may still run is ended before the run is given up.
pub open spec fn next(state: RunnerState, event: RunnerEvent) -> (RunnerState, RunnerAction) {
    match (state, event) {
        (RunnerState::Spawning, RunnerEvent::SpawnFailed) => (
            RunnerState::Done,
            RunnerAction::Finish(RunnerResult::SpawnFailed),
        ),
        (RunnerState::Spawning, RunnerEvent::Spawned { stdout, stderr }) => if !stdout {
            (
                RunnerState::Abandoning { result: RunnerResult::NoStdout, relaying: false },
                RunnerAction::Abandon,
            )
        } else if !stderr {
            (
                RunnerState::Abandoning { result: RunnerResult::NoStderr, relaying: false },
                RunnerAction::Abandon,
            )
        } else {
            (RunnerState::Starting, RunnerAction::StartRelays)
        },
        (RunnerState::Starting, RunnerEvent::RelaysStarted) => (
            RunnerState::Polling,
            RunnerAction::Poll,
        ),
        (RunnerState::Polling, RunnerEvent::Polled(Poll::Running)) => (
            RunnerState::Resting,
            RunnerAction::Rest(POLL_INTERVAL_MS),
        ),
        (RunnerState::Polling, RunnerEvent::Polled(Poll::Exited(Some(code)))) => (
            RunnerState::Sending(code),
            RunnerAction::SendCode(code),
        ),
        (RunnerState::Polling, RunnerEvent::Polled(Poll::Exited(None))) => (
            RunnerState::Draining(RunnerResult::NoCode),
            RunnerAction::Drain,
        ),
        (RunnerState::Polling, RunnerEvent::Polled(Poll::Failed)) => (
            RunnerState::Abandoning { result: RunnerResult::NoCode, relaying: true },
            RunnerAction::Abandon,
        ),
        (RunnerState::Resting, RunnerEvent::Rested) => (RunnerState::Polling, RunnerAction::Poll),
        (RunnerState::Sending(code), RunnerEvent::CodeSent) => (
            RunnerState::Draining(RunnerResult::Code(code)),
            RunnerAction::Drain,
        ),
        (RunnerState::Abandoning { result, relaying }, RunnerEvent::Abandoned) => if relaying {
            (RunnerState::Draining(result), RunnerAction::Drain)
        } else {
            (RunnerState::Done, RunnerAction::Finish(result))
        },
        (RunnerState::Draining(result), RunnerEvent::Drained { stdout, stderr }) => (
            RunnerState::Done,
            RunnerAction::Finish(drained(result, stdout, stderr)),
        ),
        // An event that was not asked for: the run is given up, after the
        // child process and the relays are seen to as far as they exist.
        (RunnerState::Starting, _) => (
            RunnerState::Abandoning { result: RunnerResult::Disorder, relaying: false },
            RunnerAction::Abandon,
        ),
        (RunnerState::Polling, _) | (RunnerState::Resting, _) | (RunnerState::Sending(_), _) => (
            RunnerState::Abandoning { result: RunnerResult::Disorder, relaying: true },
            RunnerAction::Abandon,
        ),
        (RunnerState::Abandoning { result, relaying }, _) => (
            RunnerState::Abandoning { result, relaying },
            RunnerAction::Abandon,
        ),
        (RunnerState::Draining(result), _) => (RunnerState::Draining(result), RunnerAction::Drain),
        (RunnerState::Spawning, _) | (RunnerState::Done, _) => (
            RunnerState::Done,
            RunnerAction::Finish(RunnerResult::Disorder),
        ),
    }
}

/// Where a runner begins: it wants the child process created.
pub fn start() -> (begin: (RunnerState, RunnerAction))
    ensures
        begin == (RunnerState::Spawning, RunnerAction::Spawn),
{
    (RunnerState::Spawning, RunnerAction::Spawn)
}

/// Takes one step of the runner's rule.
pub fn step(state: RunnerState, event: RunnerEvent) -> (after: (RunnerState, RunnerAction))
    ensures
        after == next(state, event),
{
    match state {
        RunnerState::Spawning => match event {
            RunnerEvent::SpawnFailed => (
                RunnerState::Done,
                RunnerAction::Finish(RunnerResult::SpawnFailed),
            ),
            RunnerEvent::Spawned { stdout, stderr } => {
                if !stdout {
                    (
                        RunnerState::Abandoning { result: RunnerResult::NoStdout, relaying: false },
                        RunnerAction::Abandon,
                    )
                } else if !stderr {
                    (
                        RunnerState::Abandoning { result: RunnerResult::NoStderr, relaying: false },
                        RunnerAction::Abandon,
                    )
                } else {
                    (RunnerState::Starting, RunnerAction::StartRelays)
                }
            },
            _ => (RunnerState::Done, RunnerAction::Finish(RunnerResult::Disorder)),
        },
        RunnerState::Starting => match event {
            RunnerEvent::RelaysStarted => (RunnerState::Polling, RunnerAction::Poll),
            _ => (
                RunnerState::Abandoning { result: RunnerResult::Disorder, relaying: false },
                RunnerAction::Abandon,
            ),
        },
        RunnerState::Polling => match event {
            RunnerEvent::Polled(Poll::Running) => (
                RunnerState::Resting,
                RunnerAction::Rest(POLL_INTERVAL_MS),
            ),
            RunnerEvent::Polled(Poll::Exited(Some(code))) => (
                RunnerState::Sending(code),
                RunnerAction::SendCode(code),
            ),
            RunnerEvent::Polled(Poll::Exited(None)) => (
                RunnerState::Draining(RunnerResult::NoCode),
                RunnerAction::Drain,
            ),
            RunnerEvent::Polled(Poll::Failed) => (
                RunnerState::Abandoning { result: RunnerResult::NoCode, relaying: true },
                RunnerAction::Abandon,
            ),
            _ => (
                RunnerState::Abandoning { result: RunnerResult::Disorder, relaying: true },
                RunnerAction::Abandon,
            ),
        },
        RunnerState::Resting => match event {
            RunnerEvent::Rested => (RunnerState::Polling, RunnerAction::Poll),
            _ => (
                RunnerState::Abandoning { result: RunnerResult::Disorder, relaying: true },
                RunnerAction::Abandon,
            ),
        },
        RunnerState::Sending(code) => match event {
            RunnerEvent::CodeSent => (
                RunnerState::Draining(RunnerResult::Code(code)),
                RunnerAction::Drain,
            ),
            _ => (
                RunnerState::Abandoning { result: RunnerResult::Disorder, relaying: true },
                RunnerAction::Abandon,
            ),
        },
        RunnerState::Abandoning { result, relaying } => match event {
            RunnerEvent::Abandoned => {
                if relaying {
                    (RunnerState::Draining(result), RunnerAction::Drain)
                } else {
                    (RunnerState::Done, RunnerAction::Finish(result))
                }
            },
            _ => (RunnerState::Abandoning { result, relaying }, RunnerAction::Abandon),
        },
        RunnerState::Draining(result) => match event {
            RunnerEvent::Drained { stdout, stderr } => {
                let end = if stdout && stderr {
                    result
                } else {
                    match result {
                        RunnerResult::Code(_) => RunnerResult::Disorder,
                        failure => failure,
                    }
                };
                (RunnerState::Done, RunnerAction::Finish(end))
            },
            _ => (RunnerState::Draining(result), RunnerAction::Drain),
        },
        RunnerState::Done => (RunnerState::Done, RunnerAction::Finish(RunnerResult::Disorder)),
    }
}

/// What the runner has asked for after the events `events`, and where it
/// then stands. The runner's first wish, to have the child process created,
/// comes before any event and is not listed.
pub open spec fn runner_course(events: Seq<RunnerEvent>) -> (RunnerState, Seq<RunnerAction>)
    decreases events.len(),
{
    if events.len() == 0 {
        (RunnerState::Spawning, Seq::empty())
    } else {
        let (state, asked) = runner_course(events.drop_last());
        let (state, action) = next(state, events.last());
        (state, asked.push(action))
    }
}

/// How often `asked` wants an exit code sent.
pub open spec fn codes_sent(asked: Seq<RunnerAction>) -> nat
    decreases asked.len(),
{
    if asked.len() == 0 {
        0
    } else {
        codes_sent(asked.drop_last()) + if asked.last() is SendCode {
            1nat
        } else {
            0nat
        }
    }
}

/// Whether the runner is past the point at which an exit code can be sent.
pub open spec fn past_sending(state: RunnerState) -> bool {
    match state {
        RunnerState::Spawning | RunnerState::Starting | RunnerState::Polling | RunnerState::Resting => false,
        _ => true,
    }
}

/// Whatever happens, the runner asks at most once for an exit code to be
/// sent.
pub proof fn lemma_code_is_sent_once(events: Seq<RunnerEvent>)
    ensures
        codes_sent(runner_course(events).1) <= 1,
        codes_sent(runner_course(events).1) == 1 ==> past_sending(runner_course(events).0),
    decreases events.len(),
{
    if events.len() > 0 {
        lemma_code_is_sent_once(events.drop_last());
        let (state, asked) = runner_course(events.drop_last());
        let (after, action) = next(state, events.last());
        assert(runner_course(events).1 == asked.push(action));
        assert(asked.push(action).drop_last() == asked);
    }
}

/// Whether a run can stand at `state`: the runner never ends the child
/// process while it holds an exit code to finish with.
pub open spec fn reachable(state: RunnerState) -> bool {
    match state {
        RunnerState::Abandoning { result, .. } => !(result is Code),
        _ => true,
    }
}

/// Every run stands at a state that `reachable` admits.
pub proof fn lemma_runs_are_reachable(events: Seq<RunnerEvent>)
    ensures
        reachable(runner_course(events).0),
    decreases events.len(),
{
    if events.len() > 0 {
        lemma_runs_are_reachable(events.drop_last());
    }
}

/// A run ends with an exit code only when both relays have ended well: the
/// runner finishes with a code on no other event, and only while it waits
/// for the relays with that code.
pub proof fn lemma_code_comes_after_the_relays(events: Seq<RunnerEvent>)
    requires
        events.len() > 0,
    ensures
        runner_course(events).1.last() matches RunnerAction::Finish(RunnerResult::Code(code)) ==> runner_course(
            events.drop_last(),
        ).0 == RunnerState::Draining(RunnerResult::Code(code)) && events.last() == (
        RunnerEvent::Drained { stdout: true, stderr: true }),
{
    lemma_runs_are_reachable(events.drop_last());
}

/// The exit code that the runner holds to finish with, if it holds one.
pub open spec fn held_code(state: RunnerState) -> Option<i32> {
    match state {
        RunnerState::Sending(code) => Some(code),
        RunnerState::Draining(RunnerResult::Code(code)) => Some(code),
        _ => None,
    }
}

/// The exit code that a run ends with is the one that was sent, and it was
/// sent exactly once: a runner that holds a code, or has just finished
/// with one, has asked for that code to be sent, and for no other.
pub proof fn lemma_the_code_sent_is_the_code_of_the_run(events: Seq<RunnerEvent>)
    ensures
        held_code(runner_course(events).0) matches Some(code) ==> codes_sent(runner_course(events).1) == 1 && runner_course(
            events,
        ).1.contains(RunnerAction::SendCode(code)),
        events.len() > 0 ==> (runner_course(events).1.last() matches RunnerAction::Finish(
            RunnerResult::Code(code),
        ) ==> codes_sent(runner_course(events).1) == 1 && runner_course(events).1.contains(
            RunnerAction::SendCode(code),
        )),
    decreases events.len(),
{
    if events.len() > 0 {
        let before = events.drop_last();
        lemma_the_code_sent_is_the_code_of_the_run(before);
        lemma_code_is_sent_once(before);
        lemma_runs_are_reachable(before);
        let (state, asked) = runner_course(before);
        let (after, action) = next(state, events.last());
        let now = asked.push(action);
        assert(runner_course(events).1 == now);
        assert(now.drop_last() == asked);
        assert(now.last() == action);
        assert forall|sent: RunnerAction| asked.contains(sent) implies now.contains(sent) by {
            let i = choose|i: int| 0 <= i < asked.len() && asked[i] == sent;
            assert(now[i] == sent);
        }
        assert(now[now.len() - 1] == action);
    }
}

/// The runner never looks at the child process twice without a rest in
/// between, and never rests twice without a look.
pub proof fn lemma_looks_and_rests_take_turns(state: RunnerState, event: RunnerEvent)
    ensures
        next(state, event).1 is Poll ==> event is Rested || event is RelaysStarted,
        next(state, event).1 is Rest ==> event == RunnerEvent::Polled(Poll::Running),
        next(state, event).1 matches RunnerAction::Rest(ms) ==> ms == POLL_INTERVAL_MS,
{
}

} // verus!
