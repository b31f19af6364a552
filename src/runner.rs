//! The scenario runner's decisions: which command to run next, and how a run ends.
//! Running the commands, and the timer, are the caller's; it reports each exit and the
//! timer's expiry back as a `RunnerEvent`.
use vstd::prelude::*;
use vstd::string::StringExecFns;
use crate::unit::{UnitName, UnitNameView};

verus! {

/// One test of a scenario: its name and the command it runs.
#[derive(Debug)]
pub struct TestStep {
    pub name: UnitName,
    pub command: String,
}

/// A snapshot of a scenario taken when it starts.
#[derive(Debug)]
pub struct ScenarioPlan {
    pub scenario: UnitName,
    pub steps: Vec<TestStep>,
    pub exec_stop: Option<String>,
    /// The limit on the whole run, in seconds.
    pub timeout: Option<u64>,
}

/// How the tests of a run ended.
#[derive(PartialEq, Eq, Structural, Clone, Copy, Debug)]
pub enum Outcome {
    Passed,
    /// The test at this position exited with this nonzero code.
    Failed(usize, i32),
    TimedOut,
}

/// Where a run stands.
#[derive(PartialEq, Eq, Structural, Clone, Copy, Debug)]
pub enum RunnerState {
    /// The test at this position is running.
    Testing(usize),
    /// The ExecStop command is running; the tests ended with this outcome.
    Stopping(Outcome),
    Done,
}

/// What the caller reports.
#[derive(PartialEq, Eq, Structural, Clone, Copy, Debug)]
pub enum RunnerEvent {
    /// The running command exited with this code.
    Exited(i32),
    /// The run's timer expired.
    TimedOut,
}

/// What the caller is to do next.
#[derive(Debug)]
pub enum RunnerAction {
    /// Run `command`, tagging its output with `unit`.
    Run { unit: UnitName, command: String },
    /// The run is over: post `ScenarioFinished(code, summary)`.
    Finish { code: i32, summary: String },
    /// Nothing is left to do.
    Idle,
}

pub open spec fn timeout_code() -> i32 {
    -1i32
}

/// The exit status a run reports: 0 when every test passed.
pub open spec fn code_of(o: Outcome) -> i32 {
    match o {
        Outcome::Passed => 0,
        Outcome::Failed(_, c) => c,
        Outcome::TimedOut => timeout_code(),
    }
}

/// The summary a run reports.
pub open spec fn summary_of(p: ScenarioPlan, o: Outcome) -> Seq<char> {
    match o {
        Outcome::Passed => "all tests passed"@,
        Outcome::Failed(k, _) => "test "@ + crate::unitmanager::name_text(p.steps@[k as int].name@)
            + " failed"@,
        Outcome::TimedOut => "scenario timeout expired"@,
    }
}

/// The action is to run `command` for `unit`.
pub open spec fn runs(a: RunnerAction, unit: UnitName, command: String) -> bool {
    a matches RunnerAction::Run { unit: u, command: c } && u == unit && c == command
}

/// The action ends the run of `p` with outcome `o`.
pub open spec fn finishes(a: RunnerAction, p: ScenarioPlan, o: Outcome) -> bool {
    a matches RunnerAction::Finish { code, summary } && code == code_of(o) && summary@ == summary_of(p, o)
}

/// The tests ended with `o`: run ExecStop if there is one, else finish.
pub open spec fn stop_step(p: ScenarioPlan, o: Outcome, r: (RunnerState, RunnerAction)) -> bool {
    match p.exec_stop {
        Some(cmd) => r.0 == RunnerState::Stopping(o) && runs(r.1, p.scenario, cmd),
        None => r.0 == RunnerState::Done && finishes(r.1, p, o),
    }
}

/// Outcomes and states that point at a test of `p`.
pub open spec fn state_fits(p: ScenarioPlan, s: RunnerState) -> bool {
    match s {
        RunnerState::Testing(k) => k < p.steps@.len(),
        RunnerState::Stopping(Outcome::Failed(k, _)) => k < p.steps@.len(),
        _ => true,
    }
}

/// The step that follows event `e` in state `s`.
pub open spec fn next_step(p: ScenarioPlan, s: RunnerState, e: RunnerEvent, r: (RunnerState, RunnerAction)) -> bool {
    match s {
        RunnerState::Testing(k) => match e {
            RunnerEvent::Exited(0) => if k + 1 < p.steps@.len() {
                r.0 == RunnerState::Testing((k + 1) as usize) && runs(
                    r.1,
                    p.steps@[k + 1].name,
                    p.steps@[k + 1].command,
                )
            } else {
                stop_step(p, Outcome::Passed, r)
            },
            RunnerEvent::Exited(c) => stop_step(p, Outcome::Failed(k, c), r),
            RunnerEvent::TimedOut => stop_step(p, Outcome::TimedOut, r),
        },
        RunnerState::Stopping(o) => r.0 == RunnerState::Done && finishes(r.1, p, o),
        RunnerState::Done => r.0 == RunnerState::Done && r.1 is Idle,
    }
}

fn finish(p: &ScenarioPlan, o: Outcome) -> (r: RunnerAction)
    requires
        state_fits(*p, RunnerState::Stopping(o)),
    ensures
        finishes(r, *p, o),
{
    match o {
        Outcome::Passed => RunnerAction::Finish { code: 0, summary: String::from_str("all tests passed") },
        Outcome::Failed(k, c) => {
            let mut s = String::from_str("test ");
            s.append(p.steps[k].name.to_string().as_str());
            s.append(" failed");
            RunnerAction::Finish { code: c, summary: s }
        },
        Outcome::TimedOut => RunnerAction::Finish {
            code: -1,
            summary: String::from_str("scenario timeout expired"),
        },
    }
}

fn enter_stop(p: &ScenarioPlan, o: Outcome) -> (r: (RunnerState, RunnerAction))
    requires
        state_fits(*p, RunnerState::Stopping(o)),
    ensures
        stop_step(*p, o, r),
        state_fits(*p, r.0),
{
    match &p.exec_stop {
        Some(cmd) => (
            RunnerState::Stopping(o),
            RunnerAction::Run { unit: p.scenario.clone(), command: cmd.clone() },
        ),
        None => (RunnerState::Done, finish(p, o)),
    }
}

fn run_test(p: &ScenarioPlan, k: usize) -> (r: (RunnerState, RunnerAction))
    requires
        k < p.steps@.len(),
    ensures
        r.0 == RunnerState::Testing(k),
        runs(r.1, p.steps@[k as int].name, p.steps@[k as int].command),
{
    (
        RunnerState::Testing(k),
        RunnerAction::Run { unit: p.steps[k].name.clone(), command: p.steps[k].command.clone() },
    )
}

/// Starts a run: the first test, or straight to ExecStop when there are no tests.
pub fn start(p: &ScenarioPlan) -> (r: (RunnerState, RunnerAction))
    ensures
        state_fits(*p, r.0),
        p.steps@.len() > 0 ==> r.0 == RunnerState::Testing(0) && runs(
            r.1,
            p.steps@[0].name,
            p.steps@[0].command,
        ),
        p.steps@.len() == 0 ==> stop_step(*p, Outcome::Passed, r),
{
    if p.steps.len() > 0 {
        run_test(p, 0)
    } else {
        enter_stop(p, Outcome::Passed)
    }
}

/// Decides what follows an event. Tests run strictly in order; a nonzero exit or the
/// timer's expiry ends the tests; ExecStop runs whatever the outcome; then the run finishes.
pub fn step(p: &ScenarioPlan, s: RunnerState, e: RunnerEvent) -> (r: (RunnerState, RunnerAction))
    requires
        state_fits(*p, s),
    ensures
        state_fits(*p, r.0),
        next_step(*p, s, e, r),
{
    match s {
        RunnerState::Testing(k) => match e {
            RunnerEvent::Exited(c) => {
                if c == 0 {
                    if k < p.steps.len() - 1 {
                        run_test(p, k + 1)
                    } else {
                        enter_stop(p, Outcome::Passed)
                    }
                } else {
                    enter_stop(p, Outcome::Failed(k, c))
                }
            },
            RunnerEvent::TimedOut => enter_stop(p, Outcome::TimedOut),
        },
        RunnerState::Stopping(o) => (RunnerState::Done, finish(p, o)),
        RunnerState::Done => (RunnerState::Done, RunnerAction::Idle),
    }
}

/// A test that exits nonzero ends the tests: no later test runs, at most ExecStop does, and
/// the run finishes with that test's code and a summary naming it.
pub proof fn failing_test_ends_the_tests(
    p: ScenarioPlan,
    k: usize,
    c: i32,
    r: (RunnerState, RunnerAction),
)
    requires
        k < p.steps@.len(),
        c != 0,
        next_step(p, RunnerState::Testing(k), RunnerEvent::Exited(c), r),
    ensures
        !(r.0 is Testing),
        r.1 matches RunnerAction::Run { unit, .. } ==> unit == p.scenario,
        r.0 is Stopping ==> r.0 == RunnerState::Stopping(Outcome::Failed(k, c)),
        r.1 is Finish ==> finishes(r.1, p, Outcome::Failed(k, c)),
        code_of(Outcome::Failed(k, c)) != 0,
        summary_of(p, Outcome::Failed(k, c)) == "test "@ + crate::unitmanager::name_text(
            p.steps@[k as int].name@,
        ) + " failed"@,
{
}

/// The timer's expiry during the tests ends them: no later test runs, and the run finishes
/// with a nonzero code and a summary that names the timeout.
pub proof fn timeout_ends_the_tests(p: ScenarioPlan, k: usize, r: (RunnerState, RunnerAction))
    requires
        k < p.steps@.len(),
        next_step(p, RunnerState::Testing(k), RunnerEvent::TimedOut, r),
    ensures
        !(r.0 is Testing),
        r.1 matches RunnerAction::Run { unit, .. } ==> unit == p.scenario,
        r.0 is Stopping ==> r.0 == RunnerState::Stopping(Outcome::TimedOut),
        r.1 is Finish ==> finishes(r.1, p, Outcome::TimedOut),
        code_of(Outcome::TimedOut) != 0,
        summary_of(p, Outcome::TimedOut) == "scenario timeout expired"@,
{
}

/// Once ExecStop has run, the run finishes with the outcome the tests had.
pub proof fn stop_then_finish(p: ScenarioPlan, o: Outcome, e: RunnerEvent, r: (RunnerState, RunnerAction))
    requires
        next_step(p, RunnerState::Stopping(o), e, r),
    ensures
        r.0 == RunnerState::Done,
        finishes(r.1, p, o),
{
}

} // verus!
