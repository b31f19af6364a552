use exclave::runner::{start, step, RunnerAction, RunnerEvent, RunnerState, ScenarioPlan, TestStep};
use exclave::unit::UnitName;

fn name(id: &str, kind: &str) -> UnitName {
    UnitName::from_str(id, kind).unwrap()
}

fn plan(scenario: &str, tests: &[(&str, &str)], stop: Option<&str>, timeout: Option<u64>) -> ScenarioPlan {
    ScenarioPlan {
        scenario: name(scenario, "scenario"),
        steps: tests
            .iter()
            .map(|(t, c)| TestStep { name: name(t, "test"), command: c.to_string() })
            .collect(),
        exec_stop: stop.map(|s| s.to_string()),
        timeout,
    }
}

fn run_of(a: &RunnerAction) -> (String, String) {
    match a {
        RunnerAction::Run { unit, command } => (unit.to_string(), command.clone()),
        other => panic!("expected a command to run, got {:?}", other),
    }
}

#[test]
fn tests_run_in_declared_order() {
    let p = plan(
        "three",
        &[("test1", "echo test1"), ("test2", "echo test2"), ("test3", "echo test3")],
        None,
        Some(200),
    );
    let (mut s, a) = start(&p);
    let mut ran = vec![run_of(&a).0];
    loop {
        let (s2, a2) = step(&p, s, RunnerEvent::Exited(0));
        s = s2;
        match a2 {
            RunnerAction::Run { unit, .. } => ran.push(unit.to_string()),
            RunnerAction::Finish { code, summary } => {
                assert_eq!(code, 0);
                assert_eq!(summary, "all tests passed");
                break;
            },
            RunnerAction::Idle => panic!("run ended without finishing"),
        }
    }
    assert_eq!(ran, vec!["test1.test", "test2.test", "test3.test"]);
    assert_eq!(s, RunnerState::Done);
}

#[test]
fn exec_stop_runs_after_tests() {
    let stop = "echo cmd-starting; sleep 1; echo cmd-ending";
    let p = plan("execstop", &[("simpletest", "echo begin; echo end")], Some(stop), None);
    let (s, a) = start(&p);
    assert_eq!(run_of(&a), ("simpletest.test".to_string(), "echo begin; echo end".to_string()));
    let (s, a) = step(&p, s, RunnerEvent::Exited(0));
    assert_eq!(run_of(&a), ("execstop.scenario".to_string(), stop.to_string()));
    let (s, a) = step(&p, s, RunnerEvent::Exited(0));
    assert!(matches!(a, RunnerAction::Finish { code: 0, .. }));
    assert_eq!(s, RunnerState::Done);
}

#[test]
fn failing_test_stops_scenario() {
    let p = plan("ord", &[("a", "exit 0"), ("b", "exit 7"), ("c", "exit 0")], None, None);
    let (s, a) = start(&p);
    assert_eq!(run_of(&a).0, "a.test");
    let (s, a) = step(&p, s, RunnerEvent::Exited(0));
    assert_eq!(run_of(&a).0, "b.test");
    let (s, a) = step(&p, s, RunnerEvent::Exited(7));
    match a {
        RunnerAction::Finish { code, summary } => {
            assert_ne!(code, 0);
            assert_eq!(code, 7);
            assert!(summary.contains("b"));
            assert_eq!(summary, "test b.test failed");
        },
        other => panic!("expected the run to finish, got {:?}", other),
    }
    assert_eq!(s, RunnerState::Done);
    let (_, a) = step(&p, s, RunnerEvent::Exited(0));
    assert!(matches!(a, RunnerAction::Idle));
}

#[test]
fn failing_test_still_runs_exec_stop() {
    let p = plan("ord", &[("a", "exit 3")], Some("cleanup"), None);
    let (s, _) = start(&p);
    let (s, a) = step(&p, s, RunnerEvent::Exited(3));
    assert_eq!(run_of(&a), ("ord.scenario".to_string(), "cleanup".to_string()));
    let (_, a) = step(&p, s, RunnerEvent::Exited(0));
    assert!(matches!(a, RunnerAction::Finish { code: 3, .. }));
}

#[test]
fn timeout_preempts_the_running_test() {
    let p = plan("slow", &[("sleeper", "sleep 10")], None, Some(1));
    let (s, _) = start(&p);
    let (s, a) = step(&p, s, RunnerEvent::TimedOut);
    match a {
        RunnerAction::Finish { code, summary } => {
            assert_ne!(code, 0);
            assert!(summary.contains("timeout"));
        },
        other => panic!("expected the run to finish, got {:?}", other),
    }
    assert_eq!(s, RunnerState::Done);
}

#[test]
fn empty_scenario_passes_at_once() {
    let p = plan("empty", &[], None, None);
    let (s, a) = start(&p);
    assert!(matches!(a, RunnerAction::Finish { code: 0, .. }));
    assert_eq!(s, RunnerState::Done);
}
