use exclave::events::{
    FieldType, LogLevel, ManagerControlMessage, ManagerControlMessageContents, ManagerStatusMessage,
    UnitEvent, UnitStatus,
};
use exclave::runner::{start, step, RunnerAction, RunnerEvent};
use exclave::unit::UnitName;
use exclave::unitmanager::{LoadError, UnitActivateError, UnitManager, UnitSelectError};
use exclave::units::{UnitDescription, UnitPayload, UnitState};

fn name(id: &str, kind: &str) -> UnitName {
    UnitName::from_str(id, kind).unwrap()
}

fn jig(id: &str, default_scenario: Option<&str>) -> UnitDescription {
    UnitDescription {
        id: name(id, "jig"),
        name: "Generic Jig".to_string(),
        description: "Generic, all-purpose jig".to_string(),
        payload: UnitPayload::Jig { default_scenario: default_scenario.map(|s| name(s, "scenario")) },
    }
}

fn test(id: &str, cmd: &str) -> UnitDescription {
    UnitDescription {
        id: name(id, "test"),
        name: format!("{} name", id),
        description: format!("{} description", id),
        payload: UnitPayload::Test { exec_start: cmd.to_string() },
    }
}

fn scenario(id: &str, tests: &[&str], stop: Option<&str>, timeout: Option<u64>) -> UnitDescription {
    UnitDescription {
        id: name(id, "scenario"),
        name: "Simple Scenario".to_string(),
        description: "Just run some tests".to_string(),
        payload: UnitPayload::Scenario {
            tests: tests.iter().map(|t| name(t, "test")).collect(),
            exec_stop: stop.map(|s| s.to_string()),
            timeout,
        },
    }
}

fn interface(id: &str) -> UnitDescription {
    UnitDescription {
        id: name(id, "interface"),
        name: "Client".to_string(),
        description: "A client".to_string(),
        payload: UnitPayload::Interface { exec_start: "client".to_string() },
    }
}

fn tag(s: &UnitStatus) -> &'static str {
    match s {
        UnitStatus::Loaded => "loaded",
        UnitStatus::UnitIncompatible(_) => "incompatible",
        UnitStatus::Active => "active",
        UnitStatus::ActiveFailed(_) => "active-failed",
        UnitStatus::Deselected(_) => "deselected",
        UnitStatus::DeactivateSuccess(_) => "deactivated",
        UnitStatus::DeactivateFailure(_) => "deactivate-failed",
    }
}

/// The status events queued so far, as (unit, status) pairs.
fn statuses(m: &mut UnitManager) -> Vec<(String, &'static str)> {
    m.take_events()
        .iter()
        .filter_map(|e| match e {
            UnitEvent::Status(s) => Some((s.name.to_string(), tag(&s.status))),
            _ => None,
        })
        .collect()
}

fn request(from: &UnitName, c: ManagerControlMessageContents) -> UnitEvent {
    UnitEvent::ManagerRequest(ManagerControlMessage::new(from, c))
}

fn three_test_manager() -> UnitManager {
    let mut m = UnitManager::new();
    for n in 1..=3 {
        let id = format!("test{}", n);
        m.load_test(test(&id, &format!("echo {}-start; echo {}-end; exit 0", id, id))).unwrap();
    }
    m.load_scenario(scenario("three", &["test1", "test2", "test3"], None, Some(200))).unwrap();
    m
}

#[test]
fn load_dependency() {
    let mut m = UnitManager::new();
    let generic = name("generic", "jig");
    assert!(m.load_jig(jig("generic", None)).unwrap() == generic);
    m.process_message(&UnitEvent::RescanRequest);
    assert!(m.jig_is_loaded(&generic));
    assert_eq!(statuses(&mut m), vec![("generic.jig".to_string(), "loaded")]);
}

#[test]
fn basic_scenario() {
    let mut m = three_test_manager();
    let three = name("three", "scenario");
    m.take_events();
    m.process_message(&request(&three, ManagerControlMessageContents::Start(Some(three.clone()))));
    assert_eq!(statuses(&mut m), vec![("three.scenario".to_string(), "active")]);
    let started = m.take_starts();
    assert_eq!(started.len(), 1);
    assert!(started[0] == three);
    let p = m.plan_for(&three).unwrap();
    let (mut s, a) = start(&p);
    let mut commands = vec![];
    let mut action = a;
    loop {
        match action {
            RunnerAction::Run { unit, command } => {
                commands.push((unit.to_string(), command));
                let (s2, a2) = step(&p, s, RunnerEvent::Exited(0));
                s = s2;
                action = a2;
            },
            RunnerAction::Finish { code, summary } => {
                assert_eq!(code, 0);
                m.process_message(&request(
                    &three,
                    ManagerControlMessageContents::ScenarioFinished(code, summary),
                ));
                break;
            },
            RunnerAction::Idle => panic!("run ended without finishing"),
        }
    }
    assert_eq!(
        commands,
        vec![
            ("test1.test".to_string(), "echo test1-start; echo test1-end; exit 0".to_string()),
            ("test2.test".to_string(), "echo test2-start; echo test2-end; exit 0".to_string()),
            ("test3.test".to_string(), "echo test3-start; echo test3-end; exit 0".to_string()),
        ]
    );
    assert_eq!(m.state_of(&three), Some(UnitState::Selected));
    assert!(m.current_scenario().unwrap() == &three);
}

#[test]
fn scenario_execstop() {
    let mut m = UnitManager::new();
    let exec_stop = name("execstop", "scenario");
    let stop = "echo cmd-starting; sleep 1; echo cmd-ending";
    m.load_test(test("simpletest", "echo begin; echo end")).unwrap();
    m.load_scenario(scenario("execstop", &["simpletest"], Some(stop), None)).unwrap();
    m.process_message(&request(&exec_stop, ManagerControlMessageContents::Start(Some(exec_stop.clone()))));
    let p = m.plan_for(&exec_stop).unwrap();
    let (s, _) = start(&p);
    let (_, a) = step(&p, s, RunnerEvent::Exited(0));
    match a {
        RunnerAction::Run { unit, command } => {
            assert!(unit == exec_stop);
            assert_eq!(command, stop);
        },
        other => panic!("expected ExecStop to run, got {:?}", other),
    }
    // Output of ExecStop comes back tagged with the scenario and is forwarded as a log line.
    m.take_events();
    m.process_message(&request(&exec_stop, ManagerControlMessageContents::Log("cmd-ending".to_string())));
    let events = m.take_events();
    assert!(events.iter().any(|e| matches!(e, UnitEvent::Log(l)
        if l.source == exec_stop && l.text == "cmd-ending" && l.level == LogLevel::Info)));
}

#[test]
fn scenario_needs_its_tests() {
    let mut m = UnitManager::new();
    assert_eq!(
        m.load_scenario(scenario("lonely", &["missing"], None, None)).unwrap_err(),
        LoadError::DependencyMissing
    );
    assert_eq!(statuses(&mut m), vec![("lonely.scenario".to_string(), "incompatible")]);
    assert!(m.get_scenario_named(&name("lonely", "scenario")).is_none());
}

#[test]
fn wrong_kind_is_refused() {
    let mut m = UnitManager::new();
    assert_eq!(m.load_jig(test("t", "true")).unwrap_err(), LoadError::WrongKind);
    assert_eq!(statuses(&mut m), vec![("t.test".to_string(), "incompatible")]);
}

#[test]
fn activation_fails_once_a_test_is_unloaded() {
    let mut m = three_test_manager();
    let three = name("three", "scenario");
    m.unload(&name("test2", "test"));
    m.take_events();
    assert_eq!(m.activate(&three), Err(UnitActivateError::DependencyMissing));
    assert_eq!(statuses(&mut m), vec![("three.scenario".to_string(), "active-failed")]);
    assert_eq!(m.select(&three), Err(UnitSelectError::DependencyMissing));
    assert!(m.plan_for(&three).is_none());
}

#[test]
fn unknown_units_are_not_found() {
    let mut m = UnitManager::new();
    assert_eq!(m.select(&name("nope", "scenario")), Err(UnitSelectError::UnitNotFound));
    assert_eq!(m.activate(&name("nope", "jig")), Err(UnitActivateError::UnitNotFound));
    m.take_events();
    m.deactivate(&name("nope", "jig"), "testing");
    assert_eq!(statuses(&mut m), vec![("nope.jig".to_string(), "deactivate-failed")]);
}

#[test]
fn tests_are_not_activated_directly() {
    let mut m = three_test_manager();
    assert_eq!(m.activate(&name("test1", "test")), Err(UnitActivateError::NotActivatable));
}

#[test]
fn selecting_twice_announces_once() {
    let mut m = three_test_manager();
    let three = name("three", "scenario");
    m.take_events();
    assert_eq!(m.select(&three), Ok(()));
    assert_eq!(statuses(&mut m), vec![("three.scenario".to_string(), "active")]);
    assert_eq!(m.select(&three), Ok(()));
    assert!(m.take_events().is_empty());
    assert_eq!(m.state_of(&three), Some(UnitState::Selected));
}

#[test]
fn deactivate_returns_to_selected() {
    let mut m = three_test_manager();
    let three = name("three", "scenario");
    assert_eq!(m.activate(&three), Ok(()));
    assert_eq!(m.state_of(&three), Some(UnitState::Active));
    m.take_events();
    m.deactivate(&three, "done");
    assert_eq!(statuses(&mut m), vec![("three.scenario".to_string(), "deactivated")]);
    assert_eq!(m.state_of(&three), Some(UnitState::Selected));
}

#[test]
fn unload_makes_lookups_fail() {
    let mut m = three_test_manager();
    let three = name("three", "scenario");
    assert!(m.get_scenario_named(&three).is_some());
    assert!(m.get_test_named(&name("test1", "test")).is_some());
    m.unload(&three);
    m.unload(&name("test1", "test"));
    assert!(m.get_scenario_named(&three).is_none());
    assert!(m.get_test_named(&name("test1", "test")).is_none());
    assert_eq!(m.get_tests().len(), 2);
    assert!(m.get_scenarios().is_empty());
}

#[test]
fn reload_replaces_the_unit() {
    let mut a = three_test_manager();
    let mut b = three_test_manager();
    let three = name("three", "scenario");
    a.activate(&three).unwrap();
    b.activate(&three).unwrap();
    a.load_scenario(scenario("three", &["test1"], None, None)).unwrap();
    b.unload(&three);
    b.load_scenario(scenario("three", &["test1"], None, None)).unwrap();
    assert_eq!(a.state_of(&three), Some(UnitState::Loaded));
    assert_eq!(a.state_of(&three), b.state_of(&three));
    assert!(a.current_scenario().is_none() && b.current_scenario().is_none());
    assert_eq!(a.plan_for(&three).unwrap().steps.len(), 1);
    assert_eq!(a.get_scenarios().len(), b.get_scenarios().len());
}

#[test]
fn only_one_jig_is_active() {
    let mut m = UnitManager::new();
    m.load_jig(jig("first", None)).unwrap();
    m.load_jig(jig("second", None)).unwrap();
    m.activate(&name("first", "jig")).unwrap();
    m.activate(&name("second", "jig")).unwrap();
    assert_eq!(m.state_of(&name("first", "jig")), Some(UnitState::Selected));
    assert_eq!(m.state_of(&name("second", "jig")), Some(UnitState::Active));
    assert!(m.current_jig().unwrap() == &name("second", "jig"));
}

#[test]
fn only_one_scenario_is_current() {
    let mut m = three_test_manager();
    m.load_scenario(scenario("other", &["test1"], None, None)).unwrap();
    m.select(&name("three", "scenario")).unwrap();
    m.take_events();
    m.select(&name("other", "scenario")).unwrap();
    assert_eq!(
        statuses(&mut m),
        vec![("three.scenario".to_string(), "deselected"), ("other.scenario".to_string(), "active")]
    );
    assert_eq!(m.state_of(&name("three", "scenario")), Some(UnitState::Loaded));
    assert!(m.current_scenario().unwrap() == &name("other", "scenario"));
}

#[test]
fn jig_activates_its_default_scenario() {
    let mut m = three_test_manager();
    m.load_jig(jig("generic", Some("three"))).unwrap();
    m.take_events();
    assert_eq!(m.activate(&name("generic", "jig")), Ok(()));
    assert_eq!(
        statuses(&mut m),
        vec![("generic.jig".to_string(), "active"), ("three.scenario".to_string(), "active")]
    );
    // Every unit announced as active is in the registry.
    assert!(m.jig_is_loaded(&name("generic", "jig")));
    assert!(m.get_scenario_named(&name("three", "scenario")).is_some());
}

#[test]
fn jig_stays_current_when_default_scenario_fails() {
    let mut m = UnitManager::new();
    m.load_jig(jig("generic", Some("absent"))).unwrap();
    m.take_events();
    assert_eq!(m.activate(&name("generic", "jig")), Err(UnitActivateError::UnitNotFound));
    assert!(m.current_jig().unwrap() == &name("generic", "jig"));
    assert_eq!(
        statuses(&mut m),
        vec![
            ("generic.jig".to_string(), "active"),
            ("absent.scenario".to_string(), "active-failed"),
            ("generic.jig".to_string(), "active-failed"),
        ]
    );
}

#[test]
fn deselecting_the_jig_deselects_its_scenario() {
    let mut m = three_test_manager();
    m.load_jig(jig("generic", Some("three"))).unwrap();
    m.activate(&name("generic", "jig")).unwrap();
    m.take_events();
    m.deselect(&name("generic", "jig"), "bye");
    assert_eq!(
        statuses(&mut m),
        vec![("three.scenario".to_string(), "deselected"), ("generic.jig".to_string(), "deselected")]
    );
    assert!(m.current_jig().is_none());
    assert!(m.current_scenario().is_none());
}

#[test]
fn greeting_sends_hello_jig_and_scenarios() {
    let mut m = three_test_manager();
    let client = name("client", "interface");
    m.load_interface(interface("client")).unwrap();
    m.activate(&client).unwrap();
    m.take_deliveries();
    m.process_message(&request(&client, ManagerControlMessageContents::InitialGreeting));
    let out = m.take_deliveries();
    assert!(out.iter().all(|d| d.to == client));
    assert!(matches!(&out[0].message, ManagerStatusMessage::Hello(h) if h == "Jig/20 1.0"));
    assert!(matches!(&out[1].message, ManagerStatusMessage::Jig(j) if j.id().is_empty()));
    assert!(matches!(&out[2].message, ManagerStatusMessage::Scenarios(s) if s.len() == 1));
    assert_eq!(out.len(), 5);
}

#[test]
fn interface_disconnect_deactivates_only_it() {
    let mut m = three_test_manager();
    let a = name("a", "interface");
    let b = name("b", "interface");
    m.load_interface(interface("a")).unwrap();
    m.load_interface(interface("b")).unwrap();
    m.activate(&a).unwrap();
    m.activate(&b).unwrap();
    m.select(&name("three", "scenario")).unwrap();
    m.process_message(&request(&a, ManagerControlMessageContents::InitialGreeting));
    m.take_events();
    m.communication_failed(&a, "broken pipe");
    let events = m.take_events();
    assert_eq!(events.len(), 1);
    match &events[0] {
        UnitEvent::Status(s) => {
            assert!(s.name == a);
            assert!(matches!(&s.status, UnitStatus::DeactivateSuccess(r) if r == "communication error: broken pipe"));
        },
        other => panic!("unexpected event {:?}", other),
    }
    assert_eq!(m.state_of(&b), Some(UnitState::Active));
    assert_eq!(m.state_of(&a), Some(UnitState::Selected));
    assert!(m.current_scenario().unwrap() == &name("three", "scenario"));
    // The closed interface is no longer addressed; the other one still is.
    m.take_deliveries();
    m.send_hello_to(&a);
    m.send_hello_to(&b);
    let out = m.take_deliveries();
    assert_eq!(out.len(), 1);
    assert!(out[0].to == b);
}

#[test]
fn activation_is_projected_to_interfaces() {
    let mut m = three_test_manager();
    m.load_interface(interface("a")).unwrap();
    m.load_interface(interface("b")).unwrap();
    m.load_interface(interface("idle")).unwrap();
    m.activate(&name("a", "interface")).unwrap();
    m.activate(&name("b", "interface")).unwrap();
    m.activate(&name("three", "scenario")).unwrap();
    m.take_deliveries();
    let events = m.take_events();
    for e in events.iter() {
        m.process_message(e);
    }
    let out = m.take_deliveries();
    // Scenario, its own name and description, three test name/description pairs, and the
    // test list, for each interface.
    assert_eq!(out.len(), 2 * 10);
    assert!(matches!(&out[0].message, ManagerStatusMessage::Scenario(Some(_))));
    assert!(matches!(&out[1].message, ManagerStatusMessage::Describe(_, FieldType::Name, id, v)
        if id == "three" && v == "Simple Scenario"));
    assert!(matches!(&out[2].message, ManagerStatusMessage::Describe(_, FieldType::Description, id, _)
        if id == "three"));
    assert!(matches!(&out[3].message, ManagerStatusMessage::Describe(_, FieldType::Name, id, _)
        if id == "test1"));
    assert!(matches!(&out[9].message, ManagerStatusMessage::Tests(_, t) if t.len() == 3));
    assert!(out[0].to == name("a", "interface"));
    assert!(out[10].to == name("b", "interface"));
}

#[test]
fn log_lines_reach_every_interface() {
    let mut m = UnitManager::new();
    m.load_interface(interface("a")).unwrap();
    m.activate(&name("a", "interface")).unwrap();
    let t = name("t", "test");
    m.process_message(&request(&t, ManagerControlMessageContents::LogError("oops".to_string())));
    let events = m.take_events();
    let log = events.iter().find(|e| matches!(e, UnitEvent::Log(_))).unwrap().clone();
    m.process_message(&log);
    let out = m.take_deliveries();
    assert_eq!(out.len(), 1);
    assert!(matches!(&out[0].message, ManagerStatusMessage::Log(l) if l.text == "oops" && l.level == LogLevel::Error));
}

#[test]
fn unimplemented_verbs_and_missing_scenarios_are_logged() {
    let mut m = UnitManager::new();
    let c = name("c", "interface");
    m.process_message(&request(
        &c,
        ManagerControlMessageContents::Unimplemented("FROB".to_string(), "now".to_string()),
    ));
    m.process_message(&request(&c, ManagerControlMessageContents::Tests(None)));
    m.process_message(&request(&c, ManagerControlMessageContents::Start(None)));
    m.process_message(&request(&c, ManagerControlMessageContents::Start(Some(name("x", "scenario")))));
    let texts: Vec<String> = m
        .take_events()
        .iter()
        .filter_map(|e| match e {
            UnitEvent::Log(l) if l.level == LogLevel::Error => Some(l.text.clone()),
            _ => None,
        })
        .collect();
    assert_eq!(
        texts,
        vec![
            "unimplemented verb: FROB (args: now)".to_string(),
            "unable to list tests, no scenario specified and no scenario selected".to_string(),
            "no scenario selected to start".to_string(),
            "unable to find scenario x.scenario to start it".to_string(),
        ]
    );
}

#[test]
fn child_exit_is_reported_as_failure() {
    let mut m = UnitManager::new();
    let t = name("t", "test");
    m.process_message(&request(&t, ManagerControlMessageContents::ChildExited));
    let events = m.take_events();
    assert!(matches!(&events[0], UnitEvent::Status(s)
        if s.name == t && matches!(&s.status, UnitStatus::ActiveFailed(r) if r == "Unit unexpectedly exited")));
}

#[test]
fn shutdown_deactivates_scenario_then_jig() {
    let mut m = three_test_manager();
    m.load_jig(jig("generic", Some("three"))).unwrap();
    m.load_interface(interface("a")).unwrap();
    m.load_interface(interface("b")).unwrap();
    m.load_interface(interface("idle")).unwrap();
    m.activate(&name("generic", "jig")).unwrap();
    m.activate(&name("b", "interface")).unwrap();
    m.activate(&name("a", "interface")).unwrap();
    m.take_events();
    m.process_message(&UnitEvent::Shutdown);
    assert_eq!(
        statuses(&mut m),
        vec![
            ("three.scenario".to_string(), "deactivated"),
            ("generic.jig".to_string(), "deactivated"),
            ("a.interface".to_string(), "deactivated"),
            ("b.interface".to_string(), "deactivated"),
        ]
    );
    assert_eq!(m.state_of(&name("a", "interface")), Some(UnitState::Selected));
    assert_eq!(m.state_of(&name("idle", "interface")), Some(UnitState::Loaded));
    assert_eq!(m.state_of(&name("generic", "jig")), Some(UnitState::Selected));
}

#[test]
fn listings_follow_load_order() {
    let mut m = three_test_manager();
    let tests: Vec<String> = m.get_tests().iter().map(|t| t.to_string()).collect();
    assert_eq!(tests, vec!["test1.test", "test2.test", "test3.test"]);
    m.load_test(test("test1", "true")).unwrap();
    let tests: Vec<String> = m.get_tests().iter().map(|t| t.to_string()).collect();
    assert_eq!(tests, vec!["test2.test", "test3.test", "test1.test"]);
}

#[test]
fn other_events_change_nothing() {
    let mut m = three_test_manager();
    m.take_events();
    m.process_message(&UnitEvent::Category(exclave::unit::UnitKind::Test, 3));
    m.process_message(&UnitEvent::RescanRequest);
    assert!(m.take_events().is_empty());
    assert!(m.take_deliveries().is_empty());
}

#[test]
fn tests_request_answers_with_the_sequence() {
    let mut m = three_test_manager();
    let c = name("c", "interface");
    m.load_interface(interface("c")).unwrap();
    m.activate(&c).unwrap();
    m.select(&name("three", "scenario")).unwrap();
    m.take_deliveries();
    m.process_message(&request(&c, ManagerControlMessageContents::Tests(None)));
    let out = m.take_deliveries();
    assert_eq!(out.len(), 1);
    match &out[0].message {
        ManagerStatusMessage::Tests(s, t) => {
            assert_eq!(s.to_string(), "three.scenario");
            let names: Vec<String> = t.iter().map(|n| n.to_string()).collect();
            assert_eq!(names, vec!["test1.test", "test2.test", "test3.test"]);
        },
        other => panic!("unexpected message {:?}", other),
    }
    // Messages to something that is not a loaded interface go nowhere.
    m.process_message(&request(&name("t", "test"), ManagerControlMessageContents::Jig));
    assert!(m.take_deliveries().is_empty());
}

#[test]
fn internal_names_deactivate_cleanly() {
    let mut m = UnitManager::new();
    let internal = name("core", "internal");
    m.deactivate(&internal, "stopping");
    let events = m.take_events();
    assert_eq!(events.len(), 1);
    assert!(matches!(&events[0], UnitEvent::Status(s)
        if s.name == internal && matches!(&s.status, UnitStatus::DeactivateSuccess(r) if r == "stopping")));
}

#[test]
fn log_lines_carry_the_time() {
    let mut m = UnitManager::new();
    let t = name("t", "test");
    m.set_time(1234);
    m.process_message(&request(&t, ManagerControlMessageContents::Log("hello".to_string())));
    let events = m.take_events();
    assert!(matches!(&events[0], UnitEvent::Log(l)
        if l.timestamp == 1234 && l.text == "hello" && l.level == LogLevel::Info && l.source == t));
}
