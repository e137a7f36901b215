use xrayctl::lifecycle::{
    read_pid_file, start_pid_event, start_step, status_decision, stop_decision, PidFileState,
    StartAction, StartEvent, StartState, StatusReport, StopAction,
};
use xrayctl::xray::{tun_setup_step, TunSetupAction, TunSetupStep};

#[test]
fn tun_setup_runs_proxy_route_then_address_then_default_route() {
    assert!(matches!(
        tun_setup_step(TunSetupStep::ProxyRoute, true),
        TunSetupAction::Run(TunSetupStep::TunAddress)
    ));
    assert!(matches!(
        tun_setup_step(TunSetupStep::TunAddress, true),
        TunSetupAction::Run(TunSetupStep::DefaultRoute)
    ));
    assert!(matches!(
        tun_setup_step(TunSetupStep::DefaultRoute, true),
        TunSetupAction::Done
    ));
}

#[test]
fn tun_setup_stops_at_the_first_failure() {
    match tun_setup_step(TunSetupStep::ProxyRoute, false) {
        TunSetupAction::Fail(e) => assert_eq!(e, "Failed to create route to Xray server"),
        other => panic!("unexpected {:?}", other),
    }
    match tun_setup_step(TunSetupStep::TunAddress, false) {
        TunSetupAction::Fail(e) => assert_eq!(e, "Failed to assign address to xray0"),
        other => panic!("unexpected {:?}", other),
    }
    match tun_setup_step(TunSetupStep::DefaultRoute, false) {
        TunSetupAction::Fail(e) => {
            assert_eq!(e, "Failed to configure default route through xray0")
        }
        other => panic!("unexpected {:?}", other),
    }
}

/// Runs the start sequence on the given outcomes and returns the stages
/// visited and the last action.
fn run_start(events: &[StartEvent]) -> (Vec<StartState>, StartAction) {
    let mut state = StartState::PrepareConfig;
    let mut visited = vec![state];
    let mut last = StartAction::Proceed;
    for &event in events {
        let (next, action) = start_step(state, event);
        last = action;
        state = next;
        visited.push(state);
        if state == StartState::Done || state == StartState::Aborted {
            break;
        }
    }
    (visited, last)
}

#[test]
fn start_sequence_in_order_on_success() {
    let ok = StartEvent::Succeeded;
    let (visited, last) = run_start(&[ok, ok, ok, StartEvent::NoPid, ok, ok, ok, ok, ok]);
    assert_eq!(
        visited,
        vec![
            StartState::PrepareConfig,
            StartState::WriteConfig,
            StartState::TestConfig,
            StartState::CheckPid,
            StartState::ResolveProxy,
            StartState::SpawnXray,
            StartState::WaitTun,
            StartState::ConfigureTun,
            StartState::SavePid,
            StartState::Done,
        ]
    );
    assert_eq!(last, StartAction::Finish);
}

#[test]
fn failed_configuration_test_never_spawns() {
    let ok = StartEvent::Succeeded;
    let (visited, last) = run_start(&[ok, ok, StartEvent::Failed]);
    assert_eq!(visited.last(), Some(&StartState::Aborted));
    assert!(!visited.contains(&StartState::SpawnXray));
    assert_eq!(last, StartAction::Abort);
}

#[test]
fn running_xray_aborts_the_start() {
    assert_eq!(
        start_step(StartState::CheckPid, StartEvent::RunningPid),
        (StartState::Aborted, StartAction::Abort)
    );
}

#[test]
fn stale_pid_file_is_removed_and_start_goes_on() {
    assert_eq!(
        start_step(StartState::CheckPid, StartEvent::StalePid),
        (StartState::ResolveProxy, StartAction::RemovePidFileThenProceed)
    );
    assert_eq!(
        start_step(StartState::CheckPid, StartEvent::NoPid),
        (StartState::ResolveProxy, StartAction::Proceed)
    );
}

#[test]
fn late_failures_stop_the_started_xray() {
    assert_eq!(
        start_step(StartState::WaitTun, StartEvent::Failed),
        (StartState::Aborted, StartAction::StopXrayThenAbort)
    );
    assert_eq!(
        start_step(StartState::ConfigureTun, StartEvent::Failed),
        (StartState::Aborted, StartAction::StopXrayThenAbort)
    );
    assert_eq!(
        start_step(StartState::SpawnXray, StartEvent::Failed),
        (StartState::Aborted, StartAction::Abort)
    );
}

#[test]
fn failing_to_save_the_pid_still_finishes() {
    assert_eq!(
        start_step(StartState::SavePid, StartEvent::Failed),
        (StartState::Done, StartAction::Finish)
    );
}

#[test]
fn pid_file_states() {
    assert_eq!(read_pid_file(false, Some("42")), PidFileState::Missing);
    assert_eq!(read_pid_file(true, None), PidFileState::Unreadable);
    assert_eq!(read_pid_file(true, Some("abc")), PidFileState::Invalid);
    assert_eq!(read_pid_file(true, Some("")), PidFileState::Invalid);
    assert_eq!(read_pid_file(true, Some(" 1234\n")), PidFileState::Holds(1234));
}

#[test]
fn start_pid_events() {
    assert_eq!(start_pid_event(PidFileState::Holds(7), true), StartEvent::RunningPid);
    assert_eq!(start_pid_event(PidFileState::Holds(7), false), StartEvent::StalePid);
    assert_eq!(start_pid_event(PidFileState::Missing, true), StartEvent::NoPid);
    assert_eq!(start_pid_event(PidFileState::Invalid, false), StartEvent::NoPid);
    assert_eq!(start_pid_event(PidFileState::Unreadable, false), StartEvent::NoPid);
}

#[test]
fn stop_decisions() {
    assert_eq!(stop_decision(PidFileState::Missing), StopAction::ReportNotRunning);
    assert_eq!(stop_decision(PidFileState::Unreadable), StopAction::ReportReadFailure);
    assert_eq!(stop_decision(PidFileState::Invalid), StopAction::RemoveInvalidPidFile);
    assert_eq!(stop_decision(PidFileState::Holds(99)), StopAction::Kill(99));
}

#[test]
fn status_decisions() {
    assert_eq!(status_decision(PidFileState::Missing, false), StatusReport::Stopped);
    assert_eq!(status_decision(PidFileState::Unreadable, false), StatusReport::ReadFailure);
    assert_eq!(status_decision(PidFileState::Invalid, true), StatusReport::InvalidPidFile);
    assert_eq!(status_decision(PidFileState::Holds(5), true), StatusReport::Running(5));
    assert_eq!(
        status_decision(PidFileState::Holds(5), false),
        StatusReport::StaleRemovePidFile
    );
}
