//! The decisions of starting, stopping and reporting on Xray: the order of
//! the start sequence, and what the PID file says and when it is removed.
use vstd::prelude::*;

use crate::text::{decimal_spec, parse_u32_spec, trim_spec};
use crate::xray::{parse_pid, pid_file_round_trip};

verus! {

/// The stages of starting Xray, in order, and the two ends.
#[derive(Debug, Clone, Copy, PartialEq, Eq, Structural)]
pub enum StartState {
    /// Turn the active profile into the Xray configuration.
    PrepareConfig,
    /// Write the configuration file.
    WriteConfig,
    /// Have Xray test the configuration file.
    TestConfig,
    /// Look for an Xray that is already running.
    CheckPid,
    /// Find the proxy server's address and resolve it.
    ResolveProxy,
    /// Start Xray.
    SpawnXray,
    /// Wait for the TUN interface.
    WaitTun,
    /// Set up TUN routing.
    ConfigureTun,
    /// Record Xray's PID.
    SavePid,
    /// Xray runs.
    Done,
    /// Starting was given up.
    Aborted,
}

/// How the work of a stage went.
#[derive(Debug, Clone, Copy, PartialEq, Eq, Structural)]
pub enum StartEvent {
    Succeeded,
    Failed,
    /// No usable PID file: nothing runs.
    NoPid,
    /// The PID file names a process that no longer runs.
    StalePid,
    /// The PID file names a running Xray.
    RunningPid,
}

/// What to do before going on to the next stage.
#[derive(Debug, Clone, Copy, PartialEq, Eq, Structural)]
pub enum StartAction {
    /// Go on with the next stage's work.
    Proceed,
    /// Remove the stale PID file, then go on.
    RemovePidFileThenProceed,
    /// Give up.
    Abort,
    /// Stop the Xray that was started, then give up.
    StopXrayThenAbort,
    /// Report that Xray runs.
    Finish,
}

/// The position of a stage in the start sequence (`-1` for giving up).
pub open spec fn stage_rank(s: StartState) -> int {
    match s {
        StartState::PrepareConfig => 0,
        StartState::WriteConfig => 1,
        StartState::TestConfig => 2,
        StartState::CheckPid => 3,
        StartState::ResolveProxy => 4,
        StartState::SpawnXray => 5,
        StartState::WaitTun => 6,
        StartState::ConfigureTun => 7,
        StartState::SavePid => 8,
        StartState::Done => 9,
        StartState::Aborted => -1,
    }
}

/// The stage at position `i` of the start sequence.
pub open spec fn stage(i: int) -> StartState {
    if i <= 0 {
        StartState::PrepareConfig
    } else if i == 1 {
        StartState::WriteConfig
    } else if i == 2 {
        StartState::TestConfig
    } else if i == 3 {
        StartState::CheckPid
    } else if i == 4 {
        StartState::ResolveProxy
    } else if i == 5 {
        StartState::SpawnXray
    } else if i == 6 {
        StartState::WaitTun
    } else if i == 7 {
        StartState::ConfigureTun
    } else if i == 8 {
        StartState::SavePid
    } else {
        StartState::Done
    }
}

/// The next stage and the action after `state`'s work ended in `event`:
/// each stage goes on to the next only on success (the PID check on finding
/// no running Xray, removing a stale PID file); a failure once Xray was
/// started stops it; failing to record the PID does not undo the start.
pub open spec fn start_next(state: StartState, event: StartEvent) -> (StartState, StartAction) {
    match state {
        StartState::Done => (StartState::Done, StartAction::Finish),
        StartState::Aborted => (StartState::Aborted, StartAction::Abort),
        StartState::CheckPid => match event {
            StartEvent::NoPid => (StartState::ResolveProxy, StartAction::Proceed),
            StartEvent::StalePid => (StartState::ResolveProxy, StartAction::RemovePidFileThenProceed),
            _ => (StartState::Aborted, StartAction::Abort),
        },
        StartState::SavePid => (StartState::Done, StartAction::Finish),
        StartState::WaitTun | StartState::ConfigureTun => if event == StartEvent::Succeeded {
            (stage(stage_rank(state) + 1), StartAction::Proceed)
        } else {
            (StartState::Aborted, StartAction::StopXrayThenAbort)
        },
        _ => if event == StartEvent::Succeeded {
            (stage(stage_rank(state) + 1), StartAction::Proceed)
        } else {
            (StartState::Aborted, StartAction::Abort)
        },
    }
}

/// Decides the next stage of starting Xray and what to do before it.
pub fn start_step(state: StartState, event: StartEvent) -> (r: (StartState, StartAction))
    requires
        state != StartState::Done,
        state != StartState::Aborted,
    ensures
        r == start_next(state, event),
{
    let ok = event == StartEvent::Succeeded;
    match state {
        StartState::CheckPid => match event {
            StartEvent::NoPid => (StartState::ResolveProxy, StartAction::Proceed),
            StartEvent::StalePid => (StartState::ResolveProxy, StartAction::RemovePidFileThenProceed),
            _ => (StartState::Aborted, StartAction::Abort),
        },
        StartState::SavePid => (StartState::Done, StartAction::Finish),
        StartState::WaitTun => if ok {
            (StartState::ConfigureTun, StartAction::Proceed)
        } else {
            (StartState::Aborted, StartAction::StopXrayThenAbort)
        },
        StartState::ConfigureTun => if ok {
            (StartState::SavePid, StartAction::Proceed)
        } else {
            (StartState::Aborted, StartAction::StopXrayThenAbort)
        },
        _ => {
            if !ok {
                (StartState::Aborted, StartAction::Abort)
            } else {
                let next = match state {
                    StartState::PrepareConfig => StartState::WriteConfig,
                    StartState::WriteConfig => StartState::TestConfig,
                    StartState::TestConfig => StartState::CheckPid,
                    StartState::ResolveProxy => StartState::SpawnXray,
                    _ => StartState::WaitTun,
                };
                (next, StartAction::Proceed)
            }
        },
    }
}

/// The stage reached from `state` when the stages' work ends in `events`,
/// one after the other.
pub open spec fn start_after(state: StartState, events: Seq<StartEvent>) -> StartState
    decreases events.len(),
{
    if events.len() == 0 {
        state
    } else {
        start_after(start_next(state, events[0]).0, events.drop_first())
    }
}

/// The work of `state` ending in `event` lets the start go on.
pub open spec fn advances(state: StartState, event: StartEvent) -> bool {
    start_next(state, event).0 != StartState::Aborted
}

proof fn lemma_aborted_stays(events: Seq<StartEvent>)
    ensures
        start_after(StartState::Aborted, events) == StartState::Aborted,
    decreases events.len(),
{
    if events.len() > 0 {
        lemma_aborted_stays(events.drop_first());
    }
}

proof fn lemma_done_stays(events: Seq<StartEvent>)
    ensures
        start_after(StartState::Done, events) == StartState::Done,
    decreases events.len(),
{
    if events.len() > 0 {
        lemma_done_stays(events.drop_first());
    }
}

/// Reaching stage `k` from stage `j` takes a successful end of every stage in
/// between.
proof fn lemma_reached_through_success(j: int, k: int, events: Seq<StartEvent>)
    requires
        0 <= j <= k <= 9,
        stage_rank(start_after(stage(j), events)) >= k,
    ensures
        events.len() >= k - j,
        forall|i: int| j <= i < k ==> advances(stage(i), #[trigger] events[i - j]),
    decreases events.len(),
{
    if events.len() == 0 {
        assert(k == j);
    } else {
        let n = start_next(stage(j), events[0]).0;
        let rest = events.drop_first();
        if j == 9 {
            lemma_done_stays(rest);
        } else if n == StartState::Aborted {
            lemma_aborted_stays(rest);
        } else {
            assert(n == stage(j + 1));
            if k > j {
                lemma_reached_through_success(j + 1, k, rest);
                assert forall|i: int| j <= i < k implies advances(stage(i), #[trigger] events[i - j]) by {
                    if i > j {
                        assert(events[i - j] == rest[i - (j + 1)]);
                    }
                }
            }
        }
    }
}

/// Reaching stage `k` of the start sequence takes a successful end of every
/// stage before it.
proof fn lemma_reached_from_start(k: int, events: Seq<StartEvent>)
    requires
        0 <= k <= 9,
        stage_rank(start_after(StartState::PrepareConfig, events)) >= k,
    ensures
        events.len() >= k,
        forall|i: int| 0 <= i < k ==> advances(stage(i), #[trigger] events[i]),
{
    lemma_reached_through_success(0, k, events);
    assert forall|i: int| 0 <= i < k implies advances(stage(i), #[trigger] events[i]) by {
        assert(events[i - 0] == events[i]);
    }
}

/// Xray is started only once its configuration was prepared, written and
/// passed Xray's own test, no Xray was found running, and the proxy server's
/// address resolved.
pub proof fn spawn_only_after_passing_test(events: Seq<StartEvent>)
    requires
        stage_rank(start_after(StartState::PrepareConfig, events)) >= stage_rank(StartState::SpawnXray),
    ensures
        events[0] == StartEvent::Succeeded,
        events[1] == StartEvent::Succeeded,
        events[2] == StartEvent::Succeeded,
        events[3] == StartEvent::NoPid || events[3] == StartEvent::StalePid,
        events[4] == StartEvent::Succeeded,
{
    lemma_reached_from_start(5, events);
    assert(advances(stage(0), events[0]));
    assert(advances(stage(1), events[1]));
    assert(advances(stage(2), events[2]));
    assert(advances(stage(3), events[3]));
    assert(advances(stage(4), events[4]));
}

/// The PID is recorded only after Xray started, its TUN interface came up and
/// TUN routing was set up.
pub proof fn pid_saved_only_after_full_success(events: Seq<StartEvent>)
    requires
        stage_rank(start_after(StartState::PrepareConfig, events)) >= stage_rank(StartState::SavePid),
    ensures
        events[0] == StartEvent::Succeeded,
        events[1] == StartEvent::Succeeded,
        events[2] == StartEvent::Succeeded,
        events[3] == StartEvent::NoPid || events[3] == StartEvent::StalePid,
        events[4] == StartEvent::Succeeded,
        events[5] == StartEvent::Succeeded,
        events[6] == StartEvent::Succeeded,
        events[7] == StartEvent::Succeeded,
{
    lemma_reached_from_start(8, events);
    assert(advances(stage(0), events[0]));
    assert(advances(stage(1), events[1]));
    assert(advances(stage(2), events[2]));
    assert(advances(stage(3), events[3]));
    assert(advances(stage(4), events[4]));
    assert(advances(stage(5), events[5]));
    assert(advances(stage(6), events[6]));
    assert(advances(stage(7), events[7]));
}

/// Xray is stopped exactly when a stage after its start fails before the
/// start is complete: waiting for its TUN interface or setting up routing.
pub proof fn started_xray_is_stopped_on_failure(state: StartState, event: StartEvent)
    ensures
        start_next(state, event).1 == StartAction::StopXrayThenAbort <==> ((state
            == StartState::WaitTun || state == StartState::ConfigureTun) && event
            != StartEvent::Succeeded),
{
}

/// Each step of the start sequence either gives up or goes on to the very
/// next stage. It goes on exactly when the stage's work succeeded, with two
/// exceptions: the PID check goes on exactly when it found no running Xray
/// (no PID, or a stale one), and a PID that could not be recorded does not
/// stop the start. Only a stale PID
/// file is removed, and the start finishes exactly when it reaches the end.
pub proof fn start_goes_one_stage_at_a_time(state: StartState, event: StartEvent)
    requires
        state != StartState::Done,
        state != StartState::Aborted,
    ensures
        ({
            let r = start_next(state, event);
            &&& r.0 == StartState::Aborted || stage_rank(r.0) == stage_rank(state) + 1
            &&& r.0 != StartState::Aborted <==> if state == StartState::CheckPid {
                event == StartEvent::NoPid || event == StartEvent::StalePid
            } else {
                event == StartEvent::Succeeded || state == StartState::SavePid
            }
            &&& r.1 == StartAction::RemovePidFileThenProceed <==> (state == StartState::CheckPid
                && event == StartEvent::StalePid)
            &&& r.1 == StartAction::Finish <==> r.0 == StartState::Done
            &&& r.1 == StartAction::Abort <==> (r.0 == StartState::Aborted && state
                != StartState::WaitTun && state != StartState::ConfigureTun)
        }),
{
}

/// What the PID file holds.
#[derive(Debug, Clone, Copy, PartialEq, Eq, Structural)]
pub enum PidFileState {
    /// There is no PID file.
    Missing,
    /// It could not be read.
    Unreadable,
    /// It holds no PID.
    Invalid,
    /// It holds this PID.
    Holds(u32),
}

/// What a PID file that exists or not (`exists`), with the content read from
/// it (`None` where reading failed), holds.
pub open spec fn pid_file_spec(exists: bool, content: Option<Seq<char>>) -> PidFileState {
    if !exists {
        PidFileState::Missing
    } else {
        match content {
            None => PidFileState::Unreadable,
            Some(c) => match parse_u32_spec(trim_spec(c)) {
                Some(pid) => PidFileState::Holds(pid),
                None => PidFileState::Invalid,
            },
        }
    }
}

/// Reading the PID file that `xrayctl` wrote, the decimal text of a PID,
/// gives back that PID.
pub proof fn pid_file_reads_back_the_written_pid(pid: u32)
    ensures
        pid_file_spec(true, Some(decimal_spec(pid as nat))) == PidFileState::Holds(pid),
{
    pid_file_round_trip(pid);
}

/// Reads what the PID file holds.
pub fn read_pid_file(exists: bool, content: Option<&str>) -> (r: PidFileState)
    ensures
        r == pid_file_spec(
            exists,
            match content {
                Some(c) => Some(c@),
                None => None,
            },
        ),
{
    if !exists {
        return PidFileState::Missing;
    }
    match content {
        None => PidFileState::Unreadable,
        Some(c) => match parse_pid(c) {
            Some(pid) => PidFileState::Holds(pid),
            None => PidFileState::Invalid,
        },
    }
}

/// What the PID check of the start sequence found: a running Xray where the
/// PID file names a running process, a stale file where it names one that no
/// longer runs, and nothing otherwise.
pub fn start_pid_event(pid_file: PidFileState, running: bool) -> (r: StartEvent)
    ensures
        r == match pid_file {
            PidFileState::Holds(_) => if running {
                StartEvent::RunningPid
            } else {
                StartEvent::StalePid
            },
            _ => StartEvent::NoPid,
        },
{
    match pid_file {
        PidFileState::Holds(_) => if running {
            StartEvent::RunningPid
        } else {
            StartEvent::StalePid
        },
        _ => StartEvent::NoPid,
    }
}

/// What `xrayctl sub stop` does with the PID file.
#[derive(Debug, Clone, Copy, PartialEq, Eq, Structural)]
pub enum StopAction {
    /// Report that Xray is not running.
    ReportNotRunning,
    /// Report that the PID file could not be read.
    ReportReadFailure,
    /// Report an invalid PID file and remove it.
    RemoveInvalidPidFile,
    /// Stop the process with this PID (and remove the PID file once it
    /// stopped).
    Kill(u32),
}

/// Decides what `xrayctl sub stop` does with the PID file.
pub fn stop_decision(pid_file: PidFileState) -> (r: StopAction)
    ensures
        r == match pid_file {
            PidFileState::Missing => StopAction::ReportNotRunning,
            PidFileState::Unreadable => StopAction::ReportReadFailure,
            PidFileState::Invalid => StopAction::RemoveInvalidPidFile,
            PidFileState::Holds(pid) => StopAction::Kill(pid),
        },
{
    match pid_file {
        PidFileState::Missing => StopAction::ReportNotRunning,
        PidFileState::Unreadable => StopAction::ReportReadFailure,
        PidFileState::Invalid => StopAction::RemoveInvalidPidFile,
        PidFileState::Holds(pid) => StopAction::Kill(pid),
    }
}

/// What `xrayctl sub status` reports.
#[derive(Debug, Clone, Copy, PartialEq, Eq, Structural)]
pub enum StatusReport {
    /// No PID file: Xray is stopped.
    Stopped,
    /// The PID file could not be read.
    ReadFailure,
    /// The PID file holds no PID (it is kept).
    InvalidPidFile,
    /// Xray runs with this PID.
    Running(u32),
    /// The PID file names a process that no longer runs: it is removed.
    StaleRemovePidFile,
}

/// Decides what `xrayctl sub status` reports, given whether the process that
/// the PID file names runs (`running`, ignored where it names none).
pub fn status_decision(pid_file: PidFileState, running: bool) -> (r: StatusReport)
    ensures
        r == match pid_file {
            PidFileState::Missing => StatusReport::Stopped,
            PidFileState::Unreadable => StatusReport::ReadFailure,
            PidFileState::Invalid => StatusReport::InvalidPidFile,
            PidFileState::Holds(pid) => if running {
                StatusReport::Running(pid)
            } else {
                StatusReport::StaleRemovePidFile
            },
        },
{
    match pid_file {
        PidFileState::Missing => StatusReport::Stopped,
        PidFileState::Unreadable => StatusReport::ReadFailure,
        PidFileState::Invalid => StatusReport::InvalidPidFile,
        PidFileState::Holds(pid) => if running {
            StatusReport::Running(pid)
        } else {
            StatusReport::StaleRemovePidFile
        },
    }
}

} // verus!
