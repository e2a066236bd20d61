//! The engine's lifecycle: which operation may begin, and the steps of a
//! start, a stop and a download with what each step's outcome leads to.

use vstd::prelude::*;
use crate::api::ErrorCode;
use crate::config::AppConfig;
use crate::engine::PidFile;
use crate::engine::core_running_status;
use crate::engine::pid_of;
use crate::engine::probe_of;
use crate::engine::read_core_pid;
use crate::events::CoreOperationKind;
use crate::events::CoreOperationState;
use crate::events::CoreOperationStatus;
use crate::events::OperationModel;
use crate::events::Progress;
use crate::events::is_running;
use crate::events::opt_operation;
use crate::events::update_core_operation_state;
use crate::events::updated_operation;
use crate::text::decimal_digits;
use crate::text::decimal_text;

verus! {

/// The message with which an operation of a kind begins.
pub open spec fn begin_message(kind: CoreOperationKind) -> Seq<char> {
    match kind {
        CoreOperationKind::Start => "starting core"@,
        CoreOperationKind::Stop => "stopping core"@,
        CoreOperationKind::Download => "downloading core"@,
    }
}

/// The state after a request for an operation: a running operation stays and
/// the request is refused; otherwise the requested operation runs from now.
pub open spec fn admitted(slot: Option<OperationModel>, kind: CoreOperationKind, now: Seq<char>)
    -> (Option<OperationModel>, Result<OperationModel, ErrorCode>) {
    if is_running(slot) {
        (slot, Err(ErrorCode::CoreOperationInProgress))
    } else {
        let state = OperationModel {
            kind: kind,
            status: CoreOperationStatus::Running,
            message: Some(begin_message(kind)),
            progress: None,
            started_at: now,
            finished_at: None,
        };
        (Some(state), Ok(state))
    }
}

/// The message with which an operation of a kind begins.
fn begin_text(kind: CoreOperationKind) -> (r: &'static str)
    ensures
        r@ == begin_message(kind),
{
    match kind {
        CoreOperationKind::Start => "starting core",
        CoreOperationKind::Stop => "stopping core",
        CoreOperationKind::Download => "downloading core",
    }
}

/// Asks for a lifecycle operation to begin. While an operation runs, no other
/// is let in. What comes back on success is the new state, to be broadcast.
pub fn request_operation(slot: &mut Option<CoreOperationState>, kind: CoreOperationKind, now: &str)
    -> (r: Result<CoreOperationState, ErrorCode>)
    ensures
        opt_operation(*final(slot)) == admitted(opt_operation(*old(slot)), kind, now@).0,
        match admitted(opt_operation(*old(slot)), kind, now@).1 {
            Ok(state) => r matches Ok(s) && s@ == state,
            Err(e) => r == Err::<CoreOperationState, ErrorCode>(e),
        },
{
    let running = match slot {
        Some(state) => state.status == CoreOperationStatus::Running,
        None => false,
    };
    if running {
        return Err(ErrorCode::CoreOperationInProgress);
    }
    let state = CoreOperationState {
        kind,
        status: CoreOperationStatus::Running,
        message: Some(begin_text(kind).to_owned()),
        progress: None,
        started_at: now.to_owned(),
        finished_at: None,
    };
    let out = state.copy();
    *slot = Some(state);
    Ok(out)
}

/// Asks for the engine to be started in the background.
pub fn start_core_async(slot: &mut Option<CoreOperationState>, now: &str) -> (r: Result<
    CoreOperationState,
    ErrorCode,
>)
    ensures
        opt_operation(*final(slot)) == admitted(
            opt_operation(*old(slot)),
            CoreOperationKind::Start,
            now@,
        ).0,
        match admitted(opt_operation(*old(slot)), CoreOperationKind::Start, now@).1 {
            Ok(state) => r matches Ok(s) && s@ == state,
            Err(e) => r == Err::<CoreOperationState, ErrorCode>(e),
        },
{
    request_operation(slot, CoreOperationKind::Start, now)
}

/// Asks for the engine to be stopped in the background.
pub fn stop_core_async(slot: &mut Option<CoreOperationState>, now: &str) -> (r: Result<
    CoreOperationState,
    ErrorCode,
>)
    ensures
        opt_operation(*final(slot)) == admitted(
            opt_operation(*old(slot)),
            CoreOperationKind::Stop,
            now@,
        ).0,
        match admitted(opt_operation(*old(slot)), CoreOperationKind::Stop, now@).1 {
            Ok(state) => r matches Ok(s) && s@ == state,
            Err(e) => r == Err::<CoreOperationState, ErrorCode>(e),
        },
{
    request_operation(slot, CoreOperationKind::Stop, now)
}

/// While an operation runs, a request for any operation is refused and
/// changes nothing; so no second operation is ever running beside the first.
pub proof fn law_one_operation_at_a_time(
    slot: Option<OperationModel>,
    kind: CoreOperationKind,
    now: Seq<char>,
)
    requires
        is_running(slot),
    ensures
        admitted(slot, kind, now).0 == slot,
        admitted(slot, kind, now).1 == Err::<OperationModel, ErrorCode>(
            ErrorCode::CoreOperationInProgress,
        ),
{
}

/// Of two requests to start that follow each other with nothing in between,
/// at most the first is let in: where the first is let in, the second is
/// refused as in progress and leaves the state of the first.
pub proof fn law_second_start_is_refused(slot: Option<OperationModel>, first: Seq<char>, second: Seq<char>)
    ensures
        admitted(slot, CoreOperationKind::Start, first).1 is Ok ==> {
            let after = admitted(slot, CoreOperationKind::Start, first).0;
            &&& is_running(after)
            &&& admitted(after, CoreOperationKind::Start, second).1 == Err::<
                OperationModel,
                ErrorCode,
            >(ErrorCode::CoreOperationInProgress)
            &&& admitted(after, CoreOperationKind::Start, second).0 == after
        },
        admitted(slot, CoreOperationKind::Start, first).1 is Err ==> admitted(
            slot,
            CoreOperationKind::Start,
            first,
        ).0 == slot,
{
}

/// The state of an operation that has ended. It follows the running state of
/// the same operation and keeps the moment at which that one began.
pub open spec fn ended(
    slot: Option<OperationModel>,
    kind: CoreOperationKind,
    success: bool,
    message: Seq<char>,
    now: Seq<char>,
) -> OperationModel {
    updated_operation(
        slot,
        kind,
        if success {
            CoreOperationStatus::Success
        } else {
            CoreOperationStatus::Error
        },
        Some(message),
        None,
        true,
        now,
    )
}

/// Records that an operation has ended, with success or with an error, and
/// hands out the state to broadcast.
pub fn end_operation(
    slot: &mut Option<CoreOperationState>,
    kind: CoreOperationKind,
    success: bool,
    message: String,
    now: &str,
) -> (r: CoreOperationState)
    ensures
        r@ == ended(opt_operation(*old(slot)), kind, success, message@, now@),
        opt_operation(*final(slot)) == Some(r@),
{
    let status = if success {
        CoreOperationStatus::Success
    } else {
        CoreOperationStatus::Error
    };
    update_core_operation_state(slot, kind, status, Some(message), None, true, now)
}

/// An operation is reported as running before it is reported as ended: the
/// state of its end carries the moment of its beginning and the moment of its
/// end, and is no longer running.
pub proof fn law_running_precedes_end(
    slot: Option<OperationModel>,
    kind: CoreOperationKind,
    began: Seq<char>,
    success: bool,
    message: Seq<char>,
    now: Seq<char>,
)
    requires
        admitted(slot, kind, began).1 is Ok,
    ensures
        ({
            let running = admitted(slot, kind, began).0;
            let end = ended(running, kind, success, message, now);
            &&& is_running(running)
            &&& running->0.finished_at is None
            &&& end.started_at == began
            &&& end.finished_at == Some(now)
            &&& end.status != CoreOperationStatus::Running
            &&& end.kind == kind
        }),
{
}

/// The steps of a start, in their order.
#[derive(Clone, Copy, PartialEq, Eq, Structural, Debug)]
pub enum StartStep {
    /// Make sure that the GeoIP database is there; download it where it is
    /// not.
    EnsureGeoip,
    /// See whether the engine's binary is installed.
    CheckBinary,
    /// Read the PID file and see whether the process that it names lives.
    CheckPid,
    /// Remove the PID file of a process that is gone.
    RemoveStalePid,
    /// Compose the engine's configuration.
    GenerateMerged,
    /// See whether the composed configuration is there.
    CheckConfigFile,
    /// Load the kernel's TUN module.
    LoadTunModule,
    /// Spawn the engine.
    Spawn,
    /// Write the engine's process id to the PID file.
    WritePid,
    /// Redirect DNS requests to the engine.
    ApplyDnsRedirect,
    /// Record that the user wants the engine to run.
    RememberRunning,
    /// Have the remembered proxy selections restored in a moment.
    ScheduleRestore,
}

/// What a step of a start or of a stop found or did.
#[derive(Clone, Copy, PartialEq, Eq, Structural, Debug)]
pub enum StepOutcome {
    /// The step went through, or found what it looked for.
    Done,
    /// The step failed, or did not find what it looked for.
    Failed,
    /// The PID file names a process that lives.
    Live(u32),
    /// The PID file names a process that is gone.
    Stale,
    /// The PID file does not hold a number.
    Broken,
}

/// What follows a step of a start.
#[derive(Clone, Copy, PartialEq, Eq, Structural, Debug)]
pub enum StartNext {
    Continue(StartStep),
    Fail(ErrorCode),
    Finished,
}

/// What follows a step of a start, given the step's outcome. A missing
/// GeoIP database, a TUN module that does not load, a PID file that cannot
/// be written and a DNS rule that cannot be set do not stop the start.
pub open spec fn start_next(step: StartStep, outcome: StepOutcome) -> StartNext {
    match step {
        StartStep::EnsureGeoip => StartNext::Continue(StartStep::CheckBinary),
        StartStep::CheckBinary => match outcome {
            StepOutcome::Done => StartNext::Continue(StartStep::CheckPid),
            _ => StartNext::Fail(ErrorCode::CoreNotInstalled),
        },
        StartStep::CheckPid => match outcome {
            StepOutcome::Live(_) => StartNext::Fail(ErrorCode::CoreAlreadyRunning),
            StepOutcome::Stale => StartNext::Continue(StartStep::RemoveStalePid),
            _ => StartNext::Continue(StartStep::GenerateMerged),
        },
        StartStep::RemoveStalePid => StartNext::Continue(StartStep::GenerateMerged),
        StartStep::GenerateMerged => match outcome {
            StepOutcome::Done => StartNext::Continue(StartStep::CheckConfigFile),
            _ => StartNext::Fail(ErrorCode::ConfigMergeFailed),
        },
        StartStep::CheckConfigFile => match outcome {
            StepOutcome::Done => StartNext::Continue(StartStep::LoadTunModule),
            _ => StartNext::Fail(ErrorCode::CoreConfigMissing),
        },
        StartStep::LoadTunModule => StartNext::Continue(StartStep::Spawn),
        StartStep::Spawn => match outcome {
            StepOutcome::Done => StartNext::Continue(StartStep::WritePid),
            _ => StartNext::Fail(ErrorCode::CoreStartFailed),
        },
        StartStep::WritePid => StartNext::Continue(StartStep::ApplyDnsRedirect),
        StartStep::ApplyDnsRedirect => StartNext::Continue(StartStep::RememberRunning),
        StartStep::RememberRunning => StartNext::Continue(StartStep::ScheduleRestore),
        StartStep::ScheduleRestore => StartNext::Finished,
    }
}

/// What follows a step of a start, given the step's outcome. A start begins
/// with the step `EnsureGeoip`.
pub fn start_core(step: StartStep, outcome: StepOutcome) -> (r: StartNext)
    ensures
        r == start_next(step, outcome),
{
    match step {
        StartStep::EnsureGeoip => StartNext::Continue(StartStep::CheckBinary),
        StartStep::CheckBinary => match outcome {
            StepOutcome::Done => StartNext::Continue(StartStep::CheckPid),
            _ => StartNext::Fail(ErrorCode::CoreNotInstalled),
        },
        StartStep::CheckPid => match outcome {
            StepOutcome::Live(_) => StartNext::Fail(ErrorCode::CoreAlreadyRunning),
            StepOutcome::Stale => StartNext::Continue(StartStep::RemoveStalePid),
            _ => StartNext::Continue(StartStep::GenerateMerged),
        },
        StartStep::RemoveStalePid => StartNext::Continue(StartStep::GenerateMerged),
        StartStep::GenerateMerged => match outcome {
            StepOutcome::Done => StartNext::Continue(StartStep::CheckConfigFile),
            _ => StartNext::Fail(ErrorCode::ConfigMergeFailed),
        },
        StartStep::CheckConfigFile => match outcome {
            StepOutcome::Done => StartNext::Continue(StartStep::LoadTunModule),
            _ => StartNext::Fail(ErrorCode::CoreConfigMissing),
        },
        StartStep::LoadTunModule => StartNext::Continue(StartStep::Spawn),
        StartStep::Spawn => match outcome {
            StepOutcome::Done => StartNext::Continue(StartStep::WritePid),
            _ => StartNext::Fail(ErrorCode::CoreStartFailed),
        },
        StartStep::WritePid => StartNext::Continue(StartStep::ApplyDnsRedirect),
        StartStep::ApplyDnsRedirect => StartNext::Continue(StartStep::RememberRunning),
        StartStep::RememberRunning => StartNext::Continue(StartStep::ScheduleRestore),
        StartStep::ScheduleRestore => StartNext::Finished,
    }
}

/// What the check of the PID file reports, from the file and from whether
/// the process that it names lives.
pub open spec fn pid_outcome(file: PidFile, alive: bool) -> StepOutcome {
    match pid_of(file) {
        Some(pid) => if alive {
            StepOutcome::Live(pid)
        } else {
            StepOutcome::Stale
        },
        None => match file {
            PidFile::Missing => StepOutcome::Failed,
            _ => StepOutcome::Broken,
        },
    }
}

/// What the check of the PID file reports. `alive` is read only where the
/// file names a process.
pub fn check_pid(file: &PidFile, alive: bool) -> (r: StepOutcome)
    ensures
        r == pid_outcome(*file, alive),
{
    match read_core_pid(file) {
        Some(pid) => {
            if alive {
                StepOutcome::Live(pid)
            } else {
                StepOutcome::Stale
            }
        },
        None => match file {
            PidFile::Missing => StepOutcome::Failed,
            _ => StepOutcome::Broken,
        },
    }
}

/// The position of a step in the order of a start.
pub open spec fn start_rank(step: StartStep) -> nat {
    match step {
        StartStep::EnsureGeoip => 0,
        StartStep::CheckBinary => 1,
        StartStep::CheckPid => 2,
        StartStep::RemoveStalePid => 3,
        StartStep::GenerateMerged => 4,
        StartStep::CheckConfigFile => 5,
        StartStep::LoadTunModule => 6,
        StartStep::Spawn => 7,
        StartStep::WritePid => 8,
        StartStep::ApplyDnsRedirect => 9,
        StartStep::RememberRunning => 10,
        StartStep::ScheduleRestore => 11,
    }
}

/// A start moves forward: each step leads to a later one, so a start ends
/// after at most twelve steps and spawns the engine at most once.
pub proof fn law_start_moves_forward(step: StartStep, outcome: StepOutcome)
    ensures
        start_next(step, outcome) matches StartNext::Continue(next) ==> start_rank(next)
            > start_rank(step),
{
}

/// The engine is spawned only after its binary was found, no living engine
/// was found and the configuration was composed: a start whose PID file names
/// a living process ends as already running, and the steps before the spawn
/// let a start pass only on their good outcome.
pub proof fn law_start_guards(outcome: StepOutcome, pid: u32)
    ensures
        start_next(StartStep::CheckPid, StepOutcome::Live(pid)) == StartNext::Fail(
            ErrorCode::CoreAlreadyRunning,
        ),
        start_next(StartStep::CheckBinary, outcome) is Continue ==> outcome == StepOutcome::Done,
        start_next(StartStep::GenerateMerged, outcome) is Continue ==> outcome == StepOutcome::Done,
        start_next(StartStep::CheckConfigFile, outcome) is Continue ==> outcome
            == StepOutcome::Done,
        start_next(StartStep::CheckPid, outcome) is Continue ==> !(outcome is Live),
{
}

/// How the engine was stopped.
#[derive(Clone, Copy, PartialEq, Eq, Structural, Debug)]
pub enum StopVia {
    Ipc,
    Signal,
}

/// The steps of a stop.
#[derive(Clone, Copy, PartialEq, Eq, Structural, Debug)]
pub enum StopStep {
    /// Take back the redirection of DNS requests.
    RemoveDnsRedirect,
    /// Ask the engine's service to stop the engine.
    StopViaIpc,
    /// Read the PID file.
    ReadPid,
    /// Remove a PID file that does not hold a number.
    RemoveBrokenPid,
    /// Send the termination signal to the process.
    Signal(u32),
    /// Remove the PID file of the stopped engine.
    RemovePid(StopVia),
    /// Record that the user wants the engine stopped.
    ForgetRunning(StopVia),
}

/// What follows a step of a stop.
#[derive(Clone, Copy, PartialEq, Eq, Structural, Debug)]
pub enum StopNext {
    Continue(StopStep),
    Fail(ErrorCode),
    Finished(StopVia),
}

/// What follows a step of a stop, given the step's outcome. The outcome of
/// reading the PID file is `Live` with the process id where the file holds
/// one, `Broken` where it holds something else, and `Failed` where it is
/// missing.
pub open spec fn stop_next(step: StopStep, outcome: StepOutcome) -> StopNext {
    match step {
        StopStep::RemoveDnsRedirect => StopNext::Continue(StopStep::StopViaIpc),
        StopStep::StopViaIpc => match outcome {
            StepOutcome::Done => StopNext::Continue(StopStep::RemovePid(StopVia::Ipc)),
            _ => StopNext::Continue(StopStep::ReadPid),
        },
        StopStep::ReadPid => match outcome {
            StepOutcome::Live(pid) => StopNext::Continue(StopStep::Signal(pid)),
            StepOutcome::Broken => StopNext::Continue(StopStep::RemoveBrokenPid),
            _ => StopNext::Fail(ErrorCode::CoreNotRunning),
        },
        StopStep::RemoveBrokenPid => StopNext::Fail(ErrorCode::CoreNotRunning),
        StopStep::Signal(_) => match outcome {
            StepOutcome::Done => StopNext::Continue(StopStep::RemovePid(StopVia::Signal)),
            _ => StopNext::Fail(ErrorCode::CoreStopFailed),
        },
        StopStep::RemovePid(via) => StopNext::Continue(StopStep::ForgetRunning(via)),
        StopStep::ForgetRunning(via) => StopNext::Finished(via),
    }
}

/// What follows a step of a stop, given the step's outcome. A stop begins
/// with the step `RemoveDnsRedirect`.
pub fn stop_core(step: StopStep, outcome: StepOutcome) -> (r: StopNext)
    ensures
        r == stop_next(step, outcome),
{
    match step {
        StopStep::RemoveDnsRedirect => StopNext::Continue(StopStep::StopViaIpc),
        StopStep::StopViaIpc => match outcome {
            StepOutcome::Done => StopNext::Continue(StopStep::RemovePid(StopVia::Ipc)),
            _ => StopNext::Continue(StopStep::ReadPid),
        },
        StopStep::ReadPid => match outcome {
            StepOutcome::Live(pid) => StopNext::Continue(StopStep::Signal(pid)),
            StepOutcome::Broken => StopNext::Continue(StopStep::RemoveBrokenPid),
            _ => StopNext::Fail(ErrorCode::CoreNotRunning),
        },
        StopStep::RemoveBrokenPid => StopNext::Fail(ErrorCode::CoreNotRunning),
        StopStep::Signal(_) => match outcome {
            StepOutcome::Done => StopNext::Continue(StopStep::RemovePid(StopVia::Signal)),
            _ => StopNext::Fail(ErrorCode::CoreStopFailed),
        },
        StopStep::RemovePid(via) => StopNext::Continue(StopStep::ForgetRunning(via)),
        StopStep::ForgetRunning(via) => StopNext::Finished(via),
    }
}

/// A stop that ends well has removed the PID file and recorded the user's
/// intent on its way: it ends only from the step that records the intent,
/// which is reached only from the removal of the PID file.
pub proof fn law_stop_cleans_up(step: StopStep, outcome: StepOutcome)
    ensures
        stop_next(step, outcome) matches StopNext::Finished(via) ==> step
            == StopStep::ForgetRunning(via),
        stop_next(step, outcome) matches StopNext::Continue(StopStep::ForgetRunning(via)) ==> step
            == StopStep::RemovePid(via),
        stop_next(step, outcome) matches StopNext::Continue(StopStep::RemovePid(via)) ==> outcome
            == StepOutcome::Done && (step == StopStep::StopViaIpc || step is Signal),
{
}

/// The message of a start that went through.
pub open spec fn started_message(pid: u32) -> Seq<char> {
    "core started with pid "@ + decimal_digits(pid as nat)
}

/// The message of a start that found the engine running.
pub open spec fn already_running_message(pid: u32) -> Seq<char> {
    "core is already running with pid "@ + decimal_digits(pid as nat)
}

/// The message of a start that went through.
pub fn started_text(pid: u32) -> (r: String)
    ensures
        r@ == started_message(pid),
{
    let mut text = "core started with pid ".to_owned();
    text.append(decimal_text(pid as u64).as_str());
    text
}

/// The message of a start that found the engine running.
pub fn already_running_text(pid: u32) -> (r: String)
    ensures
        r@ == already_running_message(pid),
{
    let mut text = "core is already running with pid ".to_owned();
    text.append(decimal_text(pid as u64).as_str());
    text
}

/// Where a download can fail.
#[derive(Clone, Copy, PartialEq, Eq, Structural, Debug)]
pub enum DownloadStage {
    /// No release fits the machine's architecture.
    UnsupportedArch,
    /// The latest release could not be looked up.
    ResolveUrl,
    CreateTmpDir,
    SendRequest,
    /// The server answered with an error.
    ErrorStatus,
    ReadBody,
    Extract,
    WriteTmpFile,
    CreateCoreDir,
    MoveBinary,
    SaveMeta,
}

impl DownloadStage {
    /// The code under which a failure at this stage is reported.
    pub open spec fn error(self) -> ErrorCode {
        match self {
            DownloadStage::UnsupportedArch => ErrorCode::CoreUnsupportedArch,
            DownloadStage::ResolveUrl => ErrorCode::CoreResolveDownloadUrlFailed,
            DownloadStage::CreateTmpDir => ErrorCode::CoreDownloadFailed,
            DownloadStage::SendRequest => ErrorCode::CoreDownloadFailed,
            DownloadStage::ErrorStatus => ErrorCode::CoreDownloadFailed,
            DownloadStage::ReadBody => ErrorCode::CoreDownloadFailed,
            DownloadStage::Extract => ErrorCode::CoreExtractFailed,
            DownloadStage::WriteTmpFile => ErrorCode::CoreInstallFailed,
            DownloadStage::CreateCoreDir => ErrorCode::CoreInstallFailed,
            DownloadStage::MoveBinary => ErrorCode::CoreInstallFailed,
            DownloadStage::SaveMeta => ErrorCode::CoreMetaSaveFailed,
        }
    }

    /// The code under which a failure at this stage is reported.
    pub fn error_code(self) -> (r: ErrorCode)
        ensures
            r == self.error(),
    {
        match self {
            DownloadStage::UnsupportedArch => ErrorCode::CoreUnsupportedArch,
            DownloadStage::ResolveUrl => ErrorCode::CoreResolveDownloadUrlFailed,
            DownloadStage::CreateTmpDir => ErrorCode::CoreDownloadFailed,
            DownloadStage::SendRequest => ErrorCode::CoreDownloadFailed,
            DownloadStage::ErrorStatus => ErrorCode::CoreDownloadFailed,
            DownloadStage::ReadBody => ErrorCode::CoreDownloadFailed,
            DownloadStage::Extract => ErrorCode::CoreExtractFailed,
            DownloadStage::WriteTmpFile => ErrorCode::CoreInstallFailed,
            DownloadStage::CreateCoreDir => ErrorCode::CoreInstallFailed,
            DownloadStage::MoveBinary => ErrorCode::CoreInstallFailed,
            DownloadStage::SaveMeta => ErrorCode::CoreMetaSaveFailed,
        }
    }
}

/// What happened in a download.
#[derive(Debug)]
pub enum DownloadEvent {
    /// The address is known and the download begins.
    Started,
    /// A chunk has arrived: the bytes received so far, and the length that
    /// the server announced, where it announced one.
    Received { received: u64, total: Option<u64> },
    /// The download failed.
    Failed { stage: DownloadStage, message: String },
    /// The binary is installed and its record saved.
    Installed,
}

/// The model of what happened in a download.
pub enum DownloadEventModel {
    Started,
    Received { received: u64, total: Option<u64> },
    Failed { stage: DownloadStage, message: Seq<char> },
    Installed,
}

impl View for DownloadEvent {
    type V = DownloadEventModel;

    open spec fn view(&self) -> DownloadEventModel {
        match self {
            DownloadEvent::Started => DownloadEventModel::Started,
            DownloadEvent::Received { received, total } => DownloadEventModel::Received {
                received: *received,
                total: *total,
            },
            DownloadEvent::Failed { stage, message } => DownloadEventModel::Failed {
                stage: *stage,
                message: message@,
            },
            DownloadEvent::Installed => DownloadEventModel::Installed,
        }
    }
}

/// The share that a number of received bytes is of an announced length.
pub open spec fn progress_of(received: u64, total: Option<u64>) -> Option<Progress> {
    match total {
        Some(t) if t > 0 => Some(
            Progress {
                received: if received > t {
                    t
                } else {
                    received
                },
                total: t,
            },
        ),
        _ => None,
    }
}

/// The state of the download after an event, where the event changes it. A
/// download begins only where no operation runs, and then shows no progress
/// yet; each chunk shows the share received where the length is known; a
/// failure ends the operation with an error, and the installation ends it
/// with the whole received.
pub open spec fn download_state(slot: Option<OperationModel>, event: DownloadEventModel, now: Seq<char>)
    -> Option<OperationModel> {
    match event {
        DownloadEventModel::Started => if is_running(slot) {
            None
        } else {
            Some(
                updated_operation(
                    slot,
                    CoreOperationKind::Download,
                    CoreOperationStatus::Running,
                    Some("downloading core"@),
                    Some(Progress { received: 0, total: 1 }),
                    false,
                    now,
                ),
            )
        },
        DownloadEventModel::Received { received, total } => match progress_of(received, total) {
            Some(p) => Some(
                updated_operation(
                    slot,
                    CoreOperationKind::Download,
                    CoreOperationStatus::Running,
                    None,
                    Some(p),
                    false,
                    now,
                ),
            ),
            None => None,
        },
        DownloadEventModel::Failed { stage, message } => Some(
            updated_operation(
                slot,
                CoreOperationKind::Download,
                CoreOperationStatus::Error,
                Some(message),
                None,
                true,
                now,
            ),
        ),
        DownloadEventModel::Installed => Some(
            updated_operation(
                slot,
                CoreOperationKind::Download,
                CoreOperationStatus::Success,
                Some("core downloaded and installed"@),
                Some(Progress { received: 1, total: 1 }),
                true,
                now,
            ),
        ),
    }
}

/// The code that an event of a download is answered with: a beginning while
/// an operation runs is refused as in progress, and a failure has the code of
/// its stage.
pub open spec fn download_code(slot: Option<OperationModel>, event: DownloadEventModel) -> Option<
    ErrorCode,
> {
    match event {
        DownloadEventModel::Started => if is_running(slot) {
            Some(ErrorCode::CoreOperationInProgress)
        } else {
            None
        },
        DownloadEventModel::Failed { stage, message } => Some(stage.error()),
        _ => None,
    }
}

/// Follows a download: brings the operation's state up to date and says what
/// is to be broadcast, and under which code the event is answered. A download
/// begins with the event `Started`, before anything else is done for it;
/// while an operation runs, the beginning is refused and the state of that
/// operation stays.
pub fn download_core(slot: &mut Option<CoreOperationState>, event: DownloadEvent, now: &str) -> (r: (
    Option<CoreOperationState>,
    Option<ErrorCode>,
))
    ensures
        opt_operation(r.0) == download_state(opt_operation(*old(slot)), event@, now@),
        match download_state(opt_operation(*old(slot)), event@, now@) {
            Some(state) => opt_operation(*final(slot)) == Some(state),
            None => opt_operation(*final(slot)) == opt_operation(*old(slot)),
        },
        r.1 == download_code(opt_operation(*old(slot)), event@),
{
    match event {
        DownloadEvent::Started => {
            let running = match slot {
                Some(state) => state.status == CoreOperationStatus::Running,
                None => false,
            };
            if running {
                return (None, Some(ErrorCode::CoreOperationInProgress));
            }
            let state = update_core_operation_state(
                slot,
                CoreOperationKind::Download,
                CoreOperationStatus::Running,
                Some("downloading core".to_owned()),
                Some(Progress::none()),
                false,
                now,
            );
            (Some(state), None)
        },
        DownloadEvent::Received { received, total } => {
            match Progress::of(received, total) {
                Some(p) => {
                    let state = update_core_operation_state(
                        slot,
                        CoreOperationKind::Download,
                        CoreOperationStatus::Running,
                        None,
                        Some(p),
                        false,
                        now,
                    );
                    (Some(state), None)
                },
                None => (None, None),
            }
        },
        DownloadEvent::Failed { stage, message } => {
            let code = stage.error_code();
            let state = update_core_operation_state(
                slot,
                CoreOperationKind::Download,
                CoreOperationStatus::Error,
                Some(message),
                None,
                true,
                now,
            );
            (Some(state), Some(code))
        },
        DownloadEvent::Installed => {
            let state = update_core_operation_state(
                slot,
                CoreOperationKind::Download,
                CoreOperationStatus::Success,
                Some("core downloaded and installed".to_owned()),
                Some(Progress::whole()),
                true,
                now,
            );
            (Some(state), None)
        },
    }
}

/// While an operation runs, a download does not begin: the beginning is
/// answered as in progress, nothing is broadcast and the state stays. Where
/// none runs, the download begins and is then the operation that runs.
pub proof fn law_download_waits_its_turn(slot: Option<OperationModel>, now: Seq<char>)
    ensures
        is_running(slot) ==> download_state(slot, DownloadEventModel::Started, now) is None
            && download_code(slot, DownloadEventModel::Started) == Some(
            ErrorCode::CoreOperationInProgress,
        ),
        !is_running(slot) ==> download_code(slot, DownloadEventModel::Started) is None
            && is_running(download_state(slot, DownloadEventModel::Started, now)),
{
}

/// The progress of a download does not go back: of two counts of received
/// bytes against one announced length, the larger count shows at least the
/// share of the smaller, and every share is at most the whole.
pub proof fn law_progress_is_monotone(earlier: u64, later: u64, total: u64)
    requires
        earlier <= later,
        total > 0,
    ensures
        progress_of(earlier, Some(total))->0.at_most(progress_of(later, Some(total))->0),
        progress_of(later, Some(total))->0.wf(),
        progress_of(later, Some(total))->0.at_most(Progress { received: 1, total: 1 }),
        (Progress { received: 0, total: 1 }).at_most(progress_of(earlier, Some(total))->0),
{
    let a = progress_of(earlier, Some(total))->0;
    let b = progress_of(later, Some(total))->0;
    assert(a.received <= b.received);
    assert(a.received * total <= b.received * total) by (nonlinear_arith)
        requires
            a.received <= b.received,
            total > 0,
    ;
}

/// What the supervisor does about the engine when it comes up.
#[derive(Clone, Copy, PartialEq, Eq, Structural, Debug)]
pub enum AutoStart {
    /// The user did not leave the engine running.
    NotConfigured,
    /// The engine runs already.
    AlreadyRunning(u32),
    /// The engine's binary is not installed.
    BinaryMissing { remove_pid_file: bool },
    /// Wait for the network, then start the engine.
    Start { remove_pid_file: bool },
}

/// What the supervisor does about the engine when it comes up: it starts the
/// engine where the user left it running, it does not run, and its binary is
/// there. A PID file that is stale or broken is removed on the way.
pub open spec fn auto_start_of(
    auto_start: bool,
    file: PidFile,
    alive: bool,
    binary_exists: bool,
) -> AutoStart {
    if !auto_start {
        AutoStart::NotConfigured
    } else if probe_of(file, alive).status.running {
        AutoStart::AlreadyRunning(probe_of(file, alive).status.pid->0)
    } else if !binary_exists {
        AutoStart::BinaryMissing { remove_pid_file: probe_of(file, alive).remove_pid_file }
    } else {
        AutoStart::Start { remove_pid_file: probe_of(file, alive).remove_pid_file }
    }
}

/// What the supervisor does about the engine when it comes up.
pub fn auto_start_core_if_configured(
    config: &AppConfig,
    file: &PidFile,
    alive: bool,
    binary_exists: bool,
) -> (r: AutoStart)
    ensures
        r == auto_start_of(config@.core_auto_start, *file, alive, binary_exists),
{
    if !config.core_auto_start {
        return AutoStart::NotConfigured;
    }
    let probe = core_running_status(file, alive);
    match probe.status.pid {
        Some(pid) => {
            if probe.status.running {
                return AutoStart::AlreadyRunning(pid);
            }
        },
        None => {},
    }
    if !binary_exists {
        AutoStart::BinaryMissing { remove_pid_file: probe.remove_pid_file }
    } else {
        AutoStart::Start { remove_pid_file: probe.remove_pid_file }
    }
}

/// How many seconds after a start the remembered proxy selections are
/// restored, so that the engine has loaded its configuration.
pub const RESTORE_DELAY_SECS: u64 = 2;

/// For how many seconds the network is waited for before an automatic start.
pub const NETWORK_MAX_WAIT_SECS: u64 = 300;

/// How many seconds lie between two probes of the network.
pub const NETWORK_RETRY_INTERVAL_SECS: u64 = 5;

/// After how many seconds a probe of the network is given up.
pub const NETWORK_PROBE_TIMEOUT_SECS: u64 = 5;

/// What the wait for the network does next.
#[derive(Clone, Copy, PartialEq, Eq, Structural, Debug)]
pub enum NetworkWait {
    /// Probe the network, after the retry interval where a probe has failed.
    Probe,
    /// The network answers: start the engine.
    Ready,
    /// The wait is over: start the engine all the same.
    TimedOut,
}

/// What the wait for the network does next, from the seconds waited so far
/// and from how the last probe ended, where there was one. Any answer to a
/// probe counts as the network being there.
pub open spec fn network_wait(elapsed_secs: u64, last_probe: Option<bool>) -> NetworkWait {
    if last_probe == Some(true) {
        NetworkWait::Ready
    } else if elapsed_secs >= NETWORK_MAX_WAIT_SECS {
        NetworkWait::TimedOut
    } else {
        NetworkWait::Probe
    }
}

/// What the wait for the network does next.
pub fn wait_for_network_ready_before_auto_start(elapsed_secs: u64, last_probe: Option<bool>) -> (r:
    NetworkWait)
    ensures
        r == network_wait(elapsed_secs, last_probe),
{
    match last_probe {
        Some(true) => NetworkWait::Ready,
        _ => {
            if elapsed_secs >= NETWORK_MAX_WAIT_SECS {
                NetworkWait::TimedOut
            } else {
                NetworkWait::Probe
            }
        },
    }
}

/// What the engine's service answered to the request to stop the engine.
#[derive(Debug)]
pub enum IpcStop {
    /// The service's socket is not there.
    NoSocket,
    /// The service could not be reached. The error's text is kept.
    ConnectFailed(String),
    /// The request failed. The error's text is kept.
    RequestFailed(String),
    /// The service answered with a code and a message.
    Answered { code: u32, message: String },
}

/// Whether the engine's service stopped the engine: it did where it answered
/// with the code zero.
pub open spec fn ipc_stopped(answer: IpcStop) -> bool {
    answer matches IpcStop::Answered { code, message } && code == 0
}

/// The outcome of asking the engine's service to stop the engine, with the
/// message of a failure.
pub fn stop_core_via_ipc(answer: IpcStop) -> (r: Result<(), String>)
    ensures
        r is Ok <==> ipc_stopped(answer),
        match answer {
            IpcStop::NoSocket => r matches Err(m) && m@ == "ipc_path_not_found"@,
            IpcStop::ConnectFailed(e) => r matches Err(m) && m@ == "ipc_connect_failed: "@ + e@,
            IpcStop::RequestFailed(e) => r matches Err(m) && m@ == "ipc_stop_error: "@ + e@,
            IpcStop::Answered { code, message } => code > 0 ==> (r matches Err(m) && m@
                == "ipc_stop_failed: "@ + message@),
        },
{
    match answer {
        IpcStop::NoSocket => Err("ipc_path_not_found".to_owned()),
        IpcStop::ConnectFailed(e) => {
            let mut text = "ipc_connect_failed: ".to_owned();
            text.append(e.as_str());
            Err(text)
        },
        IpcStop::RequestFailed(e) => {
            let mut text = "ipc_stop_error: ".to_owned();
            text.append(e.as_str());
            Err(text)
        },
        IpcStop::Answered { code, message } => {
            if code > 0 {
                let mut text = "ipc_stop_failed: ".to_owned();
                text.append(message.as_str());
                Err(text)
            } else {
                Ok(())
            }
        },
    }
}

} // verus!
