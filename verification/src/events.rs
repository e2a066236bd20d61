//! Application events and the state of the engine's lifecycle operation.

use vstd::prelude::*;
use crate::config::copy_opt;
use crate::config::opt_text;

verus! {

/// What made the configuration change.
#[derive(Clone, Copy, PartialEq, Eq, Structural, Debug)]
pub enum ConfigChangeReason {
    SubscriptionFetched,
    ActiveSubscriptionChanged,
    SubscriptionDeleted,
    UserProfileUpdated,
    ActiveUserProfileChanged,
    UserProfileDeleted,
    SettingsUpdated,
    Other,
}

/// How an attempt to make the engine load the new configuration ended.
#[derive(Debug)]
pub enum CoreReloadResult {
    NotRunning,
    Reloaded,
    ReloadFailed { message: String },
    Skipped { reason: String },
}

/// The model of a reload's outcome.
pub enum ReloadModel {
    NotRunning,
    Reloaded,
    ReloadFailed { message: Seq<char> },
    Skipped { reason: Seq<char> },
}

impl View for CoreReloadResult {
    type V = ReloadModel;

    open spec fn view(&self) -> ReloadModel {
        match self {
            CoreReloadResult::NotRunning => ReloadModel::NotRunning,
            CoreReloadResult::Reloaded => ReloadModel::Reloaded,
            CoreReloadResult::ReloadFailed { message } => ReloadModel::ReloadFailed {
                message: message@,
            },
            CoreReloadResult::Skipped { reason } => ReloadModel::Skipped { reason: reason@ },
        }
    }
}

impl CoreReloadResult {
    /// A copy of the outcome.
    pub fn copy(&self) -> (r: CoreReloadResult)
        ensures
            r@ == self@,
    {
        match self {
            CoreReloadResult::NotRunning => CoreReloadResult::NotRunning,
            CoreReloadResult::Reloaded => CoreReloadResult::Reloaded,
            CoreReloadResult::ReloadFailed { message } => CoreReloadResult::ReloadFailed {
                message: message.clone(),
            },
            CoreReloadResult::Skipped { reason } => CoreReloadResult::Skipped {
                reason: reason.clone(),
            },
        }
    }
}

/// The kind of a lifecycle operation on the engine.
#[derive(Clone, Copy, PartialEq, Eq, Structural, Debug)]
pub enum CoreOperationKind {
    Start,
    Stop,
    Download,
}

/// How far a lifecycle operation has come.
#[derive(Clone, Copy, PartialEq, Eq, Structural, Debug)]
pub enum CoreOperationStatus {
    Pending,
    Running,
    Success,
    Error,
}

/// The share of a download that has arrived: `received` bytes of `total`.
/// As a fraction it lies between zero and one.
#[derive(Clone, Copy, PartialEq, Eq, Structural, Debug)]
pub struct Progress {
    pub received: u64,
    pub total: u64,
}

impl Progress {
    /// The fraction is defined and at most one.
    pub open spec fn wf(self) -> bool {
        self.total > 0 && self.received <= self.total
    }

    /// Whether this share is at most another, as fractions.
    pub open spec fn at_most(self, other: Progress) -> bool {
        self.received * other.total <= other.received * self.total
    }

    /// The share of `total` bytes that `received` bytes are, cut to the whole.
    /// Nothing where the total is not known to be positive.
    pub fn of(received: u64, total: Option<u64>) -> (r: Option<Progress>)
        ensures
            match total {
                Some(t) if t > 0 => r == Some(
                    Progress {
                        received: if received > t {
                            t
                        } else {
                            received
                        },
                        total: t,
                    },
                ),
                _ => r is None,
            },
            r matches Some(p) ==> p.wf(),
    {
        match total {
            Some(t) => {
                if t > 0 {
                    Some(
                        Progress {
                            received: if received > t {
                                t
                            } else {
                                received
                            },
                            total: t,
                        },
                    )
                } else {
                    None
                }
            },
            None => None,
        }
    }

    /// Nothing received yet.
    pub fn none() -> (r: Progress)
        ensures
            r == (Progress { received: 0, total: 1 }),
            r.wf(),
    {
        Progress { received: 0, total: 1 }
    }

    /// All received.
    pub fn whole() -> (r: Progress)
        ensures
            r == (Progress { received: 1, total: 1 }),
            r.wf(),
    {
        Progress { received: 1, total: 1 }
    }
}

/// The state of the lifecycle operation that runs or ran last. There is one
/// such state at most.
#[derive(Debug)]
pub struct CoreOperationState {
    pub kind: CoreOperationKind,
    pub status: CoreOperationStatus,
    pub message: Option<String>,
    pub progress: Option<Progress>,
    pub started_at: String,
    pub finished_at: Option<String>,
}

/// The model of an operation's state.
pub struct OperationModel {
    pub kind: CoreOperationKind,
    pub status: CoreOperationStatus,
    pub message: Option<Seq<char>>,
    pub progress: Option<Progress>,
    pub started_at: Seq<char>,
    pub finished_at: Option<Seq<char>>,
}

impl View for CoreOperationState {
    type V = OperationModel;

    open spec fn view(&self) -> OperationModel {
        OperationModel {
            kind: self.kind,
            status: self.status,
            message: opt_text(self.message),
            progress: self.progress,
            started_at: self.started_at@,
            finished_at: opt_text(self.finished_at),
        }
    }
}

impl CoreOperationState {
    /// A copy of the state.
    pub fn copy(&self) -> (r: CoreOperationState)
        ensures
            r@ == self@,
    {
        CoreOperationState {
            kind: self.kind,
            status: self.status,
            message: copy_opt(&self.message),
            progress: self.progress,
            started_at: self.started_at.clone(),
            finished_at: copy_opt(&self.finished_at),
        }
    }
}

/// The model of a state that may be absent.
pub open spec fn opt_operation(slot: Option<CoreOperationState>) -> Option<OperationModel> {
    match slot {
        Some(s) => Some(s@),
        None => None,
    }
}

/// Whether a lifecycle operation is running.
pub open spec fn is_running(slot: Option<OperationModel>) -> bool {
    slot matches Some(s) && s.status == CoreOperationStatus::Running
}

/// The state after an update. A state of the same kind is carried on: its
/// progress stays where the update brings none, and its end stays unless the
/// update finishes it. Any other state gives way to a new one. An update
/// that sets an operation running without finishing it starts its clock.
pub open spec fn updated_operation(
    slot: Option<OperationModel>,
    kind: CoreOperationKind,
    status: CoreOperationStatus,
    message: Option<Seq<char>>,
    progress: Option<Progress>,
    finished: bool,
    now: Seq<char>,
) -> OperationModel {
    let base = match slot {
        Some(existing) if existing.kind == kind => OperationModel {
            kind: existing.kind,
            status: status,
            message: message,
            progress: if progress is Some {
                progress
            } else {
                existing.progress
            },
            started_at: existing.started_at,
            finished_at: if finished {
                Some(now)
            } else {
                existing.finished_at
            },
        },
        _ => OperationModel {
            kind: kind,
            status: status,
            message: message,
            progress: progress,
            started_at: now,
            finished_at: if finished {
                Some(now)
            } else {
                None
            },
        },
    };
    if status == CoreOperationStatus::Running && !finished {
        OperationModel { started_at: now, finished_at: None, ..base }
    } else {
        base
    }
}

/// Brings the state of the lifecycle operation up to date and hands out a
/// copy of it, to be broadcast.
pub fn update_core_operation_state(
    slot: &mut Option<CoreOperationState>,
    kind: CoreOperationKind,
    status: CoreOperationStatus,
    message: Option<String>,
    progress: Option<Progress>,
    finished: bool,
    now: &str,
) -> (r: CoreOperationState)
    ensures
        r@ == updated_operation(
            opt_operation(*old(slot)),
            kind,
            status,
            opt_text(message),
            progress,
            finished,
            now@,
        ),
        opt_operation(*final(slot)) == Some(r@),
{
    let taken = slot.take();
    let mut state = match taken {
        Some(existing) => {
            if existing.kind == kind {
                CoreOperationState {
                    kind: existing.kind,
                    status,
                    message,
                    progress: if progress.is_some() {
                        progress
                    } else {
                        existing.progress
                    },
                    started_at: existing.started_at,
                    finished_at: if finished {
                        Some(now.to_owned())
                    } else {
                        existing.finished_at
                    },
                }
            } else {
                CoreOperationState {
                    kind,
                    status,
                    message,
                    progress,
                    started_at: now.to_owned(),
                    finished_at: if finished {
                        Some(now.to_owned())
                    } else {
                        None
                    },
                }
            }
        },
        None => CoreOperationState {
            kind,
            status,
            message,
            progress,
            started_at: now.to_owned(),
            finished_at: if finished {
                Some(now.to_owned())
            } else {
                None
            },
        },
    };
    if status == CoreOperationStatus::Running && !finished {
        state.started_at = now.to_owned();
        state.finished_at = None;
    }
    let out = state.copy();
    *slot = Some(state);
    out
}

/// What the application broadcasts to its listeners.
#[derive(Debug)]
pub enum AppEvent {
    ConfigApplied { reason: ConfigChangeReason, core_reload: CoreReloadResult, timestamp: String },
    CoreStatusChanged { running: bool, pid: Option<u32>, timestamp: String },
    CoreOperationUpdated { state: CoreOperationState },
    MihomoLogChunk { stream: String, chunk: String, timestamp: String },
}

/// The model of an event.
pub enum EventModel {
    ConfigApplied { reason: ConfigChangeReason, core_reload: ReloadModel, timestamp: Seq<char> },
    CoreStatusChanged { running: bool, pid: Option<u32>, timestamp: Seq<char> },
    CoreOperationUpdated { state: OperationModel },
    MihomoLogChunk { stream: Seq<char>, chunk: Seq<char>, timestamp: Seq<char> },
}

impl View for AppEvent {
    type V = EventModel;

    open spec fn view(&self) -> EventModel {
        match self {
            AppEvent::ConfigApplied { reason, core_reload, timestamp } => EventModel::ConfigApplied {
                reason: *reason,
                core_reload: core_reload@,
                timestamp: timestamp@,
            },
            AppEvent::CoreStatusChanged { running, pid, timestamp } => EventModel::CoreStatusChanged {
                running: *running,
                pid: *pid,
                timestamp: timestamp@,
            },
            AppEvent::CoreOperationUpdated { state } => EventModel::CoreOperationUpdated {
                state: state@,
            },
            AppEvent::MihomoLogChunk { stream, chunk, timestamp } => EventModel::MihomoLogChunk {
                stream: stream@,
                chunk: chunk@,
                timestamp: timestamp@,
            },
        }
    }
}

/// The outcome of applying a configuration: the engine was not running, or
/// it was and the reload went through or failed with a message.
pub open spec fn reload_model(running: bool, reload: Result<(), String>) -> ReloadModel {
    if !running {
        ReloadModel::NotRunning
    } else {
        match reload {
            Err(message) => ReloadModel::ReloadFailed { message: message@ },
            Ok(_) => ReloadModel::Reloaded,
        }
    }
}

/// What is reported after a configuration change: the outcome of the reload,
/// and the two events to broadcast, the applied configuration first and the
/// engine's status second. `reload` is what the engine answered to the
/// reload request; it is read only where the engine runs.
pub fn reload_core_if_running(
    reason: ConfigChangeReason,
    running: bool,
    pid: Option<u32>,
    reload: Result<(), String>,
    timestamp: &str,
) -> (r: (CoreReloadResult, AppEvent, AppEvent))
    ensures
        r.0@ == reload_model(running, reload),
        r.1@ == (EventModel::ConfigApplied {
            reason,
            core_reload: reload_model(running, reload),
            timestamp: timestamp@,
        }),
        r.2@ == (EventModel::CoreStatusChanged { running, pid, timestamp: timestamp@ }),
{
    let result = if !running {
        CoreReloadResult::NotRunning
    } else {
        match reload {
            Err(message) => CoreReloadResult::ReloadFailed { message },
            Ok(_) => CoreReloadResult::Reloaded,
        }
    };
    let applied = AppEvent::ConfigApplied {
        reason,
        core_reload: result.copy(),
        timestamp: timestamp.to_owned(),
    };
    let status = AppEvent::CoreStatusChanged { running, pid, timestamp: timestamp.to_owned() };
    (result, applied, status)
}

} // verus!
