//! The periodic tasks: when each runs next, whether it may run, and what is
//! recorded of its run.

use vstd::prelude::*;
use crate::config::AppConfig;
use crate::config::ConfigModel;
use crate::config::ScheduledTaskConfig;
use crate::config::TaskModel;
use crate::cron::CronError;
use crate::cron::CronSchedule;
use crate::cron::Firing;
use crate::cron::SEARCH_MINUTES;
use crate::cron::schedule_error;
use crate::text::chars_of;
use crate::text::chars_start_with;
use crate::text::has_prefix;
use crate::text::is_blank;
use crate::text::slice_chars;
use crate::text::string_of;
use crate::text::trim_chars;
use crate::text::trim_text;
use crate::text::trimmed;

verus! {

/// The periodic tasks.
#[derive(Clone, Copy, PartialEq, Eq, Structural, Debug)]
pub enum TaskKind {
    UpdateSubscriptions,
    UpdateGeoip,
}

/// For how many seconds a task that cannot be scheduled is left alone.
pub const IDLE_SECS: u64 = 300;

/// The name of a task in the configuration and in the log.
pub fn task_name(kind: TaskKind) -> (r: &'static str)
    ensures
        r@ == (match kind {
            TaskKind::UpdateSubscriptions => "subscription_auto_update"@,
            TaskKind::UpdateGeoip => "geoip_auto_update"@,
        }),
{
    match kind {
        TaskKind::UpdateSubscriptions => "subscription_auto_update",
        TaskKind::UpdateGeoip => "geoip_auto_update",
    }
}

/// The configuration of a task, where it has one.
pub open spec fn task_of(config: ConfigModel, kind: TaskKind) -> Option<TaskModel> {
    match kind {
        TaskKind::UpdateSubscriptions => config.subscription_auto_update,
        TaskKind::UpdateGeoip => config.geoip_auto_update,
    }
}

/// The configuration of a task, where it has one.
pub fn task_config(config: &AppConfig, kind: TaskKind) -> (r: Option<&ScheduledTaskConfig>)
    ensures
        match r {
            Some(task) => task_of(config@, kind) == Some(task@),
            None => task_of(config@, kind) is None,
        },
{
    match kind {
        TaskKind::UpdateSubscriptions => config.subscription_auto_update.as_ref(),
        TaskKind::UpdateGeoip => config.geoip_auto_update.as_ref(),
    }
}

/// The configuration of a task that has none yet: no schedule, not enabled.
pub open spec fn blank_task() -> TaskModel {
    TaskModel {
        cron: Seq::empty(),
        enabled: false,
        last_run_time: None,
        last_run_status: None,
        last_run_message: None,
    }
}

/// The configuration with the given task configuration in the place of a
/// task.
pub open spec fn with_task(config: ConfigModel, kind: TaskKind, task: TaskModel) -> ConfigModel {
    match kind {
        TaskKind::UpdateSubscriptions => ConfigModel {
            subscription_auto_update: Some(task),
            ..config
        },
        TaskKind::UpdateGeoip => ConfigModel { geoip_auto_update: Some(task), ..config },
    }
}

/// Takes the configuration of a task out to be changed; a task that has none
/// gets a blank one. It is put back with `put_task_config`.
pub fn task_config_mut(config: &mut AppConfig, kind: TaskKind) -> (r: ScheduledTaskConfig)
    ensures
        r@ == (match task_of(old(config)@, kind) {
            Some(task) => task,
            None => blank_task(),
        }),
        final(config)@ == with_task(old(config)@, kind, r@),
{
    let slot = match kind {
        TaskKind::UpdateSubscriptions => config.subscription_auto_update.take(),
        TaskKind::UpdateGeoip => config.geoip_auto_update.take(),
    };
    let task = match slot {
        Some(task) => task,
        None => ScheduledTaskConfig::default(),
    };
    let copy = task.copy();
    match kind {
        TaskKind::UpdateSubscriptions => {
            config.subscription_auto_update = Some(task);
        },
        TaskKind::UpdateGeoip => {
            config.geoip_auto_update = Some(task);
        },
    }
    copy
}

/// Puts the configuration of a task in its place.
pub fn put_task_config(config: &mut AppConfig, kind: TaskKind, task: ScheduledTaskConfig)
    ensures
        final(config)@ == with_task(old(config)@, kind, task@),
{
    match kind {
        TaskKind::UpdateSubscriptions => {
            config.subscription_auto_update = Some(task);
        },
        TaskKind::UpdateGeoip => {
            config.geoip_auto_update = Some(task);
        },
    }
}

/// Which tasks are running.
#[derive(Clone, Copy, PartialEq, Eq, Structural, Debug)]
pub struct TaskFlags {
    pub subscriptions_running: bool,
    pub geoip_running: bool,
}

/// Whether a task is running.
pub fn task_flag(flags: &TaskFlags, kind: TaskKind) -> (r: bool)
    ensures
        r == (match kind {
            TaskKind::UpdateSubscriptions => flags.subscriptions_running,
            TaskKind::UpdateGeoip => flags.geoip_running,
        }),
{
    match kind {
        TaskKind::UpdateSubscriptions => flags.subscriptions_running,
        TaskKind::UpdateGeoip => flags.geoip_running,
    }
}

/// The flags with a task's flag set.
pub open spec fn with_flag(flags: TaskFlags, kind: TaskKind, running: bool) -> TaskFlags {
    match kind {
        TaskKind::UpdateSubscriptions => TaskFlags { subscriptions_running: running, ..flags },
        TaskKind::UpdateGeoip => TaskFlags { geoip_running: running, ..flags },
    }
}

/// The hold on a task's flag: at most one run of a task holds it.
#[derive(Debug)]
pub struct TaskLockGuard {
    kind: TaskKind,
    acquired: bool,
}

impl TaskLockGuard {
    /// The task whose flag the guard is for.
    pub closed spec fn task(&self) -> TaskKind {
        self.kind
    }

    /// Whether the guard holds the flag.
    pub closed spec fn holds(&self) -> bool {
        self.acquired
    }

    /// Tries to take a task's flag: it is taken where the task is not
    /// running.
    pub fn lock(flags: &mut TaskFlags, kind: TaskKind) -> (r: TaskLockGuard)
        ensures
            r.task() == kind,
            r.holds() == !task_flag_of(*old(flags), kind),
            *final(flags) == with_flag(*old(flags), kind, true),
    {
        let running = task_flag(flags, kind);
        match kind {
            TaskKind::UpdateSubscriptions => {
                flags.subscriptions_running = true;
            },
            TaskKind::UpdateGeoip => {
                flags.geoip_running = true;
            },
        }
        TaskLockGuard { kind, acquired: !running }
    }

    /// Whether the guard holds the flag.
    pub fn is_acquired(&self) -> (r: bool)
        ensures
            r == self.holds(),
    {
        self.acquired
    }

    /// Gives the flag back, where the guard holds it.
    pub fn release(self, flags: &mut TaskFlags)
        ensures
            *final(flags) == (if self.holds() {
                with_flag(*old(flags), self.task(), false)
            } else {
                *old(flags)
            }),
    {
        if self.acquired {
            match self.kind {
                TaskKind::UpdateSubscriptions => {
                    flags.subscriptions_running = false;
                },
                TaskKind::UpdateGeoip => {
                    flags.geoip_running = false;
                },
            }
        }
    }
}

/// Whether a task is running.
pub open spec fn task_flag_of(flags: TaskFlags, kind: TaskKind) -> bool {
    match kind {
        TaskKind::UpdateSubscriptions => flags.subscriptions_running,
        TaskKind::UpdateGeoip => flags.geoip_running,
    }
}

/// Of two runs of one task that overlap, only the first holds the task's
/// flag: while it holds the flag, every further attempt to take the flag
/// fails and leaves the flags as they are; and the attempts on one task do
/// not touch the flag of the other.
pub proof fn law_one_run_per_task(flags: TaskFlags, kind: TaskKind, other: TaskKind)
    ensures
        task_flag_of(with_flag(flags, kind, true), kind),
        with_flag(with_flag(flags, kind, true), kind, true) == with_flag(flags, kind, true),
        !task_flag_of(with_flag(flags, kind, false), kind),
        other != kind ==> task_flag_of(with_flag(flags, kind, true), other) == task_flag_of(
            flags,
            other,
        ),
{
}

/// How a run of a task ended.
#[derive(Debug)]
pub enum TaskRunState {
    Success,
    Skipped(String),
    Failed(String),
}

/// The model of how a run ended.
pub enum RunModel {
    Success,
    Skipped(Seq<char>),
    Failed(Seq<char>),
}

impl View for TaskRunState {
    type V = RunModel;

    open spec fn view(&self) -> RunModel {
        match self {
            TaskRunState::Success => RunModel::Success,
            TaskRunState::Skipped(m) => RunModel::Skipped(m@),
            TaskRunState::Failed(m) => RunModel::Failed(m@),
        }
    }
}

/// How a run ended, from whether it got the task's flag and from what the
/// task's body reported. A run without the flag is skipped. An error that
/// begins with `skipped:` is a skip, with what follows, trimmed, as its
/// message.
pub open spec fn run_state(acquired: bool, result: Result<(), String>) -> RunModel {
    if !acquired {
        RunModel::Skipped("already running"@)
    } else {
        match result {
            Ok(_) => RunModel::Success,
            Err(message) => if has_prefix(message@, "skipped:"@) {
                RunModel::Skipped(
                    trimmed(message@.subrange("skipped:"@.len() as int, message@.len() as int)),
                )
            } else {
                RunModel::Failed(message@)
            },
        }
    }
}

/// How a run ended. `result` is what the task's body reported; it is read
/// only where the run got the task's flag.
pub fn execute_task(acquired: bool, result: Result<(), String>) -> (r: TaskRunState)
    ensures
        r@ == run_state(acquired, result),
{
    if !acquired {
        return TaskRunState::Skipped("already running".to_owned());
    }
    match result {
        Ok(()) => TaskRunState::Success,
        Err(message) => {
            let chars = chars_of(message.as_str());
            let prefix = chars_of("skipped:");
            if chars_start_with(&chars, &prefix) {
                let rest = trim_chars(&slice_chars(&chars, prefix.len(), chars.len()));
                TaskRunState::Skipped(string_of(&rest))
            } else {
                TaskRunState::Failed(message)
            }
        },
    }
}

/// The configuration of a task after a run: the time of the run, its status
/// and its message.
pub open spec fn task_after_run(task: TaskModel, state: RunModel, now: Seq<char>) -> TaskModel {
    TaskModel {
        last_run_time: Some(now),
        last_run_status: Some(
            match state {
                RunModel::Success => "ok"@,
                RunModel::Skipped(_) => "skipped"@,
                RunModel::Failed(_) => "error"@,
            },
        ),
        last_run_message: match state {
            RunModel::Success => None,
            RunModel::Skipped(m) => Some(m),
            RunModel::Failed(m) => Some(m),
        },
        ..task
    }
}

/// The configuration after a run of a task was recorded.
pub open spec fn with_run_state(config: ConfigModel, kind: TaskKind, state: RunModel, now: Seq<char>)
    -> ConfigModel {
    with_task(
        config,
        kind,
        task_after_run(
            match task_of(config, kind) {
                Some(task) => task,
                None => blank_task(),
            },
            state,
            now,
        ),
    )
}

/// Records how a run of a task ended.
pub fn record_run_state(config: &mut AppConfig, kind: TaskKind, state: &TaskRunState, now: &str)
    ensures
        final(config)@ == with_run_state(old(config)@, kind, state@, now@),
{
    let mut task = task_config_mut(config, kind);
    task.last_run_time = Some(now.to_owned());
    match state {
        TaskRunState::Success => {
            task.last_run_status = Some("ok".to_owned());
            task.last_run_message = None;
        },
        TaskRunState::Skipped(message) => {
            task.last_run_status = Some("skipped".to_owned());
            task.last_run_message = Some(message.clone());
        },
        TaskRunState::Failed(message) => {
            task.last_run_status = Some("error".to_owned());
            task.last_run_message = Some(message.clone());
        },
    }
    put_task_config(config, kind, task);
}

/// What a cron error is called in messages.
pub open spec fn cron_error_text(e: CronError) -> Seq<char> {
    match e {
        CronError::FieldCount => "cron expression must have 5 fields"@,
        CronError::InvalidStep => "invalid step value in cron field"@,
        CronError::InvalidRangeStart => "invalid range start in cron field"@,
        CronError::InvalidRangeEnd => "invalid range end in cron field"@,
        CronError::InvalidValue => "invalid value in cron field"@,
        CronError::InvalidRange => "invalid range in cron field"@,
    }
}

/// What a cron error is called in messages.
pub fn describe_cron_error(e: CronError) -> (r: &'static str)
    ensures
        r@ == cron_error_text(e),
{
    match e {
        CronError::FieldCount => "cron expression must have 5 fields",
        CronError::InvalidStep => "invalid step value in cron field",
        CronError::InvalidRangeStart => "invalid range start in cron field",
        CronError::InvalidRangeEnd => "invalid range end in cron field",
        CronError::InvalidValue => "invalid value in cron field",
        CronError::InvalidRange => "invalid range in cron field",
    }
}

/// What a task's loop does next.
#[derive(Debug)]
pub enum TaskPlan {
    /// The task has no schedule or is switched off: look again later.
    Idle,
    /// The schedule cannot be used: record the failure, then look again later.
    Misconfigured(TaskRunState),
    /// Sleep for the given seconds, then run the task and record its run.
    RunAfter { secs: u64 },
}

/// Whether a task is left alone: it has no configuration, it is switched
/// off, or its schedule is blank.
pub open spec fn is_idle(task: Option<TaskModel>) -> bool {
    match task {
        None => true,
        Some(t) => !t.enabled || is_blank(t.cron),
    }
}

/// What a task's loop does next, at the moment `now`, in seconds since the
/// Unix epoch. A task without a usable schedule is left alone for a while; a
/// schedule with an error is recorded as a failed run with the error in its
/// message, and the loop goes on. Otherwise the task runs at the next moment
/// at which its schedule fires, in the machine's local time.
pub fn run_task_loop(config: &AppConfig, kind: TaskKind, now: i64) -> (r: TaskPlan)
    ensures
        is_idle(task_of(config@, kind)) <==> r is Idle,
        !is_idle(task_of(config@, kind)) ==> {
            let cron = trimmed(task_of(config@, kind)->0.cron);
            match schedule_error(cron) {
                Some(e) => r matches TaskPlan::Misconfigured(TaskRunState::Failed(m)) && m@
                    == "invalid cron expression: "@ + cron_error_text(e),
                None => match r {
                    TaskPlan::RunAfter { secs } => 60 <= secs <= 60 * SEARCH_MINUTES && secs % 60
                        == 0,
                    TaskPlan::Misconfigured(TaskRunState::Failed(m)) => m@
                        == "failed to compute next run time from cron expression"@,
                    _ => false,
                },
            }
        },
{
    let Some(task) = task_config(config, kind) else {
        return TaskPlan::Idle;
    };
    if !task.enabled {
        return TaskPlan::Idle;
    }
    let cron = trim_text(task.cron.as_str());
    if cron.as_str().is_empty() {
        return TaskPlan::Idle;
    }
    let schedule = match CronSchedule::parse(cron.as_str()) {
        Ok(s) => s,
        Err(e) => {
            let mut message = "invalid cron expression: ".to_owned();
            message.append(describe_cron_error(e));
            return TaskPlan::Misconfigured(TaskRunState::Failed(message));
        },
    };
    plan_run(now, schedule.next_after(now))
}

/// For how many seconds a task sleeps until a moment: the seconds from now
/// to the moment, and a minute where the moment is not at least a second
/// away.
pub open spec fn sleep_secs(now: i64, at: i64) -> u64 {
    if at - now >= 1 {
        (at - now) as u64
    } else {
        60
    }
}

/// What a task's loop does with the answer of the search for the next
/// firing: it sleeps until the moment that was found and then runs the task,
/// and it records a failed run where none was found.
pub fn plan_run(now: i64, firing: Option<Firing>) -> (r: TaskPlan)
    ensures
        match firing {
            Some(f) => r matches TaskPlan::RunAfter { secs } && secs == sleep_secs(
                now,
                f.unix_seconds,
            ),
            None => r matches TaskPlan::Misconfigured(TaskRunState::Failed(m)) && m@
                == "failed to compute next run time from cron expression"@,
        },
{
    match firing {
        Some(f) => {
            let ahead: i128 = f.unix_seconds as i128 - now as i128;
            if ahead >= 1 {
                TaskPlan::RunAfter { secs: ahead as u64 }
            } else {
                TaskPlan::RunAfter { secs: 60 }
            }
        },
        None => TaskPlan::Misconfigured(
            TaskRunState::Failed("failed to compute next run time from cron expression".to_owned()),
        ),
    }
}

} // verus!
