//! The discipline of log writing: rotation by size, and a guard that stops
//! writing to a disk that runs full.

use vstd::prelude::*;
use crate::text::decimal_digits;
use crate::text::decimal_text;

verus! {

/// The size at which a log file is rotated.
pub const LOG_MAX_BYTES: u64 = 1048576;

/// How many rotated files are kept beside the active one.
pub const LOG_MAX_ROTATED_FILES: usize = 5;

/// The free space under which rotated files are removed, and under which
/// writing stops where that does not help.
pub const LOG_MIN_FREE_SPACE_BYTES: u64 = 1048576;

/// How many bytes are written between two looks at the free space.
pub const LOG_DISK_CHECK_INTERVAL_BYTES: u64 = 65536;

/// How many lines of a log the panel is shown.
pub const LOG_TAIL_LINES: usize = 200;

/// What one log stream remembers between writes.
#[derive(Clone, Copy, PartialEq, Eq, Structural, Debug)]
pub struct LogWriteState {
    /// Writing to the file has stopped for good.
    pub logging_disabled: bool,
    pub bytes_since_last_disk_check: u64,
    /// The warning about the full disk has been given.
    pub warning_emitted: bool,
}

impl Default for LogWriteState {
    fn default() -> (r: LogWriteState)
        ensures
            r == (LogWriteState {
                logging_disabled: false,
                bytes_since_last_disk_check: 0,
                warning_emitted: false,
            }),
    {
        LogWriteState {
            logging_disabled: false,
            bytes_since_last_disk_check: 0,
            warning_emitted: false,
        }
    }
}

/// The state of a log stream that has written nothing yet.
pub fn new_shared_log_write_state() -> (r: LogWriteState)
    ensures
        r == (LogWriteState {
            logging_disabled: false,
            bytes_since_last_disk_check: 0,
            warning_emitted: false,
        }),
{
    LogWriteState { logging_disabled: false, bytes_since_last_disk_check: 0, warning_emitted: false }
}

/// The sum of two numbers, cut to the largest number of 64 bits.
pub open spec fn saturating_sum(a: u64, b: u64) -> u64 {
    if a + b > u64::MAX {
        u64::MAX
    } else {
        (a + b) as u64
    }
}

/// Eighty percent of the free space, rounded down. A product beyond 64 bits
/// counts as the largest number of 64 bits.
pub open spec fn eighty_percent(free: u64) -> u64 {
    if free * 80 > u64::MAX {
        (u64::MAX / 100) as u64
    } else {
        (free * 80 / 100) as u64
    }
}

/// The size at which a log file is rotated, given the free space of its
/// directory where that is known: a mebibyte, or eighty percent of the free
/// space where that is less and not zero.
pub open spec fn effective_max(free: Option<u64>) -> u64 {
    match free {
        Some(f) if eighty_percent(f) > 0 && eighty_percent(f) < LOG_MAX_BYTES => eighty_percent(f),
        _ => LOG_MAX_BYTES,
    }
}

/// The size at which a log file is rotated.
pub fn effective_log_max_bytes(free: Option<u64>) -> (r: u64)
    ensures
        r == effective_max(free),
        0 < r <= LOG_MAX_BYTES,
{
    let mut max_bytes = LOG_MAX_BYTES;
    if let Some(f) = free {
        let product: u64 = if f > u64::MAX / 80 {
            u64::MAX
        } else {
            f * 80
        };
        let cap = product / 100;
        if cap > 0 && cap < max_bytes {
            max_bytes = cap;
        }
    }
    max_bytes
}

/// What has happened since the last step of a write.
#[derive(Clone, Copy, PartialEq, Eq, Structural, Debug)]
pub enum LogWriteEvent {
    /// Bytes have arrived to be written.
    Write { len: usize },
    /// The free space of the log's directory has been asked: the answer, or
    /// nothing where there was none.
    FreeSpace(Option<u64>),
    /// The rotated files have been removed and the free space asked again.
    FreeSpaceAfterCleanup(Option<u64>),
}

/// What is to be done next for a write.
#[derive(Clone, Copy, PartialEq, Eq, Structural, Debug)]
pub enum LogWriteAction {
    /// Drop the bytes and report them as written.
    Discard,
    /// Ask for the free space of the log's directory.
    QueryFreeSpace,
    /// Remove the rotated files, then ask for the free space again.
    CleanupThenQuery,
    /// Drop the bytes, report them as written and, where `warn` holds, give
    /// the warning that writing has stopped.
    Disable { warn: bool },
    /// Rotate the file where it is due, then append the bytes.
    RotateAndAppend,
}

/// Whether the free space is known to be too little.
pub open spec fn too_little(free: Option<u64>) -> bool {
    free matches Some(f) && f < LOG_MIN_FREE_SPACE_BYTES
}

/// The state after an event.
pub open spec fn log_state_after(state: LogWriteState, event: LogWriteEvent) -> LogWriteState {
    match event {
        LogWriteEvent::Write { len } => {
            if state.logging_disabled {
                state
            } else {
                let total = saturating_sum(state.bytes_since_last_disk_check, len as u64);
                LogWriteState {
                    bytes_since_last_disk_check: if total >= LOG_DISK_CHECK_INTERVAL_BYTES {
                        0
                    } else {
                        total
                    },
                    ..state
                }
            }
        },
        LogWriteEvent::FreeSpace(_) => state,
        LogWriteEvent::FreeSpaceAfterCleanup(free) => {
            if too_little(free) {
                LogWriteState { logging_disabled: true, warning_emitted: true, ..state }
            } else {
                state
            }
        },
    }
}

/// What is to be done after an event.
pub open spec fn log_action_after(state: LogWriteState, event: LogWriteEvent) -> LogWriteAction {
    match event {
        LogWriteEvent::Write { len } => {
            if state.logging_disabled {
                LogWriteAction::Discard
            } else if saturating_sum(state.bytes_since_last_disk_check, len as u64)
                >= LOG_DISK_CHECK_INTERVAL_BYTES {
                LogWriteAction::QueryFreeSpace
            } else {
                LogWriteAction::RotateAndAppend
            }
        },
        LogWriteEvent::FreeSpace(free) => {
            if too_little(free) {
                LogWriteAction::CleanupThenQuery
            } else {
                LogWriteAction::RotateAndAppend
            }
        },
        LogWriteEvent::FreeSpaceAfterCleanup(free) => {
            if too_little(free) {
                LogWriteAction::Disable { warn: !state.warning_emitted }
            } else {
                LogWriteAction::RotateAndAppend
            }
        },
    }
}

/// One step of a guarded write. A write starts with the event `Write`; each
/// action that asks for the free space is answered with the next event, until
/// the action says what becomes of the bytes.
pub fn write_log_with_rotation_and_space_guard(state: &mut LogWriteState, event: LogWriteEvent) -> (r:
    LogWriteAction)
    ensures
        *final(state) == log_state_after(*old(state), event),
        r == log_action_after(*old(state), event),
{
    match event {
        LogWriteEvent::Write { len } => {
            if state.logging_disabled {
                return LogWriteAction::Discard;
            }
            let add = len as u64;
            let total: u64 = if state.bytes_since_last_disk_check > u64::MAX - add {
                u64::MAX
            } else {
                state.bytes_since_last_disk_check + add
            };
            if total >= LOG_DISK_CHECK_INTERVAL_BYTES {
                state.bytes_since_last_disk_check = 0;
                LogWriteAction::QueryFreeSpace
            } else {
                state.bytes_since_last_disk_check = total;
                LogWriteAction::RotateAndAppend
            }
        },
        LogWriteEvent::FreeSpace(free) => {
            match free {
                Some(f) => {
                    if f < LOG_MIN_FREE_SPACE_BYTES {
                        LogWriteAction::CleanupThenQuery
                    } else {
                        LogWriteAction::RotateAndAppend
                    }
                },
                None => LogWriteAction::RotateAndAppend,
            }
        },
        LogWriteEvent::FreeSpaceAfterCleanup(free) => {
            match free {
                Some(f) => {
                    if f < LOG_MIN_FREE_SPACE_BYTES {
                        let warn = !state.warning_emitted;
                        state.logging_disabled = true;
                        state.warning_emitted = true;
                        LogWriteAction::Disable { warn }
                    } else {
                        LogWriteAction::RotateAndAppend
                    }
                },
                None => LogWriteAction::RotateAndAppend,
            }
        },
    }
}

/// A stream that has stopped writing drops every write and stays as it is.
pub proof fn law_disabled_stream_discards(state: LogWriteState, len: usize)
    requires
        state.logging_disabled,
    ensures
        log_action_after(state, LogWriteEvent::Write { len }) == LogWriteAction::Discard,
        log_state_after(state, LogWriteEvent::Write { len }) == state,
{
}

/// No event turns writing on again, and none takes the warning back.
pub proof fn law_disabling_is_final(state: LogWriteState, event: LogWriteEvent)
    ensures
        state.logging_disabled ==> log_state_after(state, event).logging_disabled,
        state.warning_emitted ==> log_state_after(state, event).warning_emitted,
{
}

/// The warning is given once: the step that asks for it records it, and no
/// step asks for it after it was recorded.
pub proof fn law_warning_is_given_once(state: LogWriteState, event: LogWriteEvent)
    ensures
        log_action_after(state, event) == (LogWriteAction::Disable { warn: true })
            ==> !state.warning_emitted && log_state_after(state, event).warning_emitted,
        state.warning_emitted ==> log_action_after(state, event) != (LogWriteAction::Disable {
            warn: true,
        }),
{
}

/// The name of a rotated file: the log's own name for zero, else the name
/// with a dot and the number.
pub open spec fn rotated_name(base: Seq<char>, index: nat) -> Seq<char> {
    if index == 0 {
        base
    } else {
        base + seq!['.'] + decimal_digits(index)
    }
}

/// The name of a rotated file.
pub fn rotated_log_name(base: &str, index: usize) -> (r: String)
    ensures
        r@ == rotated_name(base@, index as nat),
{
    let mut name = base.to_owned();
    if index > 0 {
        name.append(".");
        let digits = decimal_text(index as u64);
        name.append(digits.as_str());
        proof {
            reveal_strlit(".");
            assert("."@ =~= seq!['.']);
        }
    }
    name
}

/// The moves of a rotation, in the order in which they are made: the oldest
/// rotated file gives way first and the active file moves last. Each move
/// takes the file numbered `.0` to the number `.1`, and zero is the active
/// file.
pub open spec fn rotation_moves(keep: nat) -> Seq<(nat, nat)> {
    Seq::new(keep, |i: int| ((keep - 1 - i) as nat, (keep - i) as nat))
}

/// Whether a log file is due for rotation: it is there, and its size has
/// reached the limit that the free space allows.
pub open spec fn rotation_due(size: Option<u64>, free: Option<u64>) -> bool {
    size matches Some(s) && s >= effective_max(free)
}

/// The moves that rotate a log file of the given size, where it is due. A
/// file that is missing, or that is smaller than the limit, is left alone.
/// Each move takes the file under the first name to the second name; a move
/// whose first file is missing is passed over, and a file in the way is
/// removed first.
pub fn rotate_log_file(base: &str, size: Option<u64>, free: Option<u64>) -> (r: Vec<(String, String)>)
    ensures
        !rotation_due(size, free) ==> r.len() == 0,
        rotation_due(size, free) ==> r.len() == LOG_MAX_ROTATED_FILES && forall|i: int|
            0 <= i < r.len() ==> (#[trigger] r[i]).0@ == rotated_name(
                base@,
                rotation_moves(LOG_MAX_ROTATED_FILES as nat)[i].0,
            ) && r[i].1@ == rotated_name(base@, rotation_moves(LOG_MAX_ROTATED_FILES as nat)[i].1),
{
    let mut moves: Vec<(String, String)> = Vec::new();
    let due = match size {
        Some(s) => s >= effective_log_max_bytes(free),
        None => false,
    };
    if !due {
        return moves;
    }
    let mut index: usize = LOG_MAX_ROTATED_FILES;
    while index >= 1
        invariant
            index <= LOG_MAX_ROTATED_FILES,
            moves.len() == LOG_MAX_ROTATED_FILES - index,
            forall|i: int|
                0 <= i < moves.len() ==> (#[trigger] moves[i]).0@ == rotated_name(
                    base@,
                    rotation_moves(LOG_MAX_ROTATED_FILES as nat)[i].0,
                ) && moves[i].1@ == rotated_name(
                    base@,
                    rotation_moves(LOG_MAX_ROTATED_FILES as nat)[i].1,
                ),
        decreases index,
    {
        let from = rotated_log_name(base, index - 1);
        let to = rotated_log_name(base, index);
        moves.push((from, to));
        index -= 1;
    }
    moves
}

/// The names of the rotated files that a cleanup removes: the numbers one to
/// five. The active file stays.
pub fn cleanup_rotated_logs(base: &str) -> (r: Vec<String>)
    ensures
        r.len() == LOG_MAX_ROTATED_FILES,
        forall|i: int| 0 <= i < r.len() ==> (#[trigger] r[i])@ == rotated_name(base@, (i + 1) as nat),
{
    let mut names: Vec<String> = Vec::new();
    let mut index: usize = 1;
    while index <= LOG_MAX_ROTATED_FILES
        invariant
            1 <= index <= LOG_MAX_ROTATED_FILES + 1,
            names.len() == index - 1,
            forall|i: int|
                0 <= i < names.len() ==> (#[trigger] names[i])@ == rotated_name(
                    base@,
                    (i + 1) as nat,
                ),
        decreases LOG_MAX_ROTATED_FILES + 1 - index,
    {
        names.push(rotated_log_name(base, index));
        index += 1;
    }
    names
}

/// The texts of a list of strings.
pub open spec fn line_texts(lines: Seq<String>) -> Seq<Seq<char>> {
    Seq::new(lines.len(), |i: int| lines[i]@)
}

/// The last lines of a log: all of them where there are no more than
/// `max_lines`.
pub open spec fn tail_of(lines: Seq<Seq<char>>, max_lines: nat) -> Seq<Seq<char>> {
    if lines.len() <= max_lines {
        lines
    } else {
        lines.subrange(lines.len() - max_lines, lines.len() as int)
    }
}

/// The last `max_lines` lines of a log.
pub fn read_log_tail(lines: &Vec<String>, max_lines: usize) -> (r: Vec<String>)
    ensures
        line_texts(r@) == tail_of(line_texts(lines@), max_lines as nat),
{
    let start: usize = if lines.len() <= max_lines {
        0
    } else {
        lines.len() - max_lines
    };
    let mut out: Vec<String> = Vec::new();
    let mut i: usize = start;
    while i < lines.len()
        invariant
            start <= i <= lines.len(),
            out.len() == i - start,
            forall|j: int| 0 <= j < out.len() ==> (#[trigger] out[j])@ == lines[start + j]@,
        decreases lines.len() - i,
    {
        out.push(lines[i].clone());
        i += 1;
    }
    assert(line_texts(out@) =~= tail_of(line_texts(lines@), max_lines as nat));
    out
}

/// What reading from the engine's output gave.
#[derive(Clone, Copy, PartialEq, Eq, Structural, Debug)]
pub enum PipeRead {
    /// The output has ended.
    Ended,
    /// Reading failed.
    Failed,
    /// Bytes arrived, and the guarded write of them to the log failed.
    WriteFailed,
    /// Bytes arrived, and the guarded write of them reported them as
    /// written: appended, or dropped by a stream that has stopped writing.
    Written,
}

/// What the task that drains the engine's output does next.
#[derive(Clone, Copy, PartialEq, Eq, Structural, Debug)]
pub enum PipeNext {
    /// End the task.
    Stop,
    /// Read on, after broadcasting the bytes as a log chunk where
    /// `broadcast` holds.
    ReadOn { broadcast: bool },
}

/// What the task that drains the engine's output does next. The bytes that
/// the log did not take, because writing has stopped, are broadcast all the
/// same.
pub open spec fn pipe_next(read: PipeRead, broadcast: bool) -> PipeNext {
    match read {
        PipeRead::Written => PipeNext::ReadOn { broadcast },
        _ => PipeNext::Stop,
    }
}

/// What the task that drains the engine's output does next.
pub fn spawn_log_pipe_task(read: PipeRead, broadcast: bool) -> (r: PipeNext)
    ensures
        r == pipe_next(read, broadcast),
{
    match read {
        PipeRead::Written => PipeNext::ReadOn { broadcast },
        _ => PipeNext::Stop,
    }
}

} // verus!
