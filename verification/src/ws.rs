//! The relay of events to a connected panel.

use vstd::prelude::*;
use crate::events::AppEvent;
use crate::events::CoreOperationState;
use crate::events::EventModel;
use crate::events::opt_operation;

verus! {

/// How many events wait for a slow listener before events are dropped for
/// it.
pub const EVENT_QUEUE_CAPACITY: usize = 128;

/// The models of a list of events.
pub open spec fn event_models(events: Seq<AppEvent>) -> Seq<EventModel> {
    Seq::new(events.len(), |i: int| events[i]@)
}

/// What a panel is sent when it connects: the engine's status, and the state
/// of the lifecycle operation where there is one.
pub fn events_ws(
    running: bool,
    pid: Option<u32>,
    operation: &Option<CoreOperationState>,
    timestamp: &str,
) -> (r: Vec<AppEvent>)
    ensures
        event_models(r@) == (match opt_operation(*operation) {
            Some(state) => seq![
                EventModel::CoreStatusChanged { running, pid, timestamp: timestamp@ },
                EventModel::CoreOperationUpdated { state },
            ],
            None => seq![EventModel::CoreStatusChanged { running, pid, timestamp: timestamp@ }],
        }),
{
    let mut out: Vec<AppEvent> = Vec::new();
    out.push(AppEvent::CoreStatusChanged { running, pid, timestamp: timestamp.to_owned() });
    match operation {
        Some(state) => {
            out.push(AppEvent::CoreOperationUpdated { state: state.copy() });
            assert(event_models(out@) =~= seq![
                EventModel::CoreStatusChanged { running, pid, timestamp: timestamp@ },
                EventModel::CoreOperationUpdated { state: state@ },
            ]);
        },
        None => {
            assert(event_models(out@) =~= seq![
                EventModel::CoreStatusChanged { running, pid, timestamp: timestamp@ },
            ]);
        },
    }
    out
}

/// What happened on a connection.
#[derive(Clone, Copy, PartialEq, Eq, Structural, Debug)]
pub enum SocketInput {
    /// The panel sent a frame that closes the connection, or the connection
    /// ended.
    Closed,
    /// The panel sent any other frame.
    Frame,
    /// Receiving from the panel failed.
    ReceiveFailed,
    /// An event arrived from the bus and was written as text.
    Event,
    /// An event arrived from the bus and could not be written as text.
    EventUnwritable,
    /// The listener fell behind and the bus dropped events for it.
    Lagged,
    /// The bus is closed.
    BusClosed,
    /// Sending to the panel failed.
    SendFailed,
}

/// What the relay does next.
#[derive(Clone, Copy, PartialEq, Eq, Structural, Debug)]
pub enum RelayAction {
    /// Go on waiting.
    Continue,
    /// Send the event to the panel.
    Send,
    /// End the session.
    End,
}

/// What the relay does next: frames of the panel are passed over, events are
/// sent on, an event that cannot be written is left out, events that were
/// dropped for a slow listener are done without, and the session ends where
/// the connection or the bus is closed or a transfer fails.
pub open spec fn relay(input: SocketInput) -> RelayAction {
    match input {
        SocketInput::Closed => RelayAction::End,
        SocketInput::Frame => RelayAction::Continue,
        SocketInput::ReceiveFailed => RelayAction::End,
        SocketInput::Event => RelayAction::Send,
        SocketInput::EventUnwritable => RelayAction::Continue,
        SocketInput::Lagged => RelayAction::Continue,
        SocketInput::BusClosed => RelayAction::End,
        SocketInput::SendFailed => RelayAction::End,
    }
}

/// What the relay does next.
pub fn handle_socket(input: SocketInput) -> (r: RelayAction)
    ensures
        r == relay(input),
{
    match input {
        SocketInput::Closed => RelayAction::End,
        SocketInput::Frame => RelayAction::Continue,
        SocketInput::ReceiveFailed => RelayAction::End,
        SocketInput::Event => RelayAction::Send,
        SocketInput::EventUnwritable => RelayAction::Continue,
        SocketInput::Lagged => RelayAction::Continue,
        SocketInput::BusClosed => RelayAction::End,
        SocketInput::SendFailed => RelayAction::End,
    }
}

} // verus!
