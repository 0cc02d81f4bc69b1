//! The event intake: a `crossbeam_channel` queue on which the interaction
//! surface reports what the user did. Only the report that a node was moved
//! matters to the graphs.

use vstd::prelude::*;
use crossbeam_channel::Receiver;
use crossbeam_channel::Sender;
use egui_graphs::events::Event;
use crate::values::Position;

verus! {

/// The receiving end of a `crossbeam_channel` queue.
#[verifier::external_type_specification]
#[verifier::external_body]
#[verifier::reject_recursive_types(T)]
pub struct ExReceiver<T>(Receiver<T>);

/// The sending end of a `crossbeam_channel` queue.
#[verifier::external_type_specification]
#[verifier::external_body]
#[verifier::reject_recursive_types(T)]
pub struct ExSender<T>(Sender<T>);

/// A report of the `egui_graphs` widget on what the user did.
#[verifier::external_type_specification]
#[verifier::external_body]
pub struct ExEvent(Event);

/// The user moved the display node `node_id` to `position`.
#[derive(Clone, Copy, Debug, PartialEq, Eq, Structural)]
pub struct NodeMoved {
    pub node_id: usize,
    pub position: Position,
}

/// A report taken from the queue.
#[derive(Clone, Copy, Debug, PartialEq, Eq, Structural)]
pub enum Incoming {
    /// A node was moved.
    NodeMoved(NodeMoved),
    /// Anything else; the graphs ignore it.
    Other,
}

/// `crossbeam_channel::unbounded`: the two ends of a new queue.
#[verifier::external_body]
pub(crate) fn open_channel() -> (ends: (Sender<Event>, Receiver<Event>)) {
    crossbeam_channel::unbounded()
}

/// `Receiver::len`: how many reports wait in the queue at this moment. Other
/// holders of the sending end may add to them at any time.
#[verifier::external_body]
pub(crate) fn pending(queue: &Receiver<Event>) -> (n: usize) {
    queue.len()
}

/// `Receiver::try_recv`: the next report, without waiting; `None` when the
/// queue is empty or closed. A report of a moved node is handed on with the
/// bit patterns of the two coordinates of its new place.
#[verifier::external_body]
pub(crate) fn try_receive(queue: &Receiver<Event>) -> (report: Option<Incoming>) {
    match queue.try_recv() {
        Ok(Event::NodeMove(moved)) => {
            let position = Position::from_bits(moved.new_pos[0].to_bits(), moved.new_pos[1].to_bits());
            Some(Incoming::NodeMoved(NodeMoved { node_id: moved.id, position }))
        },
        Ok(_) => Some(Incoming::Other),
        Err(_) => None,
    }
}

} // verus!
