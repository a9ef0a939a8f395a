//! The notification bus: every change of a task is announced on it, and any
//! number of observers may listen.
//!
//! Delivery is the channel's business and is not proved here. What is
//! proved is which events the engine hands to the channel, and in which
//! order: the bus keeps that sequence as ghost state, and only `publish`
//! extends it. Of the channel itself the contracts say what its source
//! shows of every call: the capacity it was made with, and that an observer
//! listens on the channel of the bus that it subscribed to.

use crate::models::{Task, TaskView};
use crate::runtime::{
    open_channel, publish, receiver_channel, sender_capacity, sender_channel, subscribe,
};
use vstd::prelude::*;

verus! {

/// How many events the channel keeps for an observer that falls behind.
/// Once an observer is further behind, the oldest events are dropped for
/// it; the publisher never waits.
pub const EVENT_CAPACITY: usize = 1000;

/// An event: the identifier of a task and the task as it was at that
/// moment.
pub type Event = (u128, TaskView);

/// The sending side of the event channel, with the record of what was
/// sent.
pub struct NotificationBus {
    sender: tokio::sync::broadcast::Sender<(u128, Task)>,
    announced: Ghost<Seq<Event>>,
}

/// The mathematical content of a bus.
pub struct BusView {
    /// All events handed to the channel so far, oldest first.
    pub announced: Seq<Event>,
    /// The channel that the bus sends on. It is the same for the whole life
    /// of the bus.
    pub channel: nat,
    /// The number of events that the channel was made to keep for an
    /// observer that falls behind.
    pub capacity: nat,
}

impl View for NotificationBus {
    type V = BusView;

    closed spec fn view(&self) -> BusView {
        BusView {
            announced: self.announced@,
            channel: sender_channel(self.sender),
            capacity: sender_capacity(self.sender),
        }
    }
}

impl NotificationBus {
    /// A bus on which nothing was announced yet and which nobody observes,
    /// on a channel made to keep `EVENT_CAPACITY` events.
    pub fn new() -> (bus: NotificationBus)
        ensures
            bus@.announced == Seq::<Event>::empty(),
            bus@.capacity == EVENT_CAPACITY,
    {
        NotificationBus { sender: open_channel(EVENT_CAPACITY), announced: Ghost(Seq::empty()) }
    }

    /// Hands the event `(id, task)` to the channel. With no observer the
    /// event is dropped; the call never waits for one.
    pub fn publish(&mut self, id: u128, task: Task)
        ensures
            final(self)@ == (BusView {
                announced: old(self)@.announced.push((id, task@)),
                ..old(self)@
            }),
    {
        self.announced = Ghost(self.announced@.push((id, task@)));
        publish(&self.sender, id, task);
    }

    /// A new observer of this bus's channel. It sees the events published
    /// from now on, none of the earlier ones.
    pub fn subscribe(&self) -> (receiver: tokio::sync::broadcast::Receiver<(u128, Task)>)
        ensures
            receiver_channel(receiver) == self@.channel,
    {
        subscribe(&self.sender)
    }
}

} // verus!
