//! Events for the fixed-rate schedule.
//!
//! A queue that is emptied at the end of every frame loses the events of a
//! frame in which no fixed step ran. Here the queue is emptied at the end of a
//! frame only if a fixed step has run since it was last emptied.

use vstd::prelude::*;

verus! {

/// Whether a fixed step has run since the queue was last emptied.
#[derive(Clone, Copy, Debug, PartialEq, Eq, Structural)]
pub struct EventClearFlag {
    clear: bool,
}

impl EventClearFlag {
    /// Whether the queue is to be emptied at the end of the frame.
    pub closed spec fn pending(&self) -> bool {
        self.clear
    }

    /// Whether the queue is to be emptied at the end of the frame.
    pub fn is_pending(&self) -> (pending: bool)
        ensures
            pending == self.pending(),
    {
        self.clear
    }

    /// Lowers the flag and says whether it was up.
    ///
    /// This is the whole of [`fixed_events_clear`] for a host that keeps the
    /// queue itself: it empties its queue when the answer is `true`.
    pub fn take(&mut self) -> (pending: bool)
        ensures
            pending == old(self).pending(),
            !final(self).pending(),
    {
        let pending = self.clear;
        self.clear = false;
        pending
    }
}

impl Default for EventClearFlag {
    fn default() -> (flag: EventClearFlag)
        ensures
            !flag.pending(),
    {
        EventClearFlag { clear: false }
    }
}

/// A queue of events of one type, oldest first.
pub struct Events<T> {
    queue: Vec<T>,
}

impl<T> View for Events<T> {
    type V = Seq<T>;

    closed spec fn view(&self) -> Seq<T> {
        self.queue@
    }
}

impl<T> Events<T> {
    /// An empty queue.
    pub fn new() -> (events: Events<T>)
        ensures
            events@ == Seq::<T>::empty(),
    {
        Events { queue: Vec::new() }
    }

    /// Puts `event` at the end of the queue.
    pub fn send(&mut self, event: T)
        ensures
            final(self)@ == old(self)@.push(event),
    {
        self.queue.push(event);
    }

    /// The number of events in the queue.
    pub fn len(&self) -> (n: usize)
        ensures
            n == self@.len(),
    {
        self.queue.len()
    }

    /// Whether the queue holds no event.
    pub fn is_empty(&self) -> (empty: bool)
        ensures
            empty == (self@.len() == 0),
    {
        self.queue.len() == 0
    }

    /// The event at place `index`, counted from the oldest; `None` past the
    /// end of the queue.
    pub fn get(&self, index: usize) -> (event: Option<&T>)
        ensures
            event == if index < self@.len() {
                Some(&self@[index as int])
            } else {
                None
            },
    {
        if index < self.queue.len() {
            Some(&self.queue[index])
        } else {
            None
        }
    }

    /// Empties the queue.
    pub fn clear(&mut self)
        ensures
            final(self)@ == Seq::<T>::empty(),
    {
        self.queue.clear();
    }
}

/// The queue at the end of a frame: empty if a fixed step has run since it
/// was last emptied, else as it is.
pub open spec fn queue_after_frame<T>(pending: bool, queue: Seq<T>) -> Seq<T> {
    if pending {
        Seq::empty()
    } else {
        queue
    }
}

/// The flag after `steps` fixed steps: up if it was up or a step has run.
pub open spec fn pending_after_steps(pending: bool, steps: nat) -> bool {
    pending || steps > 0
}

/// Marks that a fixed step has run.
///
/// Runs at the start of every fixed step, whether or not the queue holds
/// anything.
pub fn fixed_events_clear_flag(event_clear_flag: &mut EventClearFlag)
    ensures
        final(event_clear_flag).pending() == pending_after_steps(old(event_clear_flag).pending(), 1),
{
    event_clear_flag.clear = true;
}

/// Empties the queue if a fixed step has run since it was last emptied, and
/// lowers the flag.
///
/// Runs at the very end of every frame, after the fixed steps of the frame
/// and after every reader.
pub fn fixed_events_clear<T>(event_clear_flag: &mut EventClearFlag, fixed_events: &mut Events<T>)
    ensures
        !final(event_clear_flag).pending(),
        final(fixed_events)@ == queue_after_frame(
            old(event_clear_flag).pending(),
            old(fixed_events)@,
        ),
{
    if event_clear_flag.take() {
        fixed_events.clear();
    }
}

/// The window in which an event is seen. An event that is sent in a frame
/// before its fixed steps is in the queue during each of them, whatever came
/// before. If at least one fixed step runs in that frame, the queue is empty
/// when the frame has ended, so no fixed step of a later frame sees the
/// event again; if none runs and none is owed, the event stays for the frame
/// that follows.
pub proof fn law_event_window<T>(queue: Seq<T>, pending: bool, event: T, steps: nat)
    ensures
        queue.push(event).contains(event),
        steps > 0 ==> queue_after_frame(pending_after_steps(pending, steps), queue.push(event))
            == Seq::<T>::empty(),
        steps == 0 && !pending ==> queue_after_frame(
            pending_after_steps(pending, steps),
            queue.push(event),
        ) == queue.push(event),
{
    assert(queue.push(event)[queue.len() as int] == event);
}

} // verus!
