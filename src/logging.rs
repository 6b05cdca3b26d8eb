//! Trace events for the movement of envelopes, and a sink that keeps them.
use vstd::prelude::*;

verus! {

/// One send or receive of an envelope on a channel.
#[derive(Clone, Copy, Debug, PartialEq, Eq, Structural)]
pub struct MessagesEvent {
    /// `true` for a send, `false` for a receive.
    pub is_send: bool,
    /// The channel's identifier.
    pub channel: usize,
    /// The sending worker.
    pub source: usize,
    /// The receiving worker.
    pub target: usize,
    /// The envelope's sequence number.
    pub seq_no: usize,
    /// The number of records in the envelope.
    pub length: usize,
}

/// A sink of trace events that keeps them in the order they were logged.
pub struct Logger {
    events: Vec<MessagesEvent>,
}

impl Logger {
    /// The events logged so far, oldest first.
    pub closed spec fn view(&self) -> Seq<MessagesEvent> {
        self.events@
    }

    /// A sink that holds no event.
    pub fn new() -> (r: Self)
        ensures
            r@ == Seq::<MessagesEvent>::empty(),
    {
        Logger { events: Vec::new() }
    }

    /// Records one event.
    pub fn log(&mut self, event: MessagesEvent)
        ensures
            final(self)@ == old(self)@.push(event),
    {
        self.events.push(event);
    }

    /// A second sink that starts with the events of this one.
    pub fn copied(&self) -> (r: Self)
        ensures
            r@ == self@,
    {
        let mut events: Vec<MessagesEvent> = Vec::new();
        let mut i: usize = 0;
        while i < self.events.len()
            invariant
                i <= self.events@.len(),
                events@ == self.events@.take(i as int),
            decreases self.events@.len() - i,
        {
            events.push(self.events[i]);
            i = i + 1;
            proof {
                assert(events@ =~= self.events@.take(i as int));
            }
        }
        proof {
            assert(self.events@.take(i as int) =~= self.events@);
        }
        Logger { events }
    }

    /// The events logged so far, oldest first.
    pub fn events(&self) -> (r: &Vec<MessagesEvent>)
        ensures
            r@ == self@,
    {
        &self.events
    }
}

/// A trace after `event` was offered to it: extended where a sink is present,
/// absent where none is.
pub open spec fn logged(log: Option<Seq<MessagesEvent>>, event: MessagesEvent) -> Option<Seq<MessagesEvent>> {
    match log {
        Some(events) => Some(events.push(event)),
        None => None,
    }
}

} // verus!
