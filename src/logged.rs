//! Decorators around the raw endpoints of a channel: the send side stamps each
//! envelope with a sequence number and its source, and both sides trace what
//! passes through them.
use vstd::prelude::*;
use crate::fabric::{Fabric, ThreadPuller, ThreadPusher};
use crate::logging::{logged, Logger, MessagesEvent};
use crate::message::Message;

verus! {

/// The trace held by an optional sink.
pub open spec fn trace_of(logging: Option<Logger>) -> Option<Seq<MessagesEvent>> {
    match logging {
        Some(l) => Some(l@),
        None => None,
    }
}

/// A send end that stamps and traces every envelope it forwards.
pub struct LogPusher {
    pusher: ThreadPusher,
    channel: usize,
    counter: usize,
    source: usize,
    target: usize,
    logging: Option<Logger>,
}

impl LogPusher {
    /// The raw end that envelopes are forwarded to.
    pub closed spec fn dest(&self) -> ThreadPusher {
        self.pusher
    }

    /// The channel named in trace events.
    pub closed spec fn channel(&self) -> usize {
        self.channel
    }

    /// The number of envelopes sent so far: the sequence number of the next one.
    pub closed spec fn counter(&self) -> usize {
        self.counter
    }

    /// The worker that sends, stamped on every envelope as its provenance.
    pub closed spec fn source(&self) -> usize {
        self.source
    }

    /// The worker that receives, named in trace events.
    pub closed spec fn target(&self) -> usize {
        self.target
    }

    /// The events traced so far, or `None` where no sink was given.
    pub closed spec fn log(&self) -> Option<Seq<MessagesEvent>> {
        trace_of(self.logging)
    }

    /// The event traced when `m` is sent next.
    pub open spec fn send_event<T, D>(&self, m: Message<T, D>) -> MessagesEvent {
        MessagesEvent {
            is_send: true,
            channel: self.channel(),
            source: self.source(),
            target: self.target(),
            seq_no: self.counter(),
            length: m.data@.len() as usize,
        }
    }

    /// `other` has the labels and the raw end of `self`.
    pub open spec fn same_labels(&self, other: &Self) -> bool {
        &&& other.dest() == self.dest()
        &&& other.channel() == self.channel()
        &&& other.source() == self.source()
        &&& other.target() == self.target()
    }

    /// One push of `slot` takes this end from `self` to `after`, and the
    /// transport from `f0` to `f1`.
    pub open spec fn push_step<T, D>(
        &self,
        after: &Self,
        f0: &Fabric<T, D>,
        f1: &Fabric<T, D>,
        slot: Option<Message<T, D>>,
    ) -> bool {
        let c = self.dest().channel as int;
        let w = self.dest().target as int;
        &&& self.same_labels(after)
        &&& f0.same_except(f1, c, w)
        &&& match slot {
            Some(m) => {
                &&& after.counter() == self.counter() + 1
                &&& f1.queue(c, w) == f0.queue(c, w).push(
                    m.stamped(self.counter(), self.source()),
                )
                &&& after.log() == logged(self.log(), self.send_event(m))
            },
            None => {
                &&& after.counter() == self.counter()
                &&& f1.queue(c, w) == f0.queue(c, w)
                &&& after.log() == self.log()
            },
        }
    }

    /// A send end that forwards to `pusher`, labelled with the sending worker
    /// `source`, the receiving worker `target` and the channel `channel`; its
    /// sequence numbers start at 0.
    pub fn new(
        pusher: ThreadPusher,
        source: usize,
        target: usize,
        channel: usize,
        logging: Option<Logger>,
    ) -> (r: Self)
        ensures
            r.dest() == pusher,
            r.source() == source,
            r.target() == target,
            r.channel() == channel,
            r.counter() == 0,
            r.log() == trace_of(logging),
    {
        LogPusher { pusher, channel, counter: 0, source, target, logging }
    }

    /// Stamps the slot's envelope, if any, with the next sequence number and
    /// the source, traces it, and forwards the slot to the raw end, which takes
    /// the envelope. An empty slot is forwarded as it is.
    pub fn push<T, D>(&mut self, fabric: &mut Fabric<T, D>, slot: &mut Option<Message<T, D>>)
        requires
            old(fabric).wf(),
            old(fabric).holds(old(self).dest().channel as nat, old(self).dest().target as nat),
            old(slot).is_some() ==> old(self).counter() < usize::MAX,
        ensures
            old(self).push_step(final(self), old(fabric), final(fabric), *old(slot)),
            final(slot).is_none(),
    {
        match slot {
            Some(bundle) => {
                self.counter = self.counter + 1;
                bundle.seq = self.counter - 1;
                bundle.from = self.source;
                let event = MessagesEvent {
                    is_send: true,
                    channel: self.channel,
                    source: self.source,
                    target: self.target,
                    seq_no: self.counter - 1,
                    length: bundle.data.len(),
                };
                match &mut self.logging {
                    Some(logger) => logger.log(event),
                    None => {},
                }
            },
            None => {},
        }
        self.pusher.push(fabric, slot);
    }

    /// The sink of this end's trace, if it has one.
    pub fn logger(&self) -> (r: Option<&Logger>)
        ensures
            match r {
                Some(l) => self.log() == Some(l@),
                None => self.log().is_none(),
            },
    {
        self.logging.as_ref()
    }
}

/// A receive end that traces every envelope it hands out.
pub struct LogPuller {
    puller: ThreadPuller,
    channel: usize,
    index: usize,
    logging: Option<Logger>,
}

impl LogPuller {
    /// The raw end that envelopes are taken from.
    pub closed spec fn source_end(&self) -> ThreadPuller {
        self.puller
    }

    /// The channel named in trace events.
    pub closed spec fn channel(&self) -> usize {
        self.channel
    }

    /// The receiving worker, named in trace events.
    pub closed spec fn index(&self) -> usize {
        self.index
    }

    /// The events traced so far, or `None` where no sink was given.
    pub closed spec fn log(&self) -> Option<Seq<MessagesEvent>> {
        trace_of(self.logging)
    }

    /// The event traced when `m` is received.
    pub open spec fn recv_event<T, D>(&self, m: Message<T, D>) -> MessagesEvent {
        MessagesEvent {
            is_send: false,
            channel: self.channel(),
            source: m.from,
            target: self.index(),
            seq_no: m.seq,
            length: m.data@.len() as usize,
        }
    }

    /// One pull that returned `r` takes this end from `self` to `after`, and the
    /// transport from `f0` to `f1`.
    pub open spec fn pull_step<T, D>(
        &self,
        after: &Self,
        f0: &Fabric<T, D>,
        f1: &Fabric<T, D>,
        r: Option<Message<T, D>>,
    ) -> bool {
        let c = self.source_end().channel as int;
        let w = self.source_end().index as int;
        &&& after.source_end() == self.source_end()
        &&& after.channel() == self.channel()
        &&& after.index() == self.index()
        &&& f0.same_except(f1, c, w)
        &&& r.is_none() <==> f0.queue(c, w).len() == 0
        &&& match r {
            Some(m) => {
                &&& m == f0.queue(c, w)[0]
                &&& f1.queue(c, w) == f0.queue(c, w).drop_first()
                &&& f0.queue(c, w) == seq![m] + f1.queue(c, w)
                &&& after.log() == logged(self.log(), self.recv_event(m))
            },
            None => {
                &&& f1.queue(c, w) == f0.queue(c, w)
                &&& after.log() == self.log()
            },
        }
    }

    /// A receive end that takes from `puller`, labelled with the receiving
    /// worker `index` and the channel `channel`.
    pub fn new(puller: ThreadPuller, index: usize, channel: usize, logging: Option<Logger>) -> (r: Self)
        ensures
            r.source_end() == puller,
            r.index() == index,
            r.channel() == channel,
            r.log() == trace_of(logging),
    {
        LogPuller { puller, channel, index, logging }
    }

    /// Takes the oldest waiting envelope, traces it, and hands it to the caller,
    /// who owns it from then on; `None` when nothing is waiting.
    pub fn pull<T, D>(&mut self, fabric: &mut Fabric<T, D>) -> (r: Option<Message<T, D>>)
        requires
            old(fabric).wf(),
            old(fabric).holds(
                old(self).source_end().channel as nat,
                old(self).source_end().index as nat,
            ),
        ensures
            old(self).pull_step(final(self), old(fabric), final(fabric), r),
    {
        let result = self.puller.pull(fabric);
        match &result {
            Some(bundle) => {
                let event = MessagesEvent {
                    is_send: false,
                    channel: self.channel,
                    source: bundle.from,
                    target: self.index,
                    seq_no: bundle.seq,
                    length: bundle.data.len(),
                };
                match &mut self.logging {
                    Some(logger) => logger.log(event),
                    None => {},
                }
            },
            None => {},
        }
        result
    }

    /// The sink of this end's trace, if it has one.
    pub fn logger(&self) -> (r: Option<&Logger>)
        ensures
            match r {
                Some(l) => self.log() == Some(l@),
                None => self.log().is_none(),
            },
    {
        self.logging.as_ref()
    }
}

} // verus!
