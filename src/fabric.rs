//! The transport that the runtime hands out: per-channel, per-worker FIFO queues,
//! and the raw endpoints that write to and read from them.
use vstd::prelude::*;
use crate::message::Message;

verus! {

/// The in-process transport of all workers: for each channel, one inbound FIFO
/// queue per worker.
pub struct Fabric<T, D> {
    peers: usize,
    channels: Vec<Vec<Vec<Message<T, D>>>>,
}

impl<T, D> Fabric<T, D> {
    /// The number of workers.
    pub closed spec fn peers(&self) -> nat {
        self.peers as nat
    }

    /// The number of channels.
    pub closed spec fn channel_count(&self) -> nat {
        self.channels@.len()
    }

    /// The envelopes waiting for worker `w` on channel `c`, oldest first.
    pub closed spec fn queue(&self, c: int, w: int) -> Seq<Message<T, D>> {
        self.channels@[c]@[w]@
    }

    /// Every channel has one queue per worker, and there is at least one worker.
    pub closed spec fn wf(&self) -> bool {
        &&& self.peers > 0
        &&& forall|c: int| 0 <= c < self.channels@.len() ==> #[trigger] self.channels@[c]@.len()
            == self.peers
    }

    /// Whether endpoint address `(c, w)` names a queue of this transport.
    pub open spec fn holds(&self, c: nat, w: nat) -> bool {
        c < self.channel_count() && w < self.peers()
    }

    /// `other` has the shape of `self`, and the same queues but perhaps the one of `(c, w)`.
    pub open spec fn same_except(&self, other: &Self, c: int, w: int) -> bool {
        &&& other.wf()
        &&& other.peers() == self.peers()
        &&& other.channel_count() == self.channel_count()
        &&& forall|c2: int, w2: int|
            0 <= c2 < self.channel_count() && 0 <= w2 < self.peers() && (c2 != c || w2 != w)
                ==> #[trigger] other.queue(c2, w2) == self.queue(c2, w2)
    }

    /// A transport for `peers` workers with channels `0 .. channels`, all queues empty.
    pub fn new(peers: usize, channels: usize) -> (r: Self)
        requires
            peers > 0,
        ensures
            r.wf(),
            r.peers() == peers,
            r.channel_count() == channels,
            forall|c: int, w: int|
                0 <= c < channels && 0 <= w < peers ==> #[trigger] r.queue(c, w).len() == 0,
    {
        let mut all: Vec<Vec<Vec<Message<T, D>>>> = Vec::new();
        let mut c: usize = 0;
        while c < channels
            invariant
                c <= channels,
                all@.len() == c,
                forall|i: int| 0 <= i < c ==> #[trigger] all@[i]@.len() == peers,
                forall|i: int, w: int|
                    0 <= i < c && 0 <= w < peers ==> #[trigger] all@[i]@[w]@.len() == 0,
            decreases channels - c,
        {
            let mut queues: Vec<Vec<Message<T, D>>> = Vec::new();
            let mut w: usize = 0;
            while w < peers
                invariant
                    w <= peers,
                    queues@.len() == w,
                    forall|j: int| 0 <= j < w ==> #[trigger] queues@[j]@.len() == 0,
                decreases peers - w,
            {
                queues.push(Vec::new());
                w = w + 1;
            }
            all.push(queues);
            c = c + 1;
        }
        Fabric { peers, channels: all }
    }

    /// The number of workers.
    pub fn peer_count(&self) -> (r: usize)
        ensures
            r == self.peers(),
    {
        self.peers
    }

    /// The number of envelopes waiting for worker `w` on channel `c`.
    pub fn pending(&self, c: usize, w: usize) -> (r: usize)
        requires
            self.wf(),
            self.holds(c as nat, w as nat),
        ensures
            r == self.queue(c as int, w as int).len(),
    {
        self.channels[c][w].len()
    }

    /// Appends `m` to the queue of worker `w` on channel `c`.
    pub(crate) fn enqueue(&mut self, c: usize, w: usize, m: Message<T, D>)
        requires
            old(self).wf(),
            old(self).holds(c as nat, w as nat),
        ensures
            old(self).same_except(final(self), c as int, w as int),
            final(self).queue(c as int, w as int) == old(self).queue(c as int, w as int).push(m),
    {
        let mut queues: Vec<Vec<Message<T, D>>> = Vec::new();
        std::mem::swap(&mut self.channels[c], &mut queues);
        queues[w].push(m);
        self.channels[c] = queues;
    }

    /// Takes the oldest envelope from the queue of worker `w` on channel `c`.
    pub(crate) fn dequeue(&mut self, c: usize, w: usize) -> (r: Option<Message<T, D>>)
        requires
            old(self).wf(),
            old(self).holds(c as nat, w as nat),
        ensures
            old(self).same_except(final(self), c as int, w as int),
            old(self).queue(c as int, w as int).len() == 0 ==> r.is_none()
                && final(self).queue(c as int, w as int) == old(self).queue(c as int, w as int),
            old(self).queue(c as int, w as int).len() > 0 ==> r == Some(
                old(self).queue(c as int, w as int)[0],
            ) && final(self).queue(c as int, w as int) == old(self).queue(
                c as int,
                w as int,
            ).drop_first(),
    {
        if self.channels[c][w].len() == 0 {
            None
        } else {
            let mut queues: Vec<Vec<Message<T, D>>> = Vec::new();
            std::mem::swap(&mut self.channels[c], &mut queues);
            let m = queues[w].remove(0);
            self.channels[c] = queues;
            Some(m)
        }
    }
}

/// The runtime as one worker sees it: its own index among `peers` workers.
pub struct Worker {
    pub index: usize,
    pub peers: usize,
}

impl Worker {
    /// The worker's index names one of the workers.
    pub open spec fn wf(&self) -> bool {
        self.index < self.peers
    }

    /// The handle of worker `index` among `peers` workers.
    pub fn new(index: usize, peers: usize) -> (r: Self)
        requires
            index < peers,
        ensures
            r.index == index,
            r.peers == peers,
    {
        Worker { index, peers }
    }

    /// A channel that stays inside this worker: both ends address this worker's
    /// queue of channel `identifier`. This transport tells channels apart by
    /// identifier; `address` names the scope of the edge.
    pub fn pipeline(&self, identifier: usize, address: &[usize]) -> (r: (ThreadPusher, ThreadPuller))
        ensures
            r.0 == (ThreadPusher { channel: identifier, target: self.index }),
            r.1 == (ThreadPuller { channel: identifier, index: self.index }),
    {
        (ThreadPusher { channel: identifier, target: self.index }, ThreadPuller { channel: identifier, index: self.index })
    }

    /// A channel between all workers: one send end per destination worker, in the
    /// order of their indices, and the receive end of this worker.
    pub fn allocate(&self, identifier: usize, address: &[usize]) -> (r: (Vec<ThreadPusher>, ThreadPuller))
        ensures
            r.0@.len() == self.peers,
            forall|w: int| 0 <= w < self.peers ==> #[trigger] r.0@[w] == (ThreadPusher { channel: identifier, target: w as usize }),
            r.1 == (ThreadPuller { channel: identifier, index: self.index }),
    {
        let mut senders: Vec<ThreadPusher> = Vec::new();
        let mut w: usize = 0;
        while w < self.peers
            invariant
                w <= self.peers,
                senders@.len() == w,
                forall|j: int| 0 <= j < w ==> #[trigger] senders@[j] == (ThreadPusher { channel: identifier, target: j as usize }),
            decreases self.peers - w,
        {
            senders.push(ThreadPusher { channel: identifier, target: w });
            w = w + 1;
        }
        (senders, ThreadPuller { channel: identifier, index: self.index })
    }
}

/// The raw send end of a channel: it appends to the queue of worker `target` on
/// channel `channel`.
#[derive(Clone, Copy, Debug, PartialEq, Eq, Structural)]
pub struct ThreadPusher {
    pub channel: usize,
    pub target: usize,
}

impl ThreadPusher {
    /// Hands the slot's envelope, if any, to the transport, which takes it; the
    /// slot is left empty.
    pub fn push<T, D>(&mut self, fabric: &mut Fabric<T, D>, slot: &mut Option<Message<T, D>>)
        requires
            old(fabric).wf(),
            old(fabric).holds(old(self).channel as nat, old(self).target as nat),
        ensures
            *final(self) == *old(self),
            final(slot).is_none(),
            old(fabric).same_except(final(fabric), old(self).channel as int, old(self).target as int),
            final(fabric).queue(old(self).channel as int, old(self).target as int) == match *old(slot) {
                Some(m) => old(fabric).queue(old(self).channel as int, old(self).target as int).push(m),
                None => old(fabric).queue(old(self).channel as int, old(self).target as int),
            },
    {
        match slot.take() {
            Some(m) => fabric.enqueue(self.channel, self.target, m),
            None => {},
        }
    }
}

/// The raw receive end of a channel: it takes from the queue of worker `index` on
/// channel `channel`.
#[derive(Clone, Copy, Debug, PartialEq, Eq, Structural)]
pub struct ThreadPuller {
    pub channel: usize,
    pub index: usize,
}

impl ThreadPuller {
    /// Takes the oldest envelope waiting at this end, or `None` when there is none.
    pub fn pull<T, D>(&mut self, fabric: &mut Fabric<T, D>) -> (r: Option<Message<T, D>>)
        requires
            old(fabric).wf(),
            old(fabric).holds(old(self).channel as nat, old(self).index as nat),
        ensures
            *final(self) == *old(self),
            old(fabric).same_except(final(fabric), old(self).channel as int, old(self).index as int),
            old(fabric).queue(old(self).channel as int, old(self).index as int) == match r {
                Some(m) => seq![m] + final(fabric).queue(old(self).channel as int, old(self).index as int),
                None => final(fabric).queue(old(self).channel as int, old(self).index as int),
            },
            r matches Some(m) ==> m == old(fabric).queue(old(self).channel as int, old(self).index as int)[0]
                && final(fabric).queue(old(self).channel as int, old(self).index as int) == old(fabric).queue(
                old(self).channel as int,
                old(self).index as int,
            ).drop_first(),
            r.is_none() <==> old(fabric).queue(old(self).channel as int, old(self).index as int).len() == 0,
    {
        let r = fabric.dequeue(self.channel, self.index);
        proof {
            let q = old(fabric).queue(old(self).channel as int, old(self).index as int);
            if q.len() > 0 {
                assert(q == seq![q[0]] + q.drop_first());
            }
        }
        r
    }
}

} // verus!
