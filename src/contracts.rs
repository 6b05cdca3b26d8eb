//! Parallelization contracts: each one connects an edge of the dataflow graph by
//! a matched pair of a send end and a receive end.
use std::marker::PhantomData;
use vstd::prelude::*;
use crate::exchange::ExchangePusher;
use crate::fabric::{ThreadPuller, ThreadPusher, Worker};
use crate::logged::{trace_of, LogPuller, LogPusher};
use crate::logging::{Logger, MessagesEvent};

verus! {

/// A second copy of an optional sink, holding the same events.
fn copy_logging(logging: &Option<Logger>) -> (r: Option<Logger>)
    ensures
        trace_of(r) == trace_of(*logging),
{
    match logging {
        Some(l) => Some(l.copied()),
        None => None,
    }
}

/// Allocates the paired send and receive ends of an edge.
pub trait ParallelizationContract: Sized {
    /// The send end.
    type Pusher;
    /// The receive end.
    type Puller;

    /// `r` is the pair of ends of channel `identifier` for `worker`, whose
    /// traces start as `log`.
    spec fn connects(
        &self,
        worker: Worker,
        identifier: usize,
        log: Option<Seq<MessagesEvent>>,
        r: (Self::Pusher, Self::Puller),
    ) -> bool;

    /// The ends of channel `identifier` for `worker`, tracing into `logging`
    /// where a sink is given.
    fn connect(
        self,
        worker: &Worker,
        identifier: usize,
        address: &[usize],
        logging: Option<Logger>,
    ) -> (r: (Self::Pusher, Self::Puller))
        requires
            worker.wf(),
        ensures
            self.connects(*worker, identifier, trace_of(logging), r),
    ;
}

/// A direct connection: records stay on the worker that produced them.
#[derive(Debug)]
pub struct Pipeline;

impl ParallelizationContract for Pipeline {
    type Pusher = LogPusher;
    type Puller = LogPuller;

    /// Both ends address this worker's own queue of the channel, and both are
    /// labelled with this worker as source and target.
    open spec fn connects(
        &self,
        worker: Worker,
        identifier: usize,
        log: Option<Seq<MessagesEvent>>,
        r: (LogPusher, LogPuller),
    ) -> bool {
        &&& r.0.dest() == (ThreadPusher { channel: identifier, target: worker.index })
        &&& r.0.source() == worker.index
        &&& r.0.target() == worker.index
        &&& r.0.channel() == identifier
        &&& r.0.counter() == 0
        &&& r.0.log() == log
        &&& r.1.source_end() == (ThreadPuller { channel: identifier, index: worker.index })
        &&& r.1.index() == worker.index
        &&& r.1.channel() == identifier
        &&& r.1.log() == log
    }

    fn connect(
        self,
        worker: &Worker,
        identifier: usize,
        address: &[usize],
        logging: Option<Logger>,
    ) -> (r: (LogPusher, LogPuller))
    {
        let (pusher, puller) = worker.pipeline(identifier, address);
        let send_log = copy_logging(&logging);
        (
            LogPusher::new(pusher, worker.index, worker.index, identifier, send_log),
            LogPuller::new(puller, worker.index, identifier, logging),
        )
    }
}

/// An exchange between all workers of records `D`, by the key that `F` gives
/// each record.
pub struct ExchangeCore<D, F> {
    hash_func: F,
    phantom: PhantomData<D>,
}

impl<D, F> ExchangeCore<D, F> {
    /// The function that gives each record its key.
    pub closed spec fn hash(&self) -> F {
        self.hash_func
    }
}

impl<D, F: Fn(&D) -> u64> ExchangeCore<D, F> {
    /// An exchange that routes records by `func`.
    pub fn new_core(func: F) -> (r: Self)
        ensures
            r.hash() == func,
    {
        ExchangeCore { hash_func: func, phantom: PhantomData }
    }

    /// An exchange that routes records by `func`.
    pub fn new(func: F) -> (r: Self)
        ensures
            r.hash() == func,
    {
        Self::new_core(func)
    }
}

impl<D, F> ParallelizationContract for ExchangeCore<D, F> {
    type Pusher = ExchangePusher<F>;
    type Puller = LogPuller;

    /// One send end per destination worker `w`, labelled with this worker as
    /// source and `w` as target, behind a fan-out that keys records by the
    /// exchange's function; and this worker's receive end of the channel.
    open spec fn connects(
        &self,
        worker: Worker,
        identifier: usize,
        log: Option<Seq<MessagesEvent>>,
        r: (ExchangePusher<F>, LogPuller),
    ) -> bool {
        &&& r.0.hash() == self.hash()
        &&& r.0.pushers().len() == worker.peers
        &&& forall|w: int|
            0 <= w < worker.peers ==> {
                &&& (#[trigger] r.0.pushers()[w]).dest() == (ThreadPusher { channel: identifier, target: w as usize })
                &&& r.0.pushers()[w].source() == worker.index
                &&& r.0.pushers()[w].target() == w
                &&& r.0.pushers()[w].channel() == identifier
                &&& r.0.pushers()[w].counter() == 0
                &&& r.0.pushers()[w].log() == log
            }
        &&& r.1.source_end() == (ThreadPuller { channel: identifier, index: worker.index })
        &&& r.1.index() == worker.index
        &&& r.1.channel() == identifier
        &&& r.1.log() == log
    }

    fn connect(
        self,
        worker: &Worker,
        identifier: usize,
        address: &[usize],
        logging: Option<Logger>,
    ) -> (r: (ExchangePusher<F>, LogPuller))
    {
        let (senders, receiver) = worker.allocate(identifier, address);
        let mut pushers: Vec<LogPusher> = Vec::new();
        let mut w: usize = 0;
        while w < senders.len()
            invariant
                senders@.len() == worker.peers,
                forall|v: int| 0 <= v < worker.peers ==> #[trigger] senders@[v] == (ThreadPusher { channel: identifier, target: v as usize }),
                w <= senders@.len(),
                pushers@.len() == w,
                forall|v: int|
                    0 <= v < w ==> {
                        &&& (#[trigger] pushers@[v]).dest() == (ThreadPusher { channel: identifier, target: v as usize })
                        &&& pushers@[v].source() == worker.index
                        &&& pushers@[v].target() == v
                        &&& pushers@[v].channel() == identifier
                        &&& pushers@[v].counter() == 0
                        &&& pushers@[v].log() == trace_of(logging)
                    },
            decreases senders@.len() - w,
        {
            pushers.push(LogPusher::new(senders[w], worker.index, w, identifier, copy_logging(&logging)));
            w = w + 1;
        }
        (ExchangePusher::new(pushers, self.hash_func), LogPuller::new(receiver, worker.index, identifier, logging))
    }
}

} // verus!
