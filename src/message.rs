//! The envelope in which a batch of records travels along a channel.
use vstd::prelude::*;

verus! {

/// A batch of records at one logical time, with the transport's metadata.
pub struct Message<T, D> {
    /// The logical time of every record in the batch.
    pub time: T,
    /// The records.
    pub data: Vec<D>,
    /// The sequence number that the sending endpoint stamped on the batch.
    pub seq: usize,
    /// The index of the worker that sent the batch.
    pub from: usize,
}

impl<T, D> Message<T, D> {
    /// A fresh envelope: sequence number and provenance are not stamped yet (both 0).
    pub fn new(time: T, data: Vec<D>) -> (r: Self)
        ensures
            r.time == time,
            r.data@ == data@,
            r.seq == 0,
            r.from == 0,
    {
        Message { time, data, seq: 0, from: 0 }
    }

    /// The number of records in the batch.
    pub fn len(&self) -> (r: usize)
        ensures
            r == self.data@.len(),
    {
        self.data.len()
    }

    /// The envelope as it leaves a send endpoint that stamps `seq` and `from`.
    pub open spec fn stamped(self, seq: usize, from: usize) -> Self {
        Message { seq, from, ..self }
    }
}

/// The number of records at time `t` over a sequence of envelopes.
pub open spec fn count_at<T, D>(msgs: Seq<Message<T, D>>, t: T) -> nat
    decreases msgs.len(),
{
    if msgs.len() == 0 {
        0
    } else {
        count_at(msgs.drop_last(), t) + if msgs.last().time == t {
            msgs.last().data@.len()
        } else {
            0
        }
    }
}

} // verus!
