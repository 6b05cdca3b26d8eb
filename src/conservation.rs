//! The number of records at each logical time is the same before and after a
//! channel: each send adds to the channel exactly the records it was handed, and
//! each receive takes from it exactly the records it hands out.
use vstd::prelude::*;
use crate::exchange::{lemma_parts_len, part, parts_len, ExchangePusher};
use crate::fabric::Fabric;
use crate::logged::{LogPuller, LogPusher};
use crate::message::{count_at, Message};

verus! {

/// The records at time `t` waiting on channel `c` for workers `0 .. n`.
pub open spec fn waiting_at<T, D>(f: Fabric<T, D>, c: int, t: T, n: nat) -> nat
    decreases n,
{
    if n == 0 {
        0
    } else {
        waiting_at(f, c, t, (n - 1) as nat) + count_at(f.queue(c, n - 1), t)
    }
}

/// The records at time `t` waiting on channel `c`, over all workers.
pub open spec fn in_flight<T, D>(f: Fabric<T, D>, c: int, t: T) -> nat {
    waiting_at(f, c, t, f.peers())
}

/// The records of `m` at time `t`: all of them or none.
pub open spec fn records_at<T, D>(m: Message<T, D>, t: T) -> nat {
    if m.time == t {
        m.data@.len()
    } else {
        0
    }
}

proof fn lemma_count_push<T, D>(q: Seq<Message<T, D>>, m: Message<T, D>, t: T)
    ensures
        count_at(q.push(m), t) == count_at(q, t) + records_at(m, t),
{
    assert(q.push(m).drop_last() =~= q);
}

proof fn lemma_count_prepend<T, D>(m: Message<T, D>, q: Seq<Message<T, D>>, t: T)
    ensures
        count_at(seq![m] + q, t) == count_at(q, t) + records_at(m, t),
    decreases q.len(),
{
    if q.len() == 0 {
        assert(seq![m] + q =~= seq![m]);
        assert(seq![m].drop_last() =~= Seq::<Message<T, D>>::empty());
        assert(count_at(Seq::<Message<T, D>>::empty(), t) == 0);
        assert(count_at(seq![m], t) == records_at(m, t));
    } else {
        lemma_count_prepend(m, q.drop_last(), t);
        assert((seq![m] + q).drop_last() =~= seq![m] + q.drop_last());
        assert((seq![m] + q).last() == q.last());
    }
}

/// Where only the queue of worker `w` changed, the sum over workers changes by
/// what that queue changed.
proof fn lemma_waiting_one<T, D>(f0: Fabric<T, D>, f1: Fabric<T, D>, c: int, w: int, t: T, n: nat)
    requires
        f0.same_except(&f1, c, w),
        0 <= c < f0.channel_count(),
        0 <= w < n <= f0.peers(),
    ensures
        waiting_at(f1, c, t, n) + count_at(f0.queue(c, w), t) == waiting_at(f0, c, t, n) + count_at(
            f1.queue(c, w),
            t,
        ),
    decreases n,
{
    if n - 1 > w {
        lemma_waiting_one(f0, f1, c, w, t, (n - 1) as nat);
        assert(f1.queue(c, n - 1) == f0.queue(c, n - 1));
    } else {
        lemma_waiting_same(f0, f1, c, t, w as nat);
    }
}

proof fn lemma_waiting_same<T, D>(f0: Fabric<T, D>, f1: Fabric<T, D>, c: int, t: T, n: nat)
    requires
        forall|v: int| 0 <= v < n ==> #[trigger] f1.queue(c, v) == f0.queue(c, v),
    ensures
        waiting_at(f1, c, t, n) == waiting_at(f0, c, t, n),
    decreases n,
{
    if n > 0 {
        lemma_waiting_same(f0, f1, c, t, (n - 1) as nat);
    }
}

/// A send through a stamping send end adds to its channel, at every time `t`,
/// exactly the records at `t` of the envelope it was handed.
pub proof fn law_send_conserves<T, D>(
    p0: LogPusher,
    p1: LogPusher,
    f0: Fabric<T, D>,
    f1: Fabric<T, D>,
    m: Message<T, D>,
    t: T,
)
    requires
        f0.wf(),
        f0.holds(p0.dest().channel as nat, p0.dest().target as nat),
        p0.push_step(&p1, &f0, &f1, Some(m)),
    ensures
        in_flight(f1, p0.dest().channel as int, t) == in_flight(f0, p0.dest().channel as int, t)
            + records_at(m, t),
{
    let c = p0.dest().channel as int;
    let w = p0.dest().target as int;
    lemma_count_push(f0.queue(c, w), m.stamped(p0.counter(), p0.source()), t);
    lemma_waiting_one(f0, f1, c, w, t, f0.peers());
}

/// A receive takes from its channel, at every time `t`, exactly the records at
/// `t` of the envelope it hands out, and nothing when it hands out none.
pub proof fn law_receive_conserves<T, D>(
    p0: LogPuller,
    p1: LogPuller,
    f0: Fabric<T, D>,
    f1: Fabric<T, D>,
    r: Option<Message<T, D>>,
    t: T,
)
    requires
        f0.wf(),
        f0.holds(p0.source_end().channel as nat, p0.source_end().index as nat),
        p0.pull_step(&p1, &f0, &f1, r),
    ensures
        in_flight(f0, p0.source_end().channel as int, t) == in_flight(f1, p0.source_end().channel as int, t)
            + match r {
            Some(m) => records_at(m, t),
            None => 0,
        },
{
    let c = p0.source_end().channel as int;
    let w = p0.source_end().index as int;
    if let Some(m) = r {
        lemma_count_prepend(m, f1.queue(c, w), t);
    }
    lemma_waiting_one(f0, f1, c, w, t, f0.peers());
}

proof fn lemma_exchange_waiting<T, D, F: Fn(&D) -> u64>(
    p0: ExchangePusher<F>,
    p1: ExchangePusher<F>,
    f0: Fabric<T, D>,
    f1: Fabric<T, D>,
    m: Message<T, D>,
    t: T,
    n: nat,
)
    requires
        p0.wired(&f0),
        p0.push_step(&p1, &f0, &f1, Some(m)),
        n <= f0.peers(),
    ensures
        waiting_at(f1, p0.channel() as int, t, n) == waiting_at(f0, p0.channel() as int, t, n) + if m.time
            == t {
            parts_len(p0.hash(), m.data@, f0.peers(), n)
        } else {
            0
        },
    decreases n,
{
    if n > 0 {
        let c = p0.channel() as int;
        let w = n - 1;
        lemma_exchange_waiting(p0, p1, f0, f1, m, t, (n - 1) as nat);
        assert(0 <= w < p0.pushers().len());
        let slot = Some(m);
        assert(slot->0 == m);
        assert(p0.delivered(&p1, &f0, &f1, slot->0, w));
        assert(p0.delivered(&p1, &f0, &f1, m, w));
        let q1 = f1.queue(c, w);
        if part(p0.hash(), m.data@, f0.peers(), w as nat).len() > 0 {
            lemma_count_push(f0.queue(c, w), q1.last(), t);
        }
    }
}

/// An exchange adds to its channel, at every time `t`, exactly the records at
/// `t` of the envelope it was handed, however they are split among the workers.
pub proof fn law_exchange_conserves<T, D, F: Fn(&D) -> u64>(
    p0: ExchangePusher<F>,
    p1: ExchangePusher<F>,
    f0: Fabric<T, D>,
    f1: Fabric<T, D>,
    m: Message<T, D>,
    t: T,
)
    requires
        p0.wired(&f0),
        p0.push_step(&p1, &f0, &f1, Some(m)),
    ensures
        in_flight(f1, p0.channel() as int, t) == in_flight(f0, p0.channel() as int, t) + records_at(m, t),
{
    lemma_exchange_waiting(p0, p1, f0, f1, m, t, f0.peers());
    lemma_parts_len(p0.hash(), m.data@, f0.peers());
}

} // verus!
