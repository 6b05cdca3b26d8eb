//! Order and provenance along one channel: a send end stamps successive
//! envelopes with successive sequence numbers and its own worker, and a receive
//! end hands out what waits for it oldest first, each envelope once.
use vstd::prelude::*;
use crate::fabric::Fabric;
use crate::logged::{LogPuller, LogPusher};
use crate::message::Message;

verus! {

/// `msgs` as a send end stamps them when its counter starts at `first` and its
/// worker is `source`: the `i`-th gets sequence number `first + i`.
pub open spec fn stamped_run<T, D>(msgs: Seq<Message<T, D>>, first: int, source: usize) -> Seq<Message<T, D>> {
    Seq::new(msgs.len(), |i: int| msgs[i].stamped((first + i) as usize, source))
}

/// `ps`, `fs`: the states of a send end and of the transport around `n` pushes
/// of the envelopes `msgs`, none of the slots empty.
pub open spec fn push_run<T, D>(ps: Seq<LogPusher>, fs: Seq<Fabric<T, D>>, msgs: Seq<Message<T, D>>) -> bool {
    &&& ps.len() == msgs.len() + 1
    &&& fs.len() == msgs.len() + 1
    &&& forall|i: int| 0 <= i < msgs.len() ==> #[trigger] ps[i].push_step(&ps[i + 1], &fs[i], &fs[i + 1], Some(msgs[i]))
}

/// `ps`, `fs`: the states of a receive end and of the transport around pulls
/// that returned `rs`.
pub open spec fn pull_run<T, D>(ps: Seq<LogPuller>, fs: Seq<Fabric<T, D>>, rs: Seq<Option<Message<T, D>>>) -> bool {
    &&& ps.len() == rs.len() + 1
    &&& fs.len() == rs.len() + 1
    &&& forall|i: int| 0 <= i < rs.len() ==> #[trigger] ps[i].pull_step(&ps[i + 1], &fs[i], &fs[i + 1], rs[i])
}

proof fn lemma_push_prefix<T, D>(ps: Seq<LogPusher>, fs: Seq<Fabric<T, D>>, msgs: Seq<Message<T, D>>, k: int)
    requires
        push_run(ps, fs, msgs),
        0 <= k <= msgs.len(),
    ensures
        ps[0].same_labels(&ps[k]),
        ps[k].counter() == ps[0].counter() + k,
        fs[k].queue(ps[0].dest().channel as int, ps[0].dest().target as int) == fs[0].queue(
            ps[0].dest().channel as int,
            ps[0].dest().target as int,
        ) + stamped_run(msgs.take(k), ps[0].counter() as int, ps[0].source()),
    decreases k,
{
    let c = ps[0].dest().channel as int;
    let w = ps[0].dest().target as int;
    if k == 0 {
        assert(fs[0].queue(c, w) + stamped_run(msgs.take(0), ps[0].counter() as int, ps[0].source()) =~= fs[0].queue(c, w));
    } else {
        lemma_push_prefix(ps, fs, msgs, k - 1);
        let i = k - 1;
        assert(ps[i].push_step(&ps[i + 1], &fs[i], &fs[i + 1], Some(msgs[i])));
        assert(i + 1 == k);
        assert(fs[k].queue(c, w) =~= fs[0].queue(c, w) + stamped_run(msgs.take(k), ps[0].counter() as int, ps[0].source()));
    }
}

/// Successive sends through one send end stamp successive sequence numbers,
/// with no gap and no repeat, and the send end's worker as provenance; they
/// reach the queue in the order they were sent. From a fresh send end (counter
/// 0) the numbers are `0, 1, 2, ...`.
pub proof fn law_sends_stamp_in_order<T, D>(ps: Seq<LogPusher>, fs: Seq<Fabric<T, D>>, msgs: Seq<Message<T, D>>)
    requires
        push_run(ps, fs, msgs),
    ensures
        ps[msgs.len() as int].counter() == ps[0].counter() + msgs.len(),
        fs[msgs.len() as int].queue(ps[0].dest().channel as int, ps[0].dest().target as int) == fs[0].queue(
            ps[0].dest().channel as int,
            ps[0].dest().target as int,
        ) + stamped_run(msgs, ps[0].counter() as int, ps[0].source()),
        forall|i: int|
            0 <= i < msgs.len() ==> (#[trigger] stamped_run(msgs, ps[0].counter() as int, ps[0].source())[i]).seq
                == ps[0].counter() + i,
        forall|i: int|
            0 <= i < msgs.len() ==> (#[trigger] stamped_run(msgs, ps[0].counter() as int, ps[0].source())[i]).from
                == ps[0].source(),
{
    lemma_push_prefix(ps, fs, msgs, msgs.len() as int);
    assert(msgs.take(msgs.len() as int) =~= msgs);
    assert forall|i: int| 0 <= i < msgs.len() implies (#[trigger] stamped_run(msgs, ps[0].counter() as int, ps[0].source())[i]).seq
        == ps[0].counter() + i by {
        lemma_push_prefix(ps, fs, msgs, i + 1);
    }
}

proof fn lemma_pull_prefix<T, D>(ps: Seq<LogPuller>, fs: Seq<Fabric<T, D>>, rs: Seq<Option<Message<T, D>>>, k: int)
    requires
        pull_run(ps, fs, rs),
        rs.len() <= fs[0].queue(ps[0].source_end().channel as int, ps[0].source_end().index as int).len(),
        0 <= k <= rs.len(),
    ensures
        ps[k].source_end() == ps[0].source_end(),
        fs[k].queue(ps[0].source_end().channel as int, ps[0].source_end().index as int) == fs[0].queue(
            ps[0].source_end().channel as int,
            ps[0].source_end().index as int,
        ).skip(k),
        forall|j: int| 0 <= j < k ==> #[trigger] rs[j] == Some(fs[0].queue(
            ps[0].source_end().channel as int,
            ps[0].source_end().index as int,
        )[j]),
    decreases k,
{
    let c = ps[0].source_end().channel as int;
    let w = ps[0].source_end().index as int;
    let q = fs[0].queue(c, w);
    if k == 0 {
        assert(q.skip(0) =~= q);
    } else {
        lemma_pull_prefix(ps, fs, rs, k - 1);
        let i = k - 1;
        assert(ps[i].pull_step(&ps[i + 1], &fs[i], &fs[i + 1], rs[i]));
        assert(i + 1 == k);
        let m = rs[k - 1]->0;
        assert(q.skip(k - 1) =~= seq![q[k - 1]] + q.skip(k));
        assert(seq![m] + fs[k].queue(c, w) == q.skip(k - 1));
        assert((seq![m] + fs[k].queue(c, w))[0] == m);
        assert(fs[k].queue(c, w) =~= (seq![m] + fs[k].queue(c, w)).skip(1));
        assert(q.skip(k) =~= q.skip(k - 1).skip(1));
    }
}

/// Successive receives hand out the envelopes that waited at the receive end,
/// oldest first; each one handed out has left the queue, so no envelope is
/// handed out twice.
pub proof fn law_receives_in_order<T, D>(ps: Seq<LogPuller>, fs: Seq<Fabric<T, D>>, rs: Seq<Option<Message<T, D>>>)
    requires
        pull_run(ps, fs, rs),
        rs.len() <= fs[0].queue(ps[0].source_end().channel as int, ps[0].source_end().index as int).len(),
    ensures
        forall|j: int| 0 <= j < rs.len() ==> #[trigger] rs[j] == Some(fs[0].queue(
            ps[0].source_end().channel as int,
            ps[0].source_end().index as int,
        )[j]),
        fs[rs.len() as int].queue(ps[0].source_end().channel as int, ps[0].source_end().index as int) == fs[0].queue(
            ps[0].source_end().channel as int,
            ps[0].source_end().index as int,
        ).skip(rs.len() as int),
{
    lemma_pull_prefix(ps, fs, rs, rs.len() as int);
}

/// Through a pipeline, whose two ends address one queue, envelopes pushed one
/// after the other into an empty channel are received in the order they were
/// pushed, each stamped with its sequence number and with the sending worker.
pub proof fn law_pipeline_fifo<T, D>(
    ps: Seq<LogPusher>,
    fs: Seq<Fabric<T, D>>,
    msgs: Seq<Message<T, D>>,
    qs: Seq<LogPuller>,
    gs: Seq<Fabric<T, D>>,
    rs: Seq<Option<Message<T, D>>>,
)
    requires
        push_run(ps, fs, msgs),
        pull_run(qs, gs, rs),
        gs[0] == fs[msgs.len() as int],
        qs[0].source_end().channel == ps[0].dest().channel,
        qs[0].source_end().index == ps[0].dest().target,
        fs[0].queue(ps[0].dest().channel as int, ps[0].dest().target as int).len() == 0,
        rs.len() <= msgs.len(),
    ensures
        forall|j: int| 0 <= j < rs.len() ==> #[trigger] rs[j] == Some(msgs[j].stamped((ps[0].counter() + j) as usize, ps[0].source())),
{
    let c = ps[0].dest().channel as int;
    let w = ps[0].dest().target as int;
    law_sends_stamp_in_order(ps, fs, msgs);
    assert(fs[0].queue(c, w) + stamped_run(msgs, ps[0].counter() as int, ps[0].source()) =~= stamped_run(msgs, ps[0].counter() as int, ps[0].source()));
    law_receives_in_order(qs, gs, rs);
}

} // verus!
