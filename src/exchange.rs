//! The fan-out of an exchange: each batch is split by the key of its records, and
//! the records with key `k` go to worker `k % peers`, in the order they came.
use vstd::prelude::*;
use crate::fabric::{Fabric, ThreadPusher};
use crate::logged::LogPusher;
use crate::logging::logged;
use crate::message::Message;

verus! {

/// `f` can be called on every record and gives each record one key.
pub open spec fn key_fn<D, F: Fn(&D) -> u64>(f: F) -> bool {
    &&& forall|d: &D| #[trigger] call_requires(f, (d,))
    &&& forall|d: &D, k1: u64, k2: u64|
        #[trigger] call_ensures(f, (d,), k1) && #[trigger] call_ensures(f, (d,), k2) ==> k1 == k2
}

/// The key that `f` gives to `d`.
pub open spec fn key_of<D, F: Fn(&D) -> u64>(f: F, d: D) -> u64 {
    choose|k: u64| call_ensures(f, (&d,), k)
}

/// The worker among `peers` that record `d` goes to.
pub open spec fn destination<D, F: Fn(&D) -> u64>(f: F, d: D, peers: nat) -> nat {
    (key_of(f, d) as nat) % peers
}

/// The records of `data` that go to worker `w`, in their order in `data`.
pub open spec fn part<D, F: Fn(&D) -> u64>(f: F, data: Seq<D>, peers: nat, w: nat) -> Seq<D>
    decreases data.len(),
{
    if data.len() == 0 {
        Seq::empty()
    } else {
        let rest = part(f, data.drop_last(), peers, w);
        if destination(f, data.last(), peers) == w {
            rest.push(data.last())
        } else {
            rest
        }
    }
}

/// The total length of the parts for workers `0 .. n`.
pub open spec fn parts_len<D, F: Fn(&D) -> u64>(f: F, data: Seq<D>, peers: nat, n: nat) -> nat
    decreases n,
{
    if n == 0 {
        0
    } else {
        parts_len(f, data, peers, (n - 1) as nat) + part(f, data, peers, (n - 1) as nat).len()
    }
}

proof fn lemma_parts_len_push<D, F: Fn(&D) -> u64>(f: F, data: Seq<D>, x: D, peers: nat, n: nat)
    requires
        peers > 0,
    ensures
        parts_len(f, data.push(x), peers, n) == parts_len(f, data, peers, n) + if destination(
            f,
            x,
            peers,
        ) < n {
            1nat
        } else {
            0nat
        },
    decreases n,
{
    assert(data.push(x).drop_last() =~= data);
    if n > 0 {
        lemma_parts_len_push(f, data, x, peers, (n - 1) as nat);
    }
}

proof fn lemma_parts_len_empty<D, F: Fn(&D) -> u64>(f: F, data: Seq<D>, peers: nat, n: nat)
    requires
        data.len() == 0,
    ensures
        parts_len(f, data, peers, n) == 0,
    decreases n,
{
    if n > 0 {
        lemma_parts_len_empty(f, data, peers, (n - 1) as nat);
    }
}

/// A record's destination is one of the workers.
pub proof fn lemma_destination_bound<D, F: Fn(&D) -> u64>(f: F, d: D, peers: nat)
    requires
        peers > 0,
    ensures
        destination(f, d, peers) < peers,
{
    let k = key_of(f, d) as nat;
    assert(k % peers < peers) by (nonlinear_arith)
        requires
            peers > 0,
    ;
}

/// Every record goes to exactly one worker: the parts add up to the batch.
pub proof fn lemma_parts_len<D, F: Fn(&D) -> u64>(f: F, data: Seq<D>, peers: nat)
    requires
        peers > 0,
    ensures
        parts_len(f, data, peers, peers) == data.len(),
    decreases data.len(),
{
    if data.len() == 0 {
        lemma_parts_len_empty(f, data, peers, peers);
    } else {
        lemma_destination_bound(f, data.last(), peers);
        lemma_parts_len(f, data.drop_last(), peers);
        lemma_parts_len_push(f, data.drop_last(), data.last(), peers, peers);
        assert(data.drop_last().push(data.last()) =~= data);
    }
}

/// A record that the key function gives key `k` goes to worker `k % peers`,
/// however often it is keyed; and the records of a batch that go to worker `w`
/// are exactly those with that destination, in their order in the batch.
pub proof fn law_routing<D, F: Fn(&D) -> u64>(f: F, data: Seq<D>, peers: nat, w: nat, d: D, k: u64)
    requires
        key_fn::<D, F>(f),
        peers > 0,
        call_ensures(f, (&d,), k),
    ensures
        destination(f, d, peers) == k as nat % peers,
        part(f, data, peers, w) == data.filter(|x: D| destination(f, x, peers) == w),
{
    assert(call_ensures(f, (&d,), key_of(f, d)));
    lemma_part_filter(f, data, peers, w);
}

proof fn lemma_part_filter<D, F: Fn(&D) -> u64>(f: F, data: Seq<D>, peers: nat, w: nat)
    ensures
        part(f, data, peers, w) == data.filter(|x: D| destination(f, x, peers) == w),
    decreases data.len(),
{
    reveal(Seq::filter);
    if data.len() > 0 {
        lemma_part_filter(f, data.drop_last(), peers, w);
    }
}

/// The send side of an exchange: one stamping send end per destination worker,
/// and the function that gives each record its key.
pub struct ExchangePusher<F> {
    pushers: Vec<LogPusher>,
    hash_func: F,
}

impl<F> ExchangePusher<F> {
    /// The send ends, indexed by destination worker.
    pub closed spec fn pushers(&self) -> Seq<LogPusher> {
        self.pushers@
    }

    /// The function that gives each record its key.
    pub closed spec fn hash(&self) -> F {
        self.hash_func
    }

    /// The channel that all send ends write to.
    pub open spec fn channel(&self) -> nat {
        self.pushers()[0].dest().channel as nat
    }

    /// The send ends cover the workers of `fabric` in order, all on one channel
    /// of it, and the key function gives every record one key.
    pub open spec fn wired<T, D>(&self, fabric: &Fabric<T, D>) -> bool
        where F: Fn(&D) -> u64
    {
        &&& fabric.wf()
        &&& self.pushers().len() > 0
        &&& key_fn::<D, F>(self.hash())
        &&& self.pushers().len() == fabric.peers()
        &&& self.channel() < fabric.channel_count()
        &&& forall|w: int| 0 <= w < self.pushers().len() ==> #[trigger] self.pushers()[w].dest() == (
            ThreadPusher { channel: self.channel() as usize, target: w as usize })
    }

    /// A fan-out over `pushers`, indexed by destination worker, that keys records
    /// with `hash_func`.
    pub fn new(pushers: Vec<LogPusher>, hash_func: F) -> (r: Self)
        ensures
            r.pushers() == pushers@,
            r.hash() == hash_func,
    {
        ExchangePusher { pushers, hash_func }
    }

    /// After one push of envelope `m`, worker `w` has what `m` holds for it: where
    /// that is nothing, neither its queue nor its send end changed; else its queue
    /// gained one stamped envelope, at `m`'s time, with those records in order.
    pub open spec fn delivered<T, D>(
        &self,
        after: &Self,
        f0: &Fabric<T, D>,
        f1: &Fabric<T, D>,
        m: Message<T, D>,
        w: int,
    ) -> bool
        where F: Fn(&D) -> u64
    {
        let c = self.channel() as int;
        let p = part(self.hash(), m.data@, self.pushers().len() as nat, w as nat);
        let q0 = f0.queue(c, w);
        let q1 = f1.queue(c, w);
        let s0 = self.pushers()[w];
        let s1 = after.pushers()[w];
        &&& s0.same_labels(&s1)
        &&& if p.len() == 0 {
            &&& q1 == q0
            &&& s1.counter() == s0.counter()
            &&& s1.log() == s0.log()
        } else {
            &&& q1 == q0.push(q1.last())
            &&& q1.last().time == m.time
            &&& q1.last().data@ == p
            &&& q1.last().seq == s0.counter()
            &&& q1.last().from == s0.source()
            &&& s1.counter() == s0.counter() + 1
            &&& s1.log() == logged(s0.log(), s0.send_event(q1.last()))
        }
    }

    /// One push of `slot` takes the fan-out from `self` to `after`, and the
    /// transport from `f0` to `f1`: an envelope is split among the workers, and
    /// an empty slot changes nothing.
    pub open spec fn push_step<T, D>(
        &self,
        after: &Self,
        f0: &Fabric<T, D>,
        f1: &Fabric<T, D>,
        slot: Option<Message<T, D>>,
    ) -> bool
        where F: Fn(&D) -> u64
    {
        let c = self.channel() as int;
        &&& after.hash() == self.hash()
        &&& after.pushers().len() == self.pushers().len()
        &&& f1.wf()
        &&& f1.peers() == f0.peers()
        &&& f1.channel_count() == f0.channel_count()
        &&& forall|c2: int, w2: int|
            0 <= c2 < f0.channel_count() && 0 <= w2 < f0.peers() && c2 != c
                ==> #[trigger] f1.queue(c2, w2) == f0.queue(c2, w2)
        &&& match slot {
            Some(m) => forall|w: int| 0 <= w < self.pushers().len() ==> #[trigger] self.delivered(after, f0, f1, m, w),
            None => forall|w: int| 0 <= w < self.pushers().len() ==> {
                &&& #[trigger] f1.queue(c, w) == f0.queue(c, w)
                &&& self.pushers()[w].same_labels(&after.pushers()[w])
                &&& after.pushers()[w].counter() == self.pushers()[w].counter()
                &&& after.pushers()[w].log() == self.pushers()[w].log()
            },
        }
    }

    /// Splits the slot's envelope, if any, among the workers by the keys of its
    /// records, and sends each worker that gets records one envelope with them,
    /// at the same time; the slot is left empty. An empty slot is forwarded to
    /// every send end.
    pub fn push<T: Copy, D>(&mut self, fabric: &mut Fabric<T, D>, slot: &mut Option<Message<T, D>>)
        where F: Fn(&D) -> u64
        requires
            old(self).wired(old(fabric)),
            old(slot).is_some() ==> forall|w: int| 0 <= w < old(self).pushers().len()
                ==> #[trigger] old(self).pushers()[w].counter() < usize::MAX,
        ensures
            old(self).push_step(final(self), old(fabric), final(fabric), *old(slot)),
            final(self).wired(final(fabric)),
            final(slot).is_none(),
    {
        let peers = self.pushers.len();
        let ghost c = old(self).channel() as int;
        match slot.take() {
            Some(m) => {
                let time = m.time;
                let parts = self.partition(m.data, peers);
                let mut parts = parts;
                let mut w: usize = 0;
                while w < peers
                    invariant
                        w <= peers,
                        time == m.time,
                        c == old(self).channel() as int,
                        peers == self.pushers@.len(),
                        peers == old(self).pushers@.len(),
                        forall|v: int| 0 <= v < peers ==> #[trigger] old(self).pushers()[v].counter() < usize::MAX,
                        parts@.len() == peers - w,
                        forall|j: int| 0 <= j < parts@.len() ==> #[trigger] parts@[j]@ == part(self.hash(), m.data@, peers as nat, (w + j) as nat),
                        self.hash() == old(self).hash(),
                        self.channel() == c,
                        self.wired(fabric),
                        fabric.peers() == old(fabric).peers(),
                        fabric.channel_count() == old(fabric).channel_count(),
                        forall|c2: int, w2: int|
                            0 <= c2 < fabric.channel_count() && 0 <= w2 < fabric.peers() && c2 != c
                                ==> #[trigger] fabric.queue(c2, w2) == old(fabric).queue(c2, w2),
                        forall|v: int| 0 <= v < w ==> #[trigger] old(self).delivered(self, old(fabric), fabric, m, v),
                        forall|v: int| w <= v < peers ==> #[trigger] self.pushers@[v] == old(self).pushers@[v],
                        forall|v: int| w <= v < peers ==> #[trigger] fabric.queue(c, v) == old(fabric).queue(c, v),
                    decreases peers - w,
                {
                    let ghost f_before = *fabric;
                    let ghost s_before = *self;
                    let ghost parts_before = parts@;
                    let p = parts.remove(0);
                    proof {
                        assert(p@ == part(self.hash(), m.data@, peers as nat, w as nat));
                        assert(fabric.queue(c, w as int) == old(fabric).queue(c, w as int));
                        assert(self.pushers@[w as int] == old(self).pushers@[w as int]);
                        assert(old(self).pushers()[w as int].counter() < usize::MAX);
                    }
                    if p.len() > 0 {
                        let mut one = Some(Message::new(time, p));
                        self.pushers[w].push(fabric, &mut one);
                    }
                    proof {
                        assert forall|v: int| 0 <= v < w + 1 implies #[trigger] old(self).delivered(self, old(fabric), fabric, m, v) by {
                            if v < w {
                                assert(s_before.pushers@[v] == self.pushers@[v]);
                                assert(fabric.queue(c, v) == f_before.queue(c, v));
                                assert(old(self).delivered(&s_before, old(fabric), &f_before, m, v));
                            }
                        }
                        assert forall|v: int| w + 1 <= v < peers implies #[trigger] fabric.queue(c, v) == old(fabric).queue(c, v) by {
                            assert(fabric.queue(c, v) == f_before.queue(c, v));
                        }
                        assert forall|j: int| 0 <= j < parts@.len() implies #[trigger] parts@[j]@ == part(self.hash(), m.data@, peers as nat, (w + 1 + j) as nat) by {
                            assert(parts@[j] == parts_before[j + 1]);
                        }
                    }
                    w = w + 1;
                }
            },
            None => {
                let mut w: usize = 0;
                while w < peers
                    invariant
                        w <= peers,
                        peers == self.pushers@.len(),
                        peers == old(self).pushers@.len(),
                        self.hash() == old(self).hash(),
                        self.wired(fabric),
                        fabric.peers() == old(fabric).peers(),
                        fabric.channel_count() == old(fabric).channel_count(),
                        forall|c2: int, w2: int|
                            0 <= c2 < fabric.channel_count() && 0 <= w2 < fabric.peers()
                                ==> #[trigger] fabric.queue(c2, w2) == old(fabric).queue(c2, w2),
                        forall|v: int| 0 <= v < peers ==> old(self).pushers@[v].same_labels(&#[trigger] self.pushers@[v]),
                        forall|v: int| 0 <= v < peers ==> #[trigger] self.pushers@[v].counter() == old(self).pushers@[v].counter(),
                        forall|v: int| 0 <= v < peers ==> #[trigger] self.pushers@[v].log() == old(self).pushers@[v].log(),
                    decreases peers - w,
                {
                    let mut none: Option<Message<T, D>> = None;
                    self.pushers[w].push(fabric, &mut none);
                    w = w + 1;
                }
            },
        }
    }

    /// Splits `data` into one batch per worker: batch `w` holds the records
    /// whose key modulo `peers` is `w`, in their order in `data`.
    pub fn partition<D>(&self, data: Vec<D>, peers: usize) -> (r: Vec<Vec<D>>)
        where F: Fn(&D) -> u64
        requires
            peers > 0,
            key_fn::<D, F>(self.hash()),
        ensures
            r@.len() == peers,
            forall|w: int| 0 <= w < peers ==> #[trigger] r@[w]@ == part(self.hash(), data@, peers as nat, w as nat),
    {
        let ghost all = data@;
        let n = data.len();
        let mut data = data;
        let mut rev: Vec<D> = Vec::new();
        while data.len() > 0
            invariant
                data@ == all.take(data@.len() as int),
                rev@.len() + data@.len() == n,
                n == all.len(),
                forall|j: int| 0 <= j < rev@.len() ==> #[trigger] rev@[j] == all[n - 1 - j],
            decreases data@.len(),
        {
            let d = data.pop().unwrap();
            rev.push(d);
        }
        let mut parts: Vec<Vec<D>> = Vec::new();
        let mut w: usize = 0;
        while w < peers
            invariant
                w <= peers,
                parts@.len() == w,
                forall|j: int| 0 <= j < w ==> #[trigger] parts@[j]@.len() == 0,
            decreases peers - w,
        {
            parts.push(Vec::new());
            w = w + 1;
        }
        proof {
            assert forall|j: int| 0 <= j < peers implies #[trigger] parts@[j]@ == part(self.hash(), all.take(0), peers as nat, j as nat) by {
                assert(parts@[j]@ =~= Seq::<D>::empty());
            }
        }
        let mut i: usize = 0;
        while rev.len() > 0
            invariant
                i + rev@.len() == n,
                n == all.len(),
                peers > 0,
                key_fn::<D, F>(self.hash()),
                forall|j: int| 0 <= j < rev@.len() ==> #[trigger] rev@[j] == all[n - 1 - j],
                parts@.len() == peers,
                forall|v: int| 0 <= v < peers ==> #[trigger] parts@[v]@ == part(self.hash(), all.take(i as int), peers as nat, v as nat),
            decreases rev@.len(),
        {
            let d = rev.pop().unwrap();
            let key = (self.hash_func)(&d);
            let dest = (key % (peers as u64)) as usize;
            proof {
                assert(call_ensures(self.hash(), (&d,), key_of(self.hash(), d)));
                assert(key_of(self.hash(), d) == key);
                assert(all.take(i + 1).drop_last() =~= all.take(i as int));
            }
            parts[dest].push(d);
            i = i + 1;
            proof {
                assert forall|v: int| 0 <= v < peers implies #[trigger] parts@[v]@ == part(self.hash(), all.take(i as int), peers as nat, v as nat) by {
                }
            }
        }
        proof {
            assert(all.take(n as int) =~= all);
        }
        parts
    }
}

} // verus!
