use dataflow_channels::contracts::{ExchangeCore, ParallelizationContract};
use dataflow_channels::fabric::{Fabric, Worker};
use dataflow_channels::logging::Logger;
use dataflow_channels::message::Message;

fn drain(fabric: &mut Fabric<u64, u64>, puller: &mut dataflow_channels::logged::LogPuller) -> Vec<Message<u64, u64>> {
    let mut out = Vec::new();
    while let Some(m) = puller.pull(fabric) {
        out.push(m);
    }
    out
}

#[test]
fn exchange_two_workers_scenario() {
    let mut fabric: Fabric<u64, u64> = Fabric::new(2, 1);
    let w0 = Worker::new(0, 2);
    let w1 = Worker::new(1, 2);
    let (mut pusher0, mut puller0) = ExchangeCore::new(|r: &u64| *r).connect(&w0, 0, &[], Some(Logger::new()));
    let (_pusher1, mut puller1) = ExchangeCore::new(|r: &u64| *r).connect(&w1, 0, &[], Some(Logger::new()));
    let mut slot = Some(Message::new(5, vec![0, 1, 2, 3]));
    pusher0.push(&mut fabric, &mut slot);
    assert!(slot.is_none());
    let at0 = drain(&mut fabric, &mut puller0);
    let at1 = drain(&mut fabric, &mut puller1);
    assert_eq!(at0.len(), 1);
    assert_eq!(at1.len(), 1);
    assert_eq!(at0[0].data, vec![0, 2]);
    assert_eq!(at1[0].data, vec![1, 3]);
    assert_eq!((at0[0].from, at1[0].from), (0, 0));
    assert_eq!((at0[0].time, at1[0].time), (5, 5));
    assert_eq!((at0[0].seq, at1[0].seq), (0, 0));
    let traced = puller1.logger().unwrap().events()[0];
    assert_eq!((traced.source, traced.target, traced.length), (0, 1, 2));
}

#[test]
fn exchange_routes_by_key_modulo_workers() {
    let mut fabric: Fabric<u64, u64> = Fabric::new(3, 2);
    let worker = Worker::new(2, 3);
    let (mut pusher, _puller) = ExchangeCore::new_core(|r: &u64| *r * 10).connect(&worker, 1, &[4, 2], None);
    let mut slot = Some(Message::new(0, vec![1, 2, 3, 4, 5, 6, 7]));
    pusher.push(&mut fabric, &mut slot);
    // keys 10, 20, ..., 70 modulo 3 are 1, 2, 0, 1, 2, 0, 1
    let mut per_worker = Vec::new();
    for w in 0..3 {
        let mut puller = dataflow_channels::logged::LogPuller::new(
            dataflow_channels::fabric::ThreadPuller { channel: 1, index: w },
            w,
            1,
            None,
        );
        let got = drain(&mut fabric, &mut puller);
        assert!(got.iter().all(|m| m.from == 2));
        per_worker.push(got.into_iter().flat_map(|m| m.data).collect::<Vec<u64>>());
    }
    assert_eq!(per_worker, vec![vec![3, 6], vec![1, 4, 7], vec![2, 5]]);
    assert_eq!(fabric.pending(0, 0) + fabric.pending(0, 1) + fabric.pending(0, 2), 0);
}

#[test]
fn exchange_keeps_record_count_per_time() {
    let mut fabric: Fabric<u64, u64> = Fabric::new(4, 1);
    let worker = Worker::new(1, 4);
    let (mut pusher, _puller) = ExchangeCore::new(|r: &u64| r.wrapping_mul(2654435761)).connect(&worker, 0, &[], None);
    let batches = [(0u64, 13u64), (1, 7), (0, 5)];
    for (time, len) in batches {
        let mut slot = Some(Message::new(time, (0..len).collect()));
        pusher.push(&mut fabric, &mut slot);
    }
    let mut at = [0usize; 2];
    for w in 0..4 {
        let mut puller = dataflow_channels::logged::LogPuller::new(
            dataflow_channels::fabric::ThreadPuller { channel: 0, index: w },
            w,
            0,
            None,
        );
        for m in drain(&mut fabric, &mut puller) {
            assert!(!m.data.is_empty());
            at[m.time as usize] += m.data.len();
        }
    }
    assert_eq!(at, [18, 7]);
}

#[test]
fn exchange_sends_nothing_to_workers_without_records() {
    let mut fabric: Fabric<u64, u64> = Fabric::new(2, 1);
    let worker = Worker::new(0, 2);
    let (mut pusher, _puller) = ExchangeCore::new(|_r: &u64| 0).connect(&worker, 0, &[], Some(Logger::new()));
    let mut slot = Some(Message::new(0, vec![8, 9]));
    pusher.push(&mut fabric, &mut slot);
    assert_eq!(fabric.pending(0, 0), 1);
    assert_eq!(fabric.pending(0, 1), 0);
    let mut empty: Option<Message<u64, u64>> = None;
    pusher.push(&mut fabric, &mut empty);
    assert_eq!(fabric.pending(0, 0), 1);
    assert_eq!(fabric.pending(0, 1), 0);
}

#[test]
fn exchange_empty_batch_sends_nothing() {
    let mut fabric: Fabric<u64, u64> = Fabric::new(2, 1);
    let worker = Worker::new(0, 2);
    let (mut pusher, _puller) = ExchangeCore::new(|r: &u64| *r).connect(&worker, 0, &[], None);
    let mut slot = Some(Message::new(0, Vec::new()));
    pusher.push(&mut fabric, &mut slot);
    assert!(slot.is_none());
    assert_eq!(fabric.pending(0, 0) + fabric.pending(0, 1), 0);
}

#[test]
fn partition_splits_in_order() {
    let worker = Worker::new(0, 2);
    let (pusher, _puller) = ExchangeCore::new(|r: &u64| *r + 1).connect(&worker, 0, &[], None);
    let parts = pusher.partition(vec![4, 5, 6, 7, 9], 2);
    assert_eq!(parts, vec![vec![5, 7, 9], vec![4, 6]]);
}

#[test]
fn allocate_gives_one_sender_per_worker() {
    let worker = Worker::new(1, 3);
    let (senders, receiver) = worker.allocate(6, &[1]);
    assert_eq!(senders.len(), 3);
    assert!(senders.iter().enumerate().all(|(i, s)| s.channel == 6 && s.target == i));
    assert_eq!((receiver.channel, receiver.index), (6, 1));
}
