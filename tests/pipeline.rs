use dataflow_channels::contracts::{ParallelizationContract, Pipeline};
use dataflow_channels::fabric::{Fabric, ThreadPuller, ThreadPusher, Worker};
use dataflow_channels::logged::{LogPuller, LogPusher};
use dataflow_channels::logging::{Logger, MessagesEvent};
use dataflow_channels::message::Message;

fn batch(time: u64, len: u64) -> Message<u64, u64> {
    Message::new(time, (0..len).collect())
}

#[test]
fn pipeline_single_worker_scenario() {
    let worker = Worker::new(0, 1);
    let mut fabric: Fabric<u64, u64> = Fabric::new(1, 1);
    let (mut pusher, mut puller) = Pipeline.connect(&worker, 0, &[0], Some(Logger::new()));
    for (time, len) in [(0, 2), (0, 3), (1, 1)] {
        let mut slot = Some(batch(time, len));
        pusher.push(&mut fabric, &mut slot);
        assert!(slot.is_none());
    }
    assert_eq!(fabric.pending(0, 0), 3);
    let mut seen = Vec::new();
    while let Some(m) = puller.pull(&mut fabric) {
        seen.push((m.time, m.data.len(), m.seq, m.from));
    }
    assert_eq!(seen, vec![(0, 2, 0, 0), (0, 3, 1, 0), (1, 1, 2, 0)]);
    let sent: Vec<(bool, usize, usize)> =
        pusher.logger().unwrap().events().iter().map(|e| (e.is_send, e.seq_no, e.length)).collect();
    assert_eq!(sent, vec![(true, 0, 2), (true, 1, 3), (true, 2, 1)]);
    let received: Vec<(bool, usize, usize)> =
        puller.logger().unwrap().events().iter().map(|e| (e.is_send, e.seq_no, e.length)).collect();
    assert_eq!(received, vec![(false, 0, 2), (false, 1, 3), (false, 2, 1)]);
}

#[test]
fn empty_slot_is_forwarded_untouched() {
    let mut fabric: Fabric<u64, u64> = Fabric::new(1, 1);
    let mut pusher = LogPusher::new(ThreadPusher { channel: 0, target: 0 }, 0, 0, 0, Some(Logger::new()));
    let mut slot: Option<Message<u64, u64>> = None;
    pusher.push(&mut fabric, &mut slot);
    assert!(slot.is_none());
    assert_eq!(fabric.pending(0, 0), 0);
    assert!(pusher.logger().unwrap().events().is_empty());
    let mut slot = Some(batch(4, 1));
    pusher.push(&mut fabric, &mut slot);
    let mut puller = LogPuller::new(ThreadPuller { channel: 0, index: 0 }, 0, 0, None);
    let m = puller.pull(&mut fabric).unwrap();
    assert_eq!(m.seq, 0);
}

#[test]
fn pull_on_empty_channel_gives_none() {
    let mut fabric: Fabric<u64, u64> = Fabric::new(2, 3);
    let mut puller = LogPuller::new(ThreadPuller { channel: 2, index: 1 }, 1, 2, Some(Logger::new()));
    assert!(puller.pull(&mut fabric).is_none());
    assert!(puller.logger().unwrap().events().is_empty());
}

#[test]
fn sender_stamps_its_own_worker_and_consecutive_numbers() {
    let mut fabric: Fabric<u64, u64> = Fabric::new(4, 2);
    let mut pusher = LogPusher::new(ThreadPusher { channel: 1, target: 2 }, 3, 2, 7, Some(Logger::new()));
    for i in 0..5 {
        let mut slot = Some(batch(i, 1));
        pusher.push(&mut fabric, &mut slot);
    }
    let mut puller = LogPuller::new(ThreadPuller { channel: 1, index: 2 }, 2, 7, Some(Logger::new()));
    for i in 0..5 {
        let m = puller.pull(&mut fabric).unwrap();
        assert_eq!(m.seq, i);
        assert_eq!(m.from, 3);
        assert_eq!(m.time, i as u64);
    }
    assert!(puller.pull(&mut fabric).is_none());
    let last = puller.logger().unwrap().events()[4];
    assert_eq!(
        last,
        MessagesEvent { is_send: false, channel: 7, source: 3, target: 2, seq_no: 4, length: 1 }
    );
    let first = pusher.logger().unwrap().events()[0];
    assert_eq!(
        first,
        MessagesEvent { is_send: true, channel: 7, source: 3, target: 2, seq_no: 0, length: 1 }
    );
}

#[test]
fn no_sink_means_no_trace() {
    let worker = Worker::new(1, 2);
    let mut fabric: Fabric<u64, u64> = Fabric::new(2, 1);
    let (mut pusher, mut puller) = Pipeline.connect(&worker, 0, &[], None);
    let mut slot = Some(batch(0, 2));
    pusher.push(&mut fabric, &mut slot);
    assert!(pusher.logger().is_none());
    assert_eq!(fabric.pending(0, 1), 1);
    assert_eq!(fabric.pending(0, 0), 0);
    let m = puller.pull(&mut fabric).unwrap();
    assert_eq!(m.from, 1);
    assert!(puller.logger().is_none());
}

#[test]
fn pulled_envelope_leaves_the_channel() {
    let worker = Worker::new(0, 1);
    let mut fabric: Fabric<u64, u64> = Fabric::new(1, 1);
    let (mut pusher, mut puller) = Pipeline.connect(&worker, 0, &[], None);
    let mut slot = Some(batch(9, 3));
    pusher.push(&mut fabric, &mut slot);
    let m = puller.pull(&mut fabric).unwrap();
    assert_eq!(m.data, vec![0, 1, 2]);
    assert_eq!(fabric.pending(0, 0), 0);
    assert!(puller.pull(&mut fabric).is_none());
}

#[test]
fn copied_sink_keeps_events() {
    let mut logger = Logger::new();
    let event = MessagesEvent { is_send: true, channel: 1, source: 2, target: 3, seq_no: 4, length: 5 };
    logger.log(event);
    let copy = logger.copied();
    assert_eq!(copy.events(), &vec![event]);
}

#[test]
fn message_len_counts_records() {
    let m: Message<u64, u64> = Message::new(2, vec![5, 6, 7, 8]);
    assert_eq!(m.len(), 4);
    assert_eq!(m.seq, 0);
    assert_eq!(m.from, 0);
}
