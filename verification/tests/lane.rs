use group_commit::collector::Collector;
use group_commit::lane::{lane_namespace, randbytes, Lane, LaneError};
use group_commit::reaper::Reaper;
use group_commit::reporter::Reporter;
use group_commit::request::{Verdict, WriteRequest};
use group_commit::store::{Fault, MemoryStore, Write};
use std::sync::Mutex;
use std::time::Duration;

#[test]
fn random_values_have_the_length_asked_for() {
    assert_eq!(randbytes(0).len(), 0);
    assert_eq!(randbytes(1).len(), 1);
    assert_eq!(randbytes(4096).len(), 4096);
}

#[test]
fn random_values_are_not_all_zero() {
    let bytes = randbytes(64);
    assert!(bytes.iter().any(|b| *b != 0));
    assert_ne!(randbytes(64), bytes);
}

#[test]
fn namespaces_are_named_by_the_lane_ordinal() {
    assert_eq!(lane_namespace(0), "id=0");
    assert_eq!(lane_namespace(9), "id=9");
    assert_eq!(lane_namespace(10), "id=10");
    assert_eq!(lane_namespace(17), "id=17");
    assert_eq!(lane_namespace(1_000_000), "id=1000000");
    assert_eq!(lane_namespace(usize::MAX), format!("id={}", usize::MAX));
    assert_ne!(lane_namespace(1), lane_namespace(11));
}

#[test]
fn no_two_lanes_share_a_namespace() {
    let names: Vec<String> = (0..200).map(lane_namespace).collect();
    for (i, a) in names.iter().enumerate() {
        for b in &names[i + 1..] {
            assert_ne!(a, b);
        }
    }
}

#[test]
fn a_lane_builds_requests_for_its_next_key() {
    let (_collector, q) = Collector::new();
    let (tx, _rx) = flume::unbounded();
    let lane = Lane::resume(4, 12, 3, tx, Reporter::new(q));
    assert_eq!(lane.next_key(), 12);
    assert!(lane.is_ready());
    let (req, _waiter) = lane.request(vec![1, 2, 3]);
    assert_eq!(req.namespace, "id=4");
    assert_eq!(req.key, 12);
    assert_eq!(req.value, vec![1, 2, 3]);
}

#[test]
fn lanes_and_batcher_lose_no_request() {
    let lanes: usize = 4;
    let per_lane: u64 = 50;
    let datalen: usize = 16;
    let (collector, q) = Collector::new();
    let (tx, rx) = flume::unbounded();
    let reaper = Reaper::new(rx);
    let store = Mutex::new(MemoryStore::new());
    let batches = Mutex::new(Vec::new());
    crossbeam::scope(|scope| {
        let committer = scope.spawn(|_| {
            let commit = |writes: Vec<Write>| {
                batches.lock().unwrap().push(writes.len());
                store.lock().unwrap().transact(writes)
            };
            reaper.run(&commit, u64::MAX)
        });
        let mut workers = Vec::new();
        for id in 0..lanes {
            let mut lane = Lane::new(id, datalen, tx.clone(), Reporter::new(q.clone()));
            workers.push(scope.spawn(move |_| {
                assert_eq!(lane.write_once(), Ok(()));
                assert_eq!(lane.next_key(), 1);
                assert_eq!(lane.run(per_lane - 1), Ok(()));
                lane.next_key()
            }));
        }
        drop(tx);
        for worker in workers {
            assert_eq!(worker.join().unwrap(), per_lane);
        }
        let tally = committer.join().unwrap();
        assert!(tally.closed);
        assert_eq!(tally.abandoned, 0);
        assert_eq!(tally.committed as usize, batches.lock().unwrap().len());
    })
    .unwrap();
    let batches = batches.into_inner().unwrap();
    assert_eq!(batches.iter().sum::<usize>(), lanes * per_lane as usize);
    assert!(batches.iter().all(|size| *size >= 1 && *size <= lanes));
    let store = store.into_inner().unwrap();
    assert_eq!(store.len(), lanes * per_lane as usize);
    for id in 0..lanes {
        for key in 0..per_lane {
            let value = store.get(&lane_namespace(id), key).unwrap();
            assert_eq!(value.len(), datalen);
        }
        assert!(store.get(&lane_namespace(id), per_lane).is_none());
    }
    let summary = collector.summarize(Duration::from_secs(1)).unwrap();
    assert_eq!(summary.samples, lanes * per_lane as usize);
    assert_eq!(summary.total_bytes, (lanes * per_lane as usize * datalen) as u128);
    assert_eq!(summary.bytes_per_second, summary.total_bytes);
}

#[test]
fn a_lane_without_a_batcher_fails_for_good() {
    let (_collector, q) = Collector::new();
    let (tx, rx) = flume::unbounded::<WriteRequest>();
    drop(rx);
    let mut lane = Lane::new(0, 8, tx, Reporter::new(q));
    assert_eq!(lane.write_once(), Err(LaneError::ChannelClosed));
    assert_eq!(lane.next_key(), 0);
    assert!(!lane.is_ready());
}

#[test]
fn a_dropped_request_is_a_lost_completion() {
    let (collector, q) = Collector::new();
    let (tx, rx) = flume::unbounded::<WriteRequest>();
    let mut lane = Lane::new(0, 8, tx, Reporter::new(q));
    crossbeam::scope(|scope| {
        scope.spawn(|_| {
            drop(rx.recv().unwrap());
        });
        assert_eq!(lane.write_once(), Err(LaneError::CompletionLost));
    })
    .unwrap();
    assert_eq!(lane.next_key(), 0);
    assert!(!lane.is_ready());
    assert!(collector.drain().is_empty());
}

#[test]
fn an_abandoned_batch_stops_the_lane() {
    let (collector, q) = Collector::new();
    let (tx, rx) = flume::unbounded();
    let reaper = Reaper::new(rx);
    let mut lane = Lane::new(2, 8, tx, Reporter::new(q));
    let mut store = MemoryStore::new();
    store.set_fault(Fault::AtCommit);
    crossbeam::scope(|scope| {
        scope.spawn(|_| {
            assert!(reaper.reap_into(&mut store).is_err());
        });
        assert_eq!(lane.write_once(), Err(LaneError::Abandoned));
    })
    .unwrap();
    assert_eq!(lane.next_key(), 0);
    assert!(!lane.is_ready());
    assert_eq!(store.len(), 0);
    assert!(collector.drain().is_empty());
}

#[test]
fn a_lane_that_has_used_every_key_stops() {
    let (_collector, q) = Collector::new();
    let (tx, rx) = flume::unbounded();
    let mut lane = Lane::resume(0, u64::MAX, 8, tx, Reporter::new(q));
    assert_eq!(lane.write_once(), Err(LaneError::KeysExhausted));
    assert_eq!(lane.next_key(), u64::MAX);
    assert!(lane.is_ready());
    assert!(rx.is_empty());
}

#[test]
fn a_resumed_lane_continues_behind_its_first_key() {
    let (collector, q) = Collector::new();
    let (tx, rx) = flume::unbounded();
    let reaper = Reaper::new(rx);
    let mut lane = Lane::resume(1, 40, 5, tx, Reporter::new(q));
    let mut store = MemoryStore::new();
    crossbeam::scope(|scope| {
        scope.spawn(|_| {
            assert_eq!(reaper.reap_into(&mut store).unwrap().size, 1);
            assert_eq!(reaper.reap_into(&mut store).unwrap().size, 1);
        });
        assert_eq!(lane.write_once(), Ok(()));
        assert_eq!(lane.write_once(), Ok(()));
    })
    .unwrap();
    assert_eq!(lane.next_key(), 42);
    assert_eq!(store.len(), 2);
    assert!(store.get(&lane_namespace(1), 40).is_some());
    assert!(store.get(&lane_namespace(1), 41).is_some());
    let samples = collector.drain();
    assert_eq!(samples.len(), 2);
    assert!(samples.iter().all(|s| s.length() == 5));
    let verdict = Verdict::Committed;
    assert_ne!(verdict, Verdict::Abandoned);
}

#[test]
fn a_run_stops_at_the_first_failure_and_keeps_its_progress() {
    let (collector, q) = Collector::new();
    let (tx, rx) = flume::unbounded();
    let reaper = Reaper::new(rx);
    let mut lane = Lane::new(0, 4, tx, Reporter::new(q));
    let mut store = MemoryStore::new();
    crossbeam::scope(|scope| {
        scope.spawn(|_| {
            assert!(reaper.reap_into(&mut store).is_ok());
            assert!(reaper.reap_into(&mut store).is_ok());
            store.set_fault(Fault::AtBegin);
            assert!(reaper.reap_into(&mut store).is_err());
        });
        assert_eq!(lane.run(5), Err(LaneError::Abandoned));
    })
    .unwrap();
    assert_eq!(lane.next_key(), 2);
    assert!(!lane.is_ready());
    assert_eq!(store.len(), 2);
    assert_eq!(collector.drain().len(), 2);
}

#[test]
fn a_run_of_no_round_trips_does_nothing() {
    let (_collector, q) = Collector::new();
    let (tx, rx) = flume::unbounded();
    let mut lane = Lane::new(0, 4, tx, Reporter::new(q));
    assert_eq!(lane.run(0), Ok(()));
    assert_eq!(lane.next_key(), 0);
    assert!(lane.is_ready());
    assert!(rx.is_empty());
}
