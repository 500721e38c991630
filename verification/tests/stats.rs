use group_commit::collector::{render, Collector};
use group_commit::reporter::Reporter;
use group_commit::sample::{summarize, Packet, StatsError, Summary};
use std::time::Duration;

#[test]
fn three_samples_over_one_second() {
    let samples = vec![
        Packet::new(Duration::from_millis(100), 10),
        Packet::new(Duration::from_millis(200), 20),
        Packet::new(Duration::from_millis(300), 30),
    ];
    let summary = summarize(&samples, Duration::from_secs(1).as_nanos()).unwrap();
    assert_eq!(
        summary,
        Summary {
            samples: 3,
            total_nanos: 600_000_000,
            total_bytes: 60,
            mean_latency_nanos: 200_000_000,
            bytes_per_second: 60,
        }
    );
}

#[test]
fn samples_pushed_into_the_queue_are_summarised() {
    let (collector, q) = Collector::new();
    q.push(Packet::new(Duration::from_millis(100), 10));
    q.push(Packet::new(Duration::from_millis(200), 20));
    q.push(Packet::new(Duration::from_millis(300), 30));
    let summary = collector.summarize(Duration::from_secs(1)).unwrap();
    assert_eq!(summary.samples, 3);
    assert_eq!(summary.mean_latency_nanos, Duration::from_millis(200).as_nanos());
    assert_eq!(summary.bytes_per_second, 60);
}

#[test]
fn empty_queue_is_an_error() {
    let (collector, _q) = Collector::new();
    assert_eq!(collector.summarize(Duration::from_secs(1)), Err(StatsError::NoSamples));
}

#[test]
fn empty_sample_set_is_an_error() {
    assert_eq!(summarize(&Vec::new(), 1_000_000_000), Err(StatsError::NoSamples));
    assert_eq!(summarize(&Vec::new(), 0), Err(StatsError::NoSamples));
}

#[test]
fn empty_window_is_an_error() {
    let samples = vec![Packet::from_nanos(5, 1)];
    assert_eq!(summarize(&samples, 0), Err(StatsError::EmptyWindow));
}

#[test]
fn durations_beyond_128_bits_are_an_error() {
    let samples = vec![Packet::from_nanos(u128::MAX, 1), Packet::from_nanos(1, 1)];
    assert_eq!(summarize(&samples, 1), Err(StatsError::Overflow));
    let fits = vec![Packet::from_nanos(u128::MAX - 1, 1), Packet::from_nanos(1, 1)];
    assert_eq!(summarize(&fits, 1).unwrap().total_nanos, u128::MAX);
}

#[test]
fn mean_and_rate_round_down() {
    let samples = vec![Packet::from_nanos(1, 1), Packet::from_nanos(2, 1)];
    let summary = summarize(&samples, 3_000_000_000).unwrap();
    assert_eq!(summary.mean_latency_nanos, 1);
    assert_eq!(summary.total_bytes, 2);
    assert_eq!(summary.bytes_per_second, 0);
    let summary = summarize(&samples, 500_000_000).unwrap();
    assert_eq!(summary.bytes_per_second, 4);
}

#[test]
fn order_of_samples_is_irrelevant() {
    let a = vec![Packet::from_nanos(7, 3), Packet::from_nanos(11, 5), Packet::from_nanos(13, 8)];
    let b = vec![Packet::from_nanos(13, 8), Packet::from_nanos(7, 3), Packet::from_nanos(11, 5)];
    assert_eq!(summarize(&a, 1_000), summarize(&b, 1_000));
}

#[test]
fn packet_keeps_what_it_was_given() {
    let p = Packet::new(Duration::from_micros(3), 42);
    assert_eq!(p.time_nanos(), 3_000);
    assert_eq!(p.length(), 42);
    let q = Packet::from_nanos(17, 0);
    assert_eq!(q.time_nanos(), 17);
    assert_eq!(q.length(), 0);
}

#[test]
fn report_line_states_rate_and_latency() {
    let summary = Summary {
        samples: 3,
        total_nanos: 600_000_000,
        total_bytes: 60,
        mean_latency_nanos: 200_000_000,
        bytes_per_second: 60,
    };
    assert_eq!(render(&summary), "throughput=60 B/s, latency=200000000 ns");
}

#[test]
fn show_renders_the_drained_samples() {
    let (collector, q) = Collector::new();
    q.push(Packet::new(Duration::from_millis(100), 10));
    q.push(Packet::new(Duration::from_millis(300), 30));
    assert_eq!(
        collector.show(Duration::from_secs(2)),
        Ok(String::from("throughput=20 B/s, latency=200000000 ns"))
    );
}

#[test]
fn show_on_an_empty_queue_is_an_error() {
    let (collector, _q) = Collector::new();
    assert_eq!(collector.show(Duration::from_secs(1)), Err(StatsError::NoSamples));
}

#[test]
fn drain_empties_the_queue_oldest_first() {
    let (collector, q) = Collector::new();
    q.push(Packet::from_nanos(1, 10));
    q.push(Packet::from_nanos(2, 20));
    let drained = collector.drain();
    assert_eq!(drained.len(), 2);
    assert_eq!(drained[0].time_nanos(), 1);
    assert_eq!(drained[1].length(), 20);
    assert!(collector.drain().is_empty());
    assert!(q.is_empty());
}

#[test]
fn reporter_alternates_between_idle_and_timing() {
    let (collector, q) = Collector::new();
    let mut reporter = Reporter::new(q);
    assert!(!reporter.is_timing());
    reporter.start();
    assert!(reporter.is_timing());
    let sample = reporter.stop(7);
    assert!(!reporter.is_timing());
    assert_eq!(sample.length(), 7);
    reporter.start();
    let second = reporter.stop(9);
    let drained = collector.drain();
    assert_eq!(drained.len(), 2);
    assert_eq!(drained[0].length(), 7);
    assert_eq!(drained[0].time_nanos(), sample.time_nanos());
    assert_eq!(drained[1].length(), 9);
    assert_eq!(drained[1].time_nanos(), second.time_nanos());
}

#[test]
fn concurrent_pushes_are_all_drained() {
    let producers: usize = 8;
    let per_producer: usize = 500;
    let (collector, q) = Collector::new();
    crossbeam::scope(|scope| {
        for id in 0..producers {
            let q = q.clone();
            scope.spawn(move |_| {
                for i in 0..per_producer {
                    let tag = id * per_producer + i;
                    q.push(Packet::from_nanos(tag as u128, tag));
                }
            });
        }
    })
    .unwrap();
    let drained = collector.drain();
    assert_eq!(drained.len(), producers * per_producer);
    let mut seen = vec![false; producers * per_producer];
    for packet in &drained {
        assert_eq!(packet.time_nanos(), packet.length() as u128);
        assert!(!seen[packet.length()]);
        seen[packet.length()] = true;
    }
    assert!(seen.iter().all(|s| *s));
}

#[test]
fn report_line_renders_every_digit() {
    let summary = Summary {
        samples: 1,
        total_nanos: 0,
        total_bytes: 0,
        mean_latency_nanos: 0,
        bytes_per_second: u128::MAX,
    };
    assert_eq!(
        render(&summary),
        format!("throughput={} B/s, latency=0 ns", u128::MAX)
    );
    let summary = Summary { mean_latency_nanos: 1234567890, bytes_per_second: 9, ..summary };
    assert_eq!(render(&summary), "throughput=9 B/s, latency=1234567890 ns");
}
