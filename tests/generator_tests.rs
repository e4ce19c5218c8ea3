use dr_fifo::{PacketError, PacketGenerator};
use rand_distr::{Distribution, Poisson};

#[test]
fn zero_ports_fail_at_construction() {
    assert!(matches!(PacketGenerator::new(0, 4), Err(PacketError::InvalidParameter)));
    assert!(matches!(PacketGenerator::new(4, 0), Err(PacketError::InvalidParameter)));
    assert!(PacketGenerator::new(4, 4).is_ok());
}

#[test]
fn batch_is_capped_at_max_per_tick() {
    let mut g = PacketGenerator::new(4, 4).ok().unwrap();
    assert_eq!(g.max_per_tick(), 5);
    let prios = vec![0u32; 5];
    let batch = g.generate_packets(1_000, &prios, 0).ok().unwrap();
    assert_eq!(batch.len(), 5);
    assert_eq!(g.arrival_count(1_000), 5);
    assert_eq!(g.arrival_count(3), 3);
    let batch = g.generate_packets(2, &prios, 0).ok().unwrap();
    assert_eq!(batch.len(), 2);
}

#[test]
fn ids_start_at_zero_and_increase_across_calls() {
    let mut g = PacketGenerator::new(4, 4).ok().unwrap();
    let prios = vec![0u32; 5];
    let mut ids = Vec::new();
    for sample in [3u64, 0, 5, 9, 1] {
        for p in g.generate_packets(sample, &prios, 0).ok().unwrap() {
            ids.push(p.id);
        }
    }
    let expected: Vec<u64> = (0..14).collect();
    assert_eq!(ids, expected);
    assert_eq!(g.peek_next_id(), 14);
}

#[test]
fn packets_carry_given_priority_time_and_valid_fields() {
    let mut g = PacketGenerator::new(3, 2).ok().unwrap();
    let prios = vec![7u32, 8, 9, 10, 11];
    let mut lengths = Vec::new();
    for _ in 0..40 {
        let batch = g.generate_packets(5, &prios, 123).ok().unwrap();
        for (k, p) in batch.iter().enumerate() {
            assert_eq!(p.priority, prios[k]);
            assert_eq!(p.incoming_time, 123);
            assert!(p.incoming_source < 3);
            assert!(p.outgoing_source < 2);
            assert!(!p.data.is_empty() && p.data.len() <= 100);
            lengths.push(p.data.len());
        }
    }
    assert!(lengths.iter().any(|&l| l != lengths[0]));
}

#[test]
fn counter_overflow_is_reported_without_effect() {
    let mut g = PacketGenerator::new(4, 4).ok().unwrap().with_first_id(u64::MAX - 2);
    let prios = vec![0u32; 5];
    assert!(matches!(g.generate_packets(3, &prios, 0), Err(PacketError::CounterOverflow)));
    assert_eq!(g.peek_next_id(), u64::MAX - 2);
    let batch = g.generate_packets(2, &prios, 0).ok().unwrap();
    assert_eq!(batch[1].id, u64::MAX - 1);
    assert_eq!(g.peek_next_id(), u64::MAX);
}

#[test]
fn mean_batch_size_follows_the_arrival_rate() {
    let mut g = PacketGenerator::with_max_per_tick(4, 4, 5).ok().unwrap();
    let poisson = Poisson::new(2.0f64).unwrap();
    let mut rng = rand::thread_rng();
    let prios = vec![0u32; 5];
    let mut total = 0usize;
    for _ in 0..1000 {
        let sample = poisson.sample(&mut rng) as u64;
        total += g.generate_packets(sample, &prios, 0).ok().unwrap().len();
    }
    let mean = total as f64 / 1000.0;
    assert!((mean - 2.0).abs() <= 0.3, "mean {}", mean);
}

#[test]
fn same_seed_gives_same_packets() {
    let prios = vec![1u32, 2, 3, 4, 5];
    let mut a = PacketGenerator::new(4, 3).ok().unwrap().with_seed(99);
    let mut b = PacketGenerator::new(4, 3).ok().unwrap().with_seed(99);
    for _ in 0..10 {
        let x = a.generate_packets(5, &prios, 7).ok().unwrap();
        let y = b.generate_packets(5, &prios, 7).ok().unwrap();
        assert_eq!(x.len(), y.len());
        for (p, q) in x.iter().zip(y.iter()) {
            assert_eq!(p.id, q.id);
            assert_eq!(p.data, q.data);
            assert_eq!(p.incoming_source, q.incoming_source);
            assert_eq!(p.outgoing_source, q.outgoing_source);
        }
    }
}

#[test]
fn separate_generators_have_separate_id_sequences() {
    let prios = vec![0u32; 5];
    let mut a = PacketGenerator::new(4, 4).ok().unwrap();
    let mut b = PacketGenerator::new(4, 4).ok().unwrap();
    a.generate_packets(4, &prios, 0).ok().unwrap();
    let batch = b.generate_packets(2, &prios, 0).ok().unwrap();
    assert_eq!(batch[0].id, 0);
    assert_eq!(batch[1].id, 1);
    assert_eq!(a.peek_next_id(), 4);
}
