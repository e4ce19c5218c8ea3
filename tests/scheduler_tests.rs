use dr_fifo::{FifoScheduler, LatencyRecord, Packet, PacketError, PacketScheduler};

fn packet(id: u64, port: u32, arrival: u64) -> Packet {
    Packet {
        id,
        priority: 0,
        data: vec![1, 2, 3],
        incoming_source: port,
        outgoing_source: port,
        incoming_time: arrival,
    }
}

fn slot_id(s: &FifoScheduler, port: usize) -> Option<u64> {
    s.output_port(port).as_ref().map(|(p, _)| p.id)
}

#[test]
fn two_rounds_drain_port_zero_in_order() {
    let mut s = FifoScheduler::new();
    assert_eq!(s.ports(), 4);
    s.enqueue(packet(1, 0, 0));
    s.enqueue(packet(2, 0, 0));
    s.enqueue(packet(3, 0, 0));
    s.serve_packets(10);
    assert_eq!(slot_id(&s, 0), Some(1));
    assert_eq!(s.queued_ids(0), vec![2, 3]);
    s.serve_packets(20);
    assert_eq!(slot_id(&s, 0), Some(2));
    assert_eq!(s.queued_ids(0), vec![3]);
}

#[test]
fn single_packet_on_port_two_departs_on_port_two() {
    let mut s = FifoScheduler::new();
    s.enqueue(packet(42, 2, 5));
    let records = s.serve_packets(9);
    assert_eq!(records, vec![LatencyRecord { id: 42, latency: 4 }]);
    assert_eq!(slot_id(&s, 2), Some(42));
    assert_eq!(slot_id(&s, 0), None);
    assert_eq!(slot_id(&s, 1), None);
    assert_eq!(slot_id(&s, 3), None);
    assert_eq!(s.output_port(2).as_ref().map(|(_, t)| *t), Some(9));
}

#[test]
fn fifo_order_over_successive_rounds() {
    let mut s = FifoScheduler::new();
    s.enqueue(packet(7, 1, 0));
    s.enqueue(packet(8, 1, 0));
    s.enqueue(packet(9, 1, 0));
    let mut departed = Vec::new();
    for t in 1..=4u64 {
        for r in s.serve_packets(t) {
            departed.push(r.id);
        }
    }
    assert_eq!(departed, vec![7, 8, 9]);
}

#[test]
fn round_serves_at_most_one_per_port() {
    let mut s = FifoScheduler::new();
    for id in 0..12u64 {
        s.enqueue(packet(id, (id % 4) as u32, 0));
    }
    let records = s.serve_packets(1);
    assert_eq!(records.len(), 4);
    assert_eq!(s.served_packets_count(), 4);
    let ids: Vec<u64> = records.iter().map(|r| r.id).collect();
    assert_eq!(ids, vec![0, 1, 2, 3]);
    for port in 0..4 {
        assert_eq!(s.queued_ids(port).len(), 2);
    }
}

#[test]
fn latency_is_service_time_less_arrival() {
    let mut s = FifoScheduler::new();
    s.enqueue(packet(1, 0, 100));
    s.enqueue(packet(2, 3, 250));
    let records = s.serve_packets(1_000);
    assert_eq!(
        records,
        vec![
            LatencyRecord { id: 1, latency: 900 },
            LatencyRecord { id: 2, latency: 750 }
        ]
    );
}

#[test]
fn latency_of_packet_stamped_after_service_is_zero() {
    let mut s = FifoScheduler::new();
    s.enqueue(packet(5, 0, 50));
    let records = s.serve_packets(40);
    assert_eq!(records, vec![LatencyRecord { id: 5, latency: 0 }]);
}

#[test]
fn empty_round_records_nothing() {
    let mut s = FifoScheduler::new();
    let records = s.serve_packets(3);
    assert!(records.is_empty());
    assert_eq!(s.round(), 1);
    assert_eq!(s.served_packets_count(), 0);
    for port in 0..4 {
        assert_eq!(slot_id(&s, port), None);
        assert!(s.queued_ids(port).is_empty());
    }
}

#[test]
fn empty_round_keeps_previous_slot() {
    let mut s = FifoScheduler::new();
    s.enqueue(packet(11, 3, 0));
    s.serve_packets(1);
    assert!(s.serve_packets(2).is_empty());
    assert_eq!(slot_id(&s, 3), Some(11));
}

#[test]
fn zero_ports_is_invalid() {
    assert!(matches!(FifoScheduler::with_ports(0), Err(PacketError::InvalidParameter)));
    let s = FifoScheduler::with_ports(7).ok().unwrap();
    assert_eq!(s.ports(), 7);
}

#[test]
fn round_counter_advances_once_per_round() {
    let mut s = FifoScheduler::new();
    s.serve_packets(0);
    s.serve_packets(0);
    assert_eq!(s.round(), 2);
}

#[test]
fn trait_interface_drives_the_scheduler() {
    let mut s = FifoScheduler::new();
    PacketScheduler::enqueue(&mut s, packet(4, 1, 2));
    let records = s.serve_round(6);
    assert_eq!(records, vec![LatencyRecord { id: 4, latency: 4 }]);
}

#[test]
fn get_next_packet_takes_front_of_matching_queue() {
    let mut s = FifoScheduler::new();
    s.enqueue(packet(1, 2, 0));
    s.enqueue(packet(2, 2, 0));
    assert!(s.get_next_packet(0).is_none());
    assert_eq!(s.get_next_packet(2).map(|p| p.id), Some(1));
    assert_eq!(s.queued_ids(2), vec![2]);
}
