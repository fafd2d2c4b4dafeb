use pqc_chat::udp_audio::{PacketSequencer, RealTimeAudioBuffer, HARD_CAP};

#[test]
fn buffer_evicts_stale_entries() {
    let mut b = RealTimeAudioBuffer::new(150);
    b.add_packet_at(1000, vec![1]);
    b.add_packet_at(1100, vec![2]);
    assert_eq!(b.len(), 2);
    assert_eq!(b.buffer_age_ms(), 100);
    // At 1200 the first packet is 200 ms old and goes.
    b.add_packet_at(1200, vec![3]);
    assert_eq!(b.len(), 2);
    assert_eq!(b.buffer_age_ms(), 100);
    assert_eq!(b.get_next_packet(), Some(vec![2]));
    assert_eq!(b.get_next_packet(), Some(vec![3]));
    assert_eq!(b.get_next_packet(), None);
    assert_eq!(b.buffer_age_ms(), 0);
}

#[test]
fn buffer_keeps_entry_exactly_at_age_limit() {
    let mut b = RealTimeAudioBuffer::new(150);
    b.add_packet_at(1000, vec![1]);
    b.add_packet_at(1150, vec![2]);
    assert_eq!(b.len(), 2);
    assert_eq!(b.buffer_age_ms(), 150);
}

#[test]
fn buffer_caps_length() {
    let mut b = RealTimeAudioBuffer::new(1_000_000);
    for i in 0..10u8 {
        b.add_packet_at(5000 + i as u64, vec![i]);
        assert!(b.len() <= HARD_CAP);
    }
    assert_eq!(b.len(), 5);
    assert_eq!(b.get_next_packet(), Some(vec![5]));
}

#[test]
fn steady_state_bounds_hold() {
    let mut b = RealTimeAudioBuffer::new(150);
    let mut now = 10_000u64;
    for i in 0..100u64 {
        now += (i * 37) % 90;
        b.add_packet_at(now, vec![i as u8]);
        assert!(b.buffer_age_ms() <= 150);
        assert!(b.len() <= HARD_CAP);
    }
}

#[test]
fn buffer_with_system_clock() {
    let mut b = RealTimeAudioBuffer::new(150);
    b.add_packet(vec![4, 2]);
    assert_eq!(b.len(), 1);
    assert_eq!(b.get_next_packet(), Some(vec![4, 2]));
}

#[test]
fn sequencer_numbers_packets() {
    let mut s = PacketSequencer::new("sess".to_string());
    let a = s.next_packet(10, vec![1]);
    let b = s.next_packet(20, vec![2]);
    assert_eq!((a.sequence, b.sequence), (0, 1));
    assert_eq!(a.session_id, "sess");
    assert_eq!(b.timestamp, 20);
    assert_eq!(b.audio_data, vec![2]);
}
