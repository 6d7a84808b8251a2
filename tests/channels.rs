use lightyear_channels::channel::{
    ChannelDirection, ChannelHeader, ChannelKind, ChannelMode, ChannelOrdering, ChannelSettings,
};
use lightyear_channels::container::{ChannelContainer, ChannelReceiver, ChannelSender};
use lightyear_channels::error::ChannelError;
use lightyear_channels::receivers::{
    OrderedReliableReceiver, SequencedReliableReceiver, SequencedUnreliableReceiver,
    UnorderedReliableReceiver, UnorderedUnreliableReceiver,
};
use lightyear_channels::registry::{ChannelBuilder, ChannelRegistry};
use lightyear_channels::senders::{
    ReliableSender, SequencedUnreliableSender, UnorderedUnreliableSender,
};
use lightyear_channels::set::ChannelSet;
use lightyear_channels::sequence::{frame_with_id, next_id, sequence_greater_than, split_id};
use lightyear_channels::settings::ReliableSettings;

fn framed(id: u16, body: &[u8]) -> Vec<u8> {
    frame_with_id(id, body)
}

fn reliable_settings(mode: fn(ReliableSettings) -> ChannelMode) -> ChannelSettings {
    ChannelSettings {
        mode: mode(ReliableSettings::default()),
        direction: ChannelDirection::Bidirectional,
    }
}

#[test]
fn unreliable_pass_through() {
    let mut c = ChannelContainer::new(ChannelSettings::default());
    let payloads: Vec<Vec<u8>> = vec![vec![1, 2, 3], vec![], vec![9; 40]];
    for p in &payloads {
        assert_eq!(c.buffer_send(p.clone()), None);
    }
    let packets = c.send_packets(0, None);
    assert_eq!(packets, payloads);
    assert!(c.send_packets(1, None).is_empty());
    for p in packets {
        assert_eq!(c.receive_packet(p.clone()), Ok(()));
        let ready = c.read_messages();
        assert_eq!(ready, vec![p]);
    }
}

#[test]
fn unordered_unreliable_halves_alone() {
    let mut s = UnorderedUnreliableSender::new();
    s.enqueue(vec![4, 5]);
    let out = s.collect_packets_to_send();
    assert_eq!(out, vec![vec![4, 5]]);
    let mut r = UnorderedUnreliableReceiver::new();
    r.receive(out[0].clone());
    r.receive(out[0].clone());
    assert_eq!(r.read_messages(), vec![vec![4, 5], vec![4, 5]]);
    assert!(r.read_messages().is_empty());
}

#[test]
fn sequenced_monotonicity_example() {
    let mut r = SequencedUnreliableReceiver::new();
    for id in [5u16, 3, 7, 6] {
        assert_eq!(r.receive(&framed(id, &[id as u8])), Ok(()));
    }
    assert_eq!(r.read_messages(), vec![vec![5u8], vec![7u8]]);
}

#[test]
fn sequenced_sender_numbers_packets() {
    let mut s = SequencedUnreliableSender::new();
    s.enqueue(&[10]);
    s.enqueue(&[11]);
    let out = s.collect_packets_to_send();
    assert_eq!(out, vec![vec![0, 0, 10], vec![1, 0, 11]]);
    let mut r = SequencedUnreliableReceiver::new();
    assert_eq!(r.receive(&out[1]), Ok(()));
    assert_eq!(r.receive(&out[0]), Ok(()));
    assert_eq!(r.read_messages(), vec![vec![11u8]]);
}

#[test]
fn sequence_wraparound() {
    assert!(sequence_greater_than(0, 65535));
    assert!(!sequence_greater_than(65535, 0));
    assert!(sequence_greater_than(1, 0));
    assert!(!sequence_greater_than(7, 7));
    assert!(sequence_greater_than(32767, 0));
    assert!(!sequence_greater_than(32768, 0));
    assert_eq!(next_id(65535), 0);
    assert_eq!(next_id(41), 42);
    let mut r = SequencedUnreliableReceiver::new();
    assert_eq!(r.receive(&framed(65535, &[1])), Ok(()));
    assert_eq!(r.receive(&framed(0, &[2])), Ok(()));
    assert_eq!(r.receive(&framed(40000, &[3])), Ok(()));
    assert_eq!(r.read_messages(), vec![vec![1u8], vec![2u8]]);
}

#[test]
fn short_packet_is_decode_error() {
    let mut r = SequencedUnreliableReceiver::new();
    assert_eq!(r.receive(&[7]), Err(ChannelError::DecodeError));
    let mut o = OrderedReliableReceiver::new();
    assert_eq!(o.receive(&[]), Err(ChannelError::DecodeError));
    assert!(o.drain_acks().is_empty());
    let mut c = ChannelContainer::new(reliable_settings(ChannelMode::UnorderedReliable));
    assert_eq!(c.receive_packet(vec![1]), Err(ChannelError::DecodeError));
    assert!(c.read_messages().is_empty());
    assert_eq!(split_id(&[1]), None);
    assert_eq!(split_id(&[1, 2, 3]), Some((513, vec![3])));
}

#[test]
fn reliable_resend_after_timeout() {
    let mut s = ReliableSender::new(ReliableSettings::default());
    let id = s.enqueue(vec![42, 43]);
    assert_eq!(id, 1);
    let first = s.collect_packets_to_send(1000, Some(100));
    assert_eq!(first, vec![vec![1, 0, 42, 43]]);
    assert!(s.collect_packets_to_send(1100, Some(100)).is_empty());
    assert!(s.collect_packets_to_send(1149, Some(100)).is_empty());
    let second = s.collect_packets_to_send(1150, Some(100));
    assert_eq!(second, first);
    assert!(s.collect_packets_to_send(1200, Some(100)).is_empty());
    assert_eq!(s.collect_packets_to_send(1300, Some(100)), first);
}

#[test]
fn reliable_fallback_timeout_without_rtt() {
    let mut s = ReliableSender::new(ReliableSettings { rtt_resend_factor_milli: 2000 });
    s.enqueue(vec![1]);
    assert_eq!(s.collect_packets_to_send(0, None).len(), 1);
    assert!(s.collect_packets_to_send(199, None).is_empty());
    assert_eq!(s.collect_packets_to_send(200, None).len(), 1);
    assert!(s.collect_packets_to_send(299, Some(50)).is_empty());
    assert_eq!(s.collect_packets_to_send(300, Some(50)).len(), 1);
}

#[test]
fn ack_removes_in_flight_state() {
    let mut s = ReliableSender::new(ReliableSettings::default());
    let a = s.enqueue(vec![1]);
    let b = s.enqueue(vec![2]);
    assert_eq!((a, b), (1, 2));
    assert_eq!(s.collect_packets_to_send(0, Some(10)).len(), 2);
    s.acknowledge(a);
    assert_eq!(s.collect_packets_to_send(1000, Some(10)), vec![vec![2, 0, 2]]);
    s.acknowledge(a);
    s.acknowledge(999);
    assert_eq!(s.collect_packets_to_send(2000, Some(10)), vec![vec![2, 0, 2]]);
    s.acknowledge(b);
    assert!(s.collect_packets_to_send(3000, Some(10)).is_empty());
    assert!(s.collect_packets_to_send(90000, None).is_empty());
}

#[test]
fn ordered_reassembly() {
    let mut r = OrderedReliableReceiver::new();
    assert_eq!(r.receive(&framed(3, b"c")), Ok(()));
    assert!(r.read_messages().is_empty());
    assert_eq!(r.receive(&framed(1, b"a")), Ok(()));
    assert_eq!(r.receive(&framed(2, b"b")), Ok(()));
    assert_eq!(r.read_messages(), vec![b"a".to_vec(), b"b".to_vec(), b"c".to_vec()]);
    assert_eq!(r.drain_acks(), vec![3, 1, 2]);
    assert_eq!(r.receive(&framed(2, b"b")), Ok(()));
    assert!(r.read_messages().is_empty());
    assert!(r.drain_acks().is_empty());
}

#[test]
fn ordered_reassembly_through_container() {
    let mut tx = ChannelContainer::new(reliable_settings(ChannelMode::OrderedReliable));
    let mut rx = ChannelContainer::new(reliable_settings(ChannelMode::OrderedReliable));
    for p in [b"x".to_vec(), b"y".to_vec(), b"z".to_vec()] {
        assert!(tx.buffer_send(p).is_some());
    }
    let packets = tx.send_packets(0, Some(100));
    assert_eq!(packets.len(), 3);
    for i in [2usize, 0, 1] {
        assert_eq!(rx.receive_packet(packets[i].clone()), Ok(()));
    }
    assert_eq!(rx.read_messages(), vec![b"x".to_vec(), b"y".to_vec(), b"z".to_vec()]);
    for id in rx.drain_acks() {
        tx.receive_ack(id);
    }
    assert!(tx.send_packets(10000, Some(100)).is_empty());
}

#[test]
fn sequenced_reliable_newest_only_with_acks() {
    let mut r = SequencedReliableReceiver::new();
    assert_eq!(r.receive(&framed(2, b"two")), Ok(()));
    assert_eq!(r.receive(&framed(1, b"one")), Ok(()));
    assert_eq!(r.read_messages(), vec![b"two".to_vec()]);
    assert_eq!(r.drain_acks(), vec![2, 1]);
    assert!(r.drain_acks().is_empty());
}

#[test]
fn unordered_reliable_dedups_and_acks_all() {
    let mut r = UnorderedReliableReceiver::new();
    assert_eq!(r.receive(&framed(4, b"d")), Ok(()));
    assert_eq!(r.receive(&framed(2, b"b")), Ok(()));
    assert_eq!(r.receive(&framed(4, b"d")), Ok(()));
    assert_eq!(r.read_messages(), vec![b"d".to_vec(), b"b".to_vec()]);
    assert_eq!(r.drain_acks(), vec![4, 2, 4]);
}

#[test]
fn build_ordered_reliable_pairing() {
    let kind = ChannelKind::new(3);
    let mut registry = ChannelRegistry::new();
    let settings = reliable_settings(ChannelMode::OrderedReliable);
    assert_eq!(registry.register(kind, settings), Ok(()));
    let c = registry.build(kind).ok().unwrap();
    assert_eq!(c.setting, settings);
    match c.sender() {
        ChannelSender::Reliable(s) => assert_eq!(s.settings(), ReliableSettings::default()),
        _ => panic!("sender is not reliable"),
    }
    assert!(matches!(c.receiver(), ChannelReceiver::OrderedReliable(_)));
}

#[test]
fn container_pairs_by_mode() {
    let c = ChannelContainer::new(ChannelSettings {
        mode: ChannelMode::SequencedUnreliable,
        direction: ChannelDirection::ClientToServer,
    });
    assert!(matches!(c.sender(), ChannelSender::SequencedUnreliable(_)));
    assert!(matches!(c.receiver(), ChannelReceiver::SequencedUnreliable(_)));
    let c = reliable_settings(ChannelMode::SequencedReliable).build();
    assert!(matches!(c.sender(), ChannelSender::Reliable(_)));
    assert!(matches!(c.receiver(), ChannelReceiver::SequencedReliable(_)));
    let c = reliable_settings(ChannelMode::UnorderedReliable).build();
    assert!(matches!(c.receiver(), ChannelReceiver::UnorderedReliable(_)));
    let c = ChannelContainer::new(ChannelSettings::default());
    assert!(matches!(c.sender(), ChannelSender::UnorderedUnreliable(_)));
    assert!(matches!(c.receiver(), ChannelReceiver::UnorderedUnreliable(_)));
}

#[test]
fn registry_errors() {
    let mut registry = ChannelRegistry::new();
    let kind = ChannelKind::new(1);
    assert_eq!(registry.build(kind).err(), Some(ChannelError::UnknownChannelKind));
    assert_eq!(registry.register(kind, ChannelSettings::default()), Ok(()));
    assert_eq!(
        registry.register(kind, reliable_settings(ChannelMode::OrderedReliable)),
        Err(ChannelError::DuplicateChannelKind)
    );
    assert_eq!(registry.get(kind), Some(ChannelSettings::default()));
    assert_eq!(registry.get(ChannelKind::new(2)), None);
}

#[test]
fn header_round_trip() {
    let h = ChannelHeader { kind: ChannelKind::new(0x1234) };
    let packet = h.write(&[9, 8]);
    assert_eq!(packet, vec![0x34, 0x12, 9, 8]);
    let (h2, body) = ChannelHeader::read(&packet).ok().unwrap();
    assert_eq!(h2, h);
    assert_eq!(body, vec![9, 8]);
    assert_eq!(ChannelHeader::read(&[1]).err(), Some(ChannelError::DecodeError));
}

#[test]
fn defaults_and_accessors() {
    assert_eq!(ChannelKind::new(7).id(), 7);
    assert_eq!(ReliableSettings::default().rtt_resend_factor_milli, 1500);
    assert_eq!(ChannelMode::default(), ChannelMode::UnorderedUnreliable);
    assert_eq!(ChannelDirection::default(), ChannelDirection::Bidirectional);
    let m = ChannelMode::OrderedReliable(ReliableSettings::default());
    assert_eq!(m.ordering(), ChannelOrdering::Ordered);
    assert!(m.is_reliable());
    assert_eq!(ChannelMode::SequencedUnreliable.ordering(), ChannelOrdering::Sequenced);
    assert!(!ChannelMode::SequencedUnreliable.is_reliable());
}

#[test]
fn channel_set_routes_by_kind() {
    let mut set = ChannelSet::new();
    let ordered = ChannelKind::new(1);
    let plain = ChannelKind::new(2);
    assert_eq!(set.add(ordered, reliable_settings(ChannelMode::OrderedReliable)), Ok(()));
    assert_eq!(set.add(plain, ChannelSettings::default()), Ok(()));
    assert_eq!(
        set.add(plain, ChannelSettings::default()),
        Err(ChannelError::DuplicateChannelKind)
    );
    let h = ChannelHeader { kind: plain };
    assert_eq!(set.receive(&h.write(&[5, 6])), Ok(()));
    let h = ChannelHeader { kind: ordered };
    assert_eq!(set.receive(&h.write(&framed(2, b"late"))), Ok(()));
    assert_eq!(set.receive(&h.write(&[1])), Err(ChannelError::DecodeError));
    let unknown = ChannelHeader { kind: ChannelKind::new(9) };
    assert_eq!(set.receive(&unknown.write(&[1, 2, 3])), Err(ChannelError::UnknownChannelKind));
    assert_eq!(set.receive(&[0]), Err(ChannelError::DecodeError));
}
