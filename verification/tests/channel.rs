use sensor_core::channel::Channel;
use sensor_core::channel::RecvOutcome;
use sensor_core::channel::SendOutcome;
use sensor_core::sensors::SensorData;

#[test]
fn third_send_on_full_capacity_two_suspends_and_recv_unblocks_it() {
    let mut ch: Channel<u32> = Channel::new(2);
    assert_eq!(ch.send(1), SendOutcome::Sent { wake_consumer: false });
    assert_eq!(ch.send(2), SendOutcome::Sent { wake_consumer: false });
    // the queue is full: the third send suspends the producer
    assert_eq!(ch.send(3), SendOutcome::Suspended);
    // one receive frees a slot, hands out the oldest item and wakes
    // exactly the one pending send
    match ch.recv() {
        RecvOutcome::Received { item, wake_producer } => {
            assert_eq!(item, 1);
            assert!(wake_producer);
        },
        RecvOutcome::Suspended => unreachable!(),
    }
    // FIFO order of all three items is preserved
    match ch.recv() {
        RecvOutcome::Received { item, wake_producer } => {
            assert_eq!(item, 2);
            assert!(!wake_producer);
        },
        RecvOutcome::Suspended => unreachable!(),
    }
    match ch.recv() {
        RecvOutcome::Received { item, wake_producer } => {
            assert_eq!(item, 3);
            assert!(!wake_producer);
        },
        RecvOutcome::Suspended => unreachable!(),
    }
    assert!(matches!(ch.recv(), RecvOutcome::Suspended));
}

#[test]
fn recv_on_empty_suspends_and_next_send_wakes_consumer() {
    let mut ch: Channel<u32> = Channel::new(2);
    assert!(matches!(ch.recv(), RecvOutcome::Suspended));
    // the consumer is parked; the next send must wake it
    assert_eq!(ch.send(10), SendOutcome::Sent { wake_consumer: true });
    match ch.recv() {
        RecvOutcome::Received { item, wake_producer } => {
            assert_eq!(item, 10);
            assert!(!wake_producer);
        },
        RecvOutcome::Suspended => unreachable!(),
    }
}

#[test]
fn capacity_one_alternates_send_and_recv() {
    let mut ch: Channel<u8> = Channel::new(1);
    assert_eq!(ch.send(7), SendOutcome::Sent { wake_consumer: false });
    assert_eq!(ch.send(8), SendOutcome::Suspended);
    match ch.recv() {
        RecvOutcome::Received { item, wake_producer } => {
            assert_eq!(item, 7);
            assert!(wake_producer);
        },
        RecvOutcome::Suspended => unreachable!(),
    }
    match ch.recv() {
        RecvOutcome::Received { item, wake_producer } => {
            assert_eq!(item, 8);
            assert!(!wake_producer);
        },
        RecvOutcome::Suspended => unreachable!(),
    }
}

#[test]
fn channel_carries_sensor_readings_in_order() {
    let mut ch: Channel<SensorData> = Channel::new(2);
    let a = SensorData { tmpr_raw: 0x1111, humi_raw: 0x2222 };
    let b = SensorData { tmpr_raw: 0x3333, humi_raw: 0x4444 };
    assert!(matches!(ch.send(a), SendOutcome::Sent { .. }));
    assert!(matches!(ch.send(b), SendOutcome::Sent { .. }));
    match ch.recv() {
        RecvOutcome::Received { item, .. } => assert_eq!(item, a),
        RecvOutcome::Suspended => unreachable!(),
    }
    match ch.recv() {
        RecvOutcome::Received { item, .. } => assert_eq!(item, b),
        RecvOutcome::Suspended => unreachable!(),
    }
}
