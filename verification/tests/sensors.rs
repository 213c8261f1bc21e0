use sensor_core::bus::BusError;
use sensor_core::bus::BusEvent;
use sensor_core::bus::SimBus;
use sensor_core::channel::Channel;
use sensor_core::channel::RecvOutcome;
use sensor_core::channel::SendOutcome;
use sensor_core::sched::Scheduler;
use sensor_core::sensors::sensor_task_step;
use sensor_core::utils::I2CWrapper;
use sensor_core::sensors::RETRY_PAUSE_TICKS;
use sensor_core::sensors::SensorData;
use sensor_core::sensors::Sht40Command;
use sensor_core::sensors::Sht40Error;
use sensor_core::sensors::be16;
use sensor_core::sensors::crc8;
use sensor_core::sensors::sht40_read_data;
use sensor_core::sensors::sht40_read_data_with_retry;
use sensor_core::sensors::sht40_sensor_data;
use sensor_core::sensors::sht40_verify_crc;

#[test]
fn crc8_known_answers() {
    // the sensor family's documented check value
    assert_eq!(crc8(&[0xBE, 0xEF]), 0x92);
    assert_eq!(crc8(&[0x62, 0x4C]), 0x4D);
    assert_eq!(crc8(&[0x66, 0x66]), 0x93);
    assert_eq!(crc8(&[]), 0xFF);
}

#[test]
fn verify_crc_accepts_correct_trailing_byte() {
    let r: Result<(), Sht40Error<BusError>> = sht40_verify_crc(&[0x62, 0x4C, 0x4D]);
    assert_eq!(r, Ok(()));
}

#[test]
fn verify_crc_rejects_incorrect_trailing_byte() {
    let r: Result<(), Sht40Error<BusError>> = sht40_verify_crc(&[0x62, 0x4C, 0x4E]);
    assert_eq!(r, Err(Sht40Error::CrcError));
}

#[test]
fn verify_crc_checks_every_group() {
    let good = [0x62, 0x4C, 0x4D, 0x62, 0x4C, 0x4D];
    assert_eq!(
        sht40_verify_crc::<BusError>(&good),
        Ok(())
    );
    let second_group_bad = [0x62, 0x4C, 0x4D, 0x62, 0x4C, 0x00];
    assert_eq!(
        sht40_verify_crc::<BusError>(&second_group_bad),
        Err(Sht40Error::CrcError)
    );
}

#[test]
fn crc_error_is_not_retried() {
    // a frame with a bad checksum followed by a perfectly good script:
    // the mismatch must surface at once, with no second read and no pause
    let bad = vec![0x62, 0x4C, 0x4E, 0x62, 0x4C, 0x4D];
    let good = vec![0x62, 0x4C, 0x4D, 0x62, 0x4C, 0x4D];
    let mut bus = SimBus::new(vec![Some(bad), Some(good)]);
    let r = sht40_read_data_with_retry(&mut bus, 0x44, 6);
    assert_eq!(r, Err(Sht40Error::CrcError));
    assert_eq!(bus.reads_consumed(), 1);
    assert_eq!(bus.events(), vec![BusEvent::Read { addr: 0x44, ok: true }]);
}

#[test]
fn bus_error_converts_into_transport_variant() {
    let e: Sht40Error<BusError> = Sht40Error::from(BusError::Nack);
    assert_eq!(e, Sht40Error::I2cError(BusError::Nack));
}

#[test]
fn command_bytes_are_fixed() {
    assert_eq!(Sht40Command::MeasureHighRepeatability.to_byte(), 0xFD);
    assert_eq!(Sht40Command::MeasureMediumRepeatability.to_byte(), 0xF6);
    assert_eq!(Sht40Command::MeasureLowRepeatability.to_byte(), 0xE0);
    assert_eq!(Sht40Command::ReadSerial.to_byte(), 0x89);
    assert_eq!(Sht40Command::SoftReset.to_byte(), 0x94);
}

#[test]
fn send_writes_one_command_byte() {
    let mut bus = SimBus::new(vec![]);
    let r = Sht40Command::SoftReset.send(&mut bus, 0x44);
    assert!(r.is_ok());
    assert_eq!(bus.events(), vec![BusEvent::Write { addr: 0x44, byte: 0x94 }]);
}

#[test]
fn be16_combines_big_endian_bytes() {
    assert_eq!(be16(0x66, 0x66), 0x6666);
    assert_eq!(be16(0x00, 0x01), 1);
    assert_eq!(be16(0xFF, 0xFF), 0xFFFF);
}

#[test]
fn single_read_reports_transport_error() {
    let mut bus = SimBus::new(vec![None]);
    let r = sht40_read_data(&mut bus, 0x44, 6);
    assert_eq!(r, Err(Sht40Error::I2cError(BusError::Nack)));
}

#[test]
fn two_nacks_then_good_frame_succeeds_on_third_attempt() {
    // the bus refuses the first two reads, then answers with a valid frame
    let frame = vec![0x66, 0x66, 0x93, 0x66, 0x66, 0x93];
    let mut bus = SimBus::new(vec![None, None, Some(frame)]);
    let r = sht40_sensor_data(&mut bus, 0x44);
    assert_eq!(r, Ok(SensorData { tmpr_raw: 0x6666, humi_raw: 0x6666 }));
    assert_eq!(bus.reads_consumed(), 3);
    assert_eq!(
        bus.events(),
        vec![
            BusEvent::Write { addr: 0x44, byte: 0xFD },
            BusEvent::Read { addr: 0x44, ok: false },
            BusEvent::Pause { ticks: RETRY_PAUSE_TICKS },
            BusEvent::Read { addr: 0x44, ok: false },
            BusEvent::Pause { ticks: RETRY_PAUSE_TICKS },
            BusEvent::Read { addr: 0x44, ok: true },
        ]
    );
}

#[test]
fn dead_bus_times_out_after_exactly_five_attempts() {
    // every read is refused: five attempts, a pause after each failure,
    // then the retry budget is exhausted
    let mut bus = SimBus::new(vec![None, None, None, None, None]);
    let r = sht40_read_data_with_retry(&mut bus, 0x44, 6);
    assert_eq!(r, Err(Sht40Error::TimeoutError));
    assert_eq!(bus.reads_consumed(), 5);
    let mut expected = Vec::new();
    for _ in 0..5 {
        expected.push(BusEvent::Read { addr: 0x44, ok: false });
        expected.push(BusEvent::Pause { ticks: RETRY_PAUSE_TICKS });
    }
    assert_eq!(bus.events(), expected);
}

#[test]
fn exhausted_script_also_counts_as_nack() {
    let mut bus = SimBus::new(vec![]);
    let r = sht40_read_data_with_retry(&mut bus, 0x44, 6);
    assert_eq!(r, Err(Sht40Error::TimeoutError));
    let reads = bus
        .events()
        .iter()
        .filter(|e| matches!(e, BusEvent::Read { .. }))
        .count();
    assert_eq!(reads, 5);
}

#[test]
fn sensor_task_step_publishes_reading_into_channel() {
    let frame = vec![0x66, 0x66, 0x93, 0x66, 0x66, 0x93];
    let bus = SimBus::new(vec![Some(frame), None]);
    let mut w = I2CWrapper::new(bus);
    let mut sched = Scheduler::new(vec![1, 2]);
    let mut ch: Channel<SensorData> = Channel::new(2);
    let r = sensor_task_step(&mut w, &mut sched, &mut ch, 0x44);
    assert_eq!(r, Ok(SendOutcome::Sent { wake_consumer: false }));
    match ch.recv() {
        RecvOutcome::Received { item, .. } => {
            assert_eq!(item, SensorData { tmpr_raw: 0x6666, humi_raw: 0x6666 });
        },
        RecvOutcome::Suspended => unreachable!(),
    }
    // a failed poll must leave the channel alone
    let r = sensor_task_step(&mut w, &mut sched, &mut ch, 0x44);
    assert!(r.is_err());
    assert!(matches!(ch.recv(), RecvOutcome::Suspended));
}

#[test]
fn sensor_data_failure_is_the_retry_failure() {
    let bad = vec![0x00, 0x00, 0x00, 0x00, 0x00, 0x00];
    let mut bus = SimBus::new(vec![Some(bad)]);
    let r = sht40_sensor_data(&mut bus, 0x44);
    assert_eq!(r, Err(Sht40Error::CrcError));
}
