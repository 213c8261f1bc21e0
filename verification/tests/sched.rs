use sensor_core::bus::BusError;
use sensor_core::bus::BusEvent;
use sensor_core::bus::SimBus;
use sensor_core::sched::Scheduler;
use sensor_core::sched::SpawnError;
use sensor_core::sched::TaskState;
use sensor_core::sensors::SensorData;
use sensor_core::sensors::Sht40Error;
use sensor_core::sensors::sht40_sensor_data_shared;
use sensor_core::monotonic::Timer;
use sensor_core::timer_queue::TimerQueue;
use sensor_core::utils::AppTimer;
use sensor_core::utils::I2CWrapper;
use sensor_core::utils::Rp2040Timer;

#[test]
fn spawn_succeeds_exactly_once() {
    let mut s = Scheduler::new(vec![1, 2, 3]);
    assert_eq!(s.task_state(0), TaskState::NotStarted);
    assert_eq!(s.spawn(0), Ok(()));
    assert_eq!(s.task_state(0), TaskState::Ready);
    // a second spawn fails and the task set is unchanged
    assert_eq!(s.spawn(0), Err(SpawnError));
    assert_eq!(s.task_state(0), TaskState::Ready);
}

#[test]
fn dispatch_picks_highest_priority_ready_task() {
    let mut s = Scheduler::new(vec![1, 3, 2]);
    assert_eq!(s.next_runnable(), None);
    s.spawn(0).unwrap();
    s.spawn(1).unwrap();
    s.spawn(2).unwrap();
    assert_eq!(s.next_runnable(), Some(1));
    s.suspend(1);
    assert_eq!(s.next_runnable(), Some(2));
    s.wake(1);
    assert_eq!(s.next_runnable(), Some(1));
}

#[test]
fn dispatch_breaks_priority_ties_by_declaration_order() {
    let mut s = Scheduler::new(vec![2, 2]);
    s.spawn(0).unwrap();
    s.spawn(1).unwrap();
    assert_eq!(s.next_runnable(), Some(0));
}

#[test]
fn held_ceiling_masks_contending_tasks() {
    let mut s = Scheduler::new(vec![1, 2]);
    s.spawn(0).unwrap();
    s.spawn(1).unwrap();
    assert_eq!(s.next_runnable(), Some(1));
    // a critical section at ceiling 2 keeps both accessors unschedulable
    let saved = s.lock_raise(2);
    assert_eq!(s.current_priority(), 2);
    assert_eq!(s.next_runnable(), None);
    s.lock_restore(saved);
    assert_eq!(s.current_priority(), 0);
    assert_eq!(s.next_runnable(), Some(1));
}

#[test]
fn bus_wrapper_runs_transactions_in_critical_sections() {
    let frame = vec![0xAB, 0xCD];
    let bus = SimBus::new(vec![Some(frame.clone()), None]);
    let mut w = I2CWrapper::with_ceiling(bus, 3);
    let mut s = Scheduler::new(vec![1, 2]);
    assert_eq!(w.write(&mut s, 0x44, 0x89), Ok(()));
    // the execution priority is restored after every transaction
    assert_eq!(s.current_priority(), 0);
    assert_eq!(w.read(&mut s, 0x44), Ok(frame));
    assert_eq!(s.current_priority(), 0);
    assert_eq!(w.read(&mut s, 0x44), Err(BusError::Nack));
    assert_eq!(s.current_priority(), 0);
    let bus = w.into_inner();
    assert_eq!(
        bus.events(),
        vec![
            BusEvent::Write { addr: 0x44, byte: 0x89 },
            BusEvent::Read { addr: 0x44, ok: true },
            BusEvent::Read { addr: 0x44, ok: false },
        ]
    );
}

#[test]
fn app_timer_delay_goes_through_the_queue() {
    let mut t = Timer::start(2000, vec![]);
    let mut q = TimerQueue::new();
    let deadline = <Rp2040Timer as AppTimer>::delay(&mut q, &mut t, 300, 4);
    assert_eq!(deadline, 2300);
    assert_eq!(q.next_deadline(), Some(2300));
    let woken = q.drain_due(2300);
    assert_eq!(woken.len(), 1);
    assert_eq!(woken[0].waiter, 4);
}

#[test]
fn shared_bus_poll_retries_and_restores_priority() {
    let frame = vec![0x66, 0x66, 0x93, 0x66, 0x66, 0x93];
    let bus = SimBus::new(vec![None, Some(frame)]);
    let mut w = I2CWrapper::new(bus);
    let mut s = Scheduler::new(vec![1, 2]);
    let r: Result<SensorData, Sht40Error<BusError>> =
        sht40_sensor_data_shared(&mut w, &mut s, 0x44);
    assert_eq!(r, Ok(SensorData { tmpr_raw: 0x6666, humi_raw: 0x6666 }));
    assert_eq!(s.current_priority(), 0);
    let events = w.into_inner().events();
    assert_eq!(events.len(), 4);
    assert!(matches!(events[0], BusEvent::Write { addr: 0x44, byte: 0xFD }));
    assert!(matches!(events[1], BusEvent::Read { ok: false, .. }));
    assert!(matches!(events[2], BusEvent::Pause { .. }));
    assert!(matches!(events[3], BusEvent::Read { ok: true, .. }));
}
