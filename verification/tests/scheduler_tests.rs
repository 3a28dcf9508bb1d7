use garden_butler::embedded::command::LayoutCommand;
use garden_butler::embedded::ValvePinNumber;
use garden_butler::schedule::configuration::{
    ScheduleConfig, WateringScheduleConfig, WateringScheduleConfigs,
};
use garden_butler::schedule::watering::{
    create_schedule, get_schedule_end_time, get_schedule_start_time, WateringScheduler,
};
use garden_butler::schedule::watering_task::TimeOfDay;

fn entry(valve: u8, sh: u8, sm: u8, eh: u8, em: u8, enabled: bool) -> WateringScheduleConfig {
    WateringScheduleConfig::new(ScheduleConfig::new(sh, sm, eh, em), valve, enabled)
}

#[test]
fn start_then_stop_leaves_identity_inactive() {
    let mut scheduler = WateringScheduler::new();
    let e = entry(5, 8, 0, 8, 10, true);
    let token = scheduler.start_schedule(&e).unwrap();
    assert!(scheduler.is_active(&e));
    let stopped = scheduler.stop_schedule(&e).unwrap();
    assert_eq!(stopped, token);
    assert!(!scheduler.is_active(&e));
}

#[test]
fn stop_twice_fails_the_second_time() {
    let mut scheduler = WateringScheduler::new();
    let e = entry(5, 8, 0, 8, 10, true);
    scheduler.start_schedule(&e).unwrap();
    assert!(scheduler.stop_schedule(&e).is_ok());
    assert_eq!(scheduler.stop_schedule(&e), Err(()));
}

#[test]
fn stop_without_start_reports_not_active() {
    let mut scheduler = WateringScheduler::new();
    assert_eq!(scheduler.stop_schedule(&entry(5, 8, 0, 8, 10, true)), Err(()));
}

#[test]
fn stop_only_affects_the_named_identity() {
    let mut scheduler = WateringScheduler::new();
    let a = entry(5, 8, 0, 8, 10, true);
    let b = entry(6, 9, 0, 9, 10, true);
    scheduler.start_schedule(&a).unwrap();
    scheduler.start_schedule(&b).unwrap();
    scheduler.stop_schedule(&a).unwrap();
    assert!(!scheduler.is_active(&a));
    assert!(scheduler.is_active(&b));
}

#[test]
fn restart_overwrites_the_slot_with_a_fresh_token() {
    let mut scheduler = WateringScheduler::new();
    let e = entry(5, 8, 0, 8, 10, true);
    let t1 = scheduler.start_schedule(&e).unwrap();
    let t2 = scheduler.start_schedule(&e).unwrap();
    assert_ne!(t1, t2);
    // one slot, carrying the newer token
    assert_eq!(scheduler.stop_schedule(&e), Ok(t2));
    assert!(!scheduler.is_active(&e));
}

#[test]
fn start_spawns_only_enabled_entries() {
    let mut store = WateringScheduleConfigs::new();
    store.create_schedule(entry(5, 8, 0, 8, 10, true)).unwrap();
    store.create_schedule(entry(6, 9, 0, 9, 10, false)).unwrap();
    store.create_schedule(entry(7, 10, 0, 10, 30, true)).unwrap();
    let mut scheduler = WateringScheduler::new();
    let spawned = scheduler.start(&store);
    assert_eq!(spawned.len(), 2);
    assert_eq!(spawned[0].0, entry(5, 8, 0, 8, 10, true));
    assert_eq!(spawned[1].0, entry(7, 10, 0, 10, 30, true));
    assert!(scheduler.is_active(&entry(5, 8, 0, 8, 10, true)));
    assert!(!scheduler.is_active(&entry(6, 9, 0, 9, 10, false)));
    assert!(scheduler.is_active(&entry(7, 10, 0, 10, 30, true)));
}

#[test]
fn schedule_times_come_from_the_window() {
    let config = ScheduleConfig::new(8, 15, 20, 45);
    assert_eq!(get_schedule_start_time(&config), TimeOfDay::new(8, 15, 0));
    assert_eq!(get_schedule_end_time(&config), TimeOfDay::new(20, 45, 0));
}

#[test]
fn create_schedule_builds_an_open_close_pair() {
    let e = entry(5, 8, 0, 8, 10, true);
    let (start_task, end_task) = create_schedule(&e);
    assert_eq!(start_task.get_command(), LayoutCommand::Open(ValvePinNumber(5)));
    assert_eq!(start_task.get_execution_time(), TimeOfDay::new(8, 0, 0));
    assert!(!start_task.has_fired());
    assert_eq!(end_task.get_command(), LayoutCommand::Close(ValvePinNumber(5)));
    assert_eq!(end_task.get_execution_time(), TimeOfDay::new(8, 10, 0));
    assert!(!end_task.has_fired());
}
