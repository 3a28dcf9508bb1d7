use garden_butler::embedded::command::LayoutCommand;
use garden_butler::embedded::ValvePinNumber;
use garden_butler::schedule::command::{
    handle_command, ScheduleCommandEffect, WateringConfigCommand,
};
use garden_butler::schedule::configuration::{
    ScheduleConfig, WateringScheduleConfig, WateringScheduleConfigs,
};
use garden_butler::schedule::watering::{create_schedule, WateringScheduler};
use garden_butler::schedule::watering_task::TimeOfDay;

fn entry(valve: u8, sh: u8, sm: u8, eh: u8, em: u8, enabled: bool) -> WateringScheduleConfig {
    WateringScheduleConfig::new(ScheduleConfig::new(sh, sm, eh, em), valve, enabled)
}

#[test]
fn enable_command_mutates_store_and_starts_pair() {
    let mut store = WateringScheduleConfigs::new();
    store.create_schedule(entry(5, 8, 0, 8, 10, false)).unwrap();
    let mut scheduler = WateringScheduler::new();
    let cmd = WateringConfigCommand::Enable(entry(5, 8, 0, 8, 10, false));
    let effect = handle_command(&mut store, &mut scheduler, cmd).unwrap();
    match effect {
        ScheduleCommandEffect::Started(e, _) => assert_eq!(e, entry(5, 8, 0, 8, 10, true)),
        _ => panic!("enable must start a pair"),
    }
    assert!(store.get_schedules()[0].is_enabled());
    assert!(scheduler.is_active(&entry(5, 8, 0, 8, 10, true)));
}

#[test]
fn enable_unknown_identity_is_dropped() {
    let mut store = WateringScheduleConfigs::new();
    let mut scheduler = WateringScheduler::new();
    let cmd = WateringConfigCommand::Enable(entry(5, 8, 0, 8, 10, false));
    assert_eq!(handle_command(&mut store, &mut scheduler, cmd), Err(()));
    assert_eq!(store.get_schedules().len(), 0);
}

#[test]
fn disable_command_stops_the_running_pair() {
    let mut store = WateringScheduleConfigs::new();
    store.create_schedule(entry(5, 8, 0, 8, 10, false)).unwrap();
    let mut scheduler = WateringScheduler::new();
    let key = entry(5, 8, 0, 8, 10, false);
    let started = handle_command(&mut store, &mut scheduler, WateringConfigCommand::Enable(key))
        .unwrap();
    let token = match started {
        ScheduleCommandEffect::Started(_, t) => t,
        _ => panic!("enable must start a pair"),
    };
    let effect = handle_command(&mut store, &mut scheduler, WateringConfigCommand::Disable(key))
        .unwrap();
    assert_eq!(effect, ScheduleCommandEffect::Stopped(token));
    assert!(!store.get_schedules()[0].is_enabled());
    assert!(!scheduler.is_active(&key));
}

#[test]
fn disable_without_running_pair_mutates_store_but_fails() {
    let mut store = WateringScheduleConfigs::new();
    store.create_schedule(entry(5, 8, 0, 8, 10, true)).unwrap();
    let mut scheduler = WateringScheduler::new();
    let key = entry(5, 8, 0, 8, 10, true);
    // the store mutation succeeds, the scheduler step finds nothing to stop:
    // the command fails and the store mutation is not rolled back
    assert_eq!(
        handle_command(&mut store, &mut scheduler, WateringConfigCommand::Disable(key)),
        Err(())
    );
    assert!(!store.get_schedules()[0].is_enabled());
}

#[test]
fn delete_command_removes_entry_and_stops_pair() {
    let mut store = WateringScheduleConfigs::new();
    store.create_schedule(entry(5, 8, 0, 8, 10, false)).unwrap();
    let mut scheduler = WateringScheduler::new();
    let key = entry(5, 8, 0, 8, 10, false);
    handle_command(&mut store, &mut scheduler, WateringConfigCommand::Enable(key)).unwrap();
    let effect = handle_command(&mut store, &mut scheduler, WateringConfigCommand::Delete(key))
        .unwrap();
    assert!(matches!(effect, ScheduleCommandEffect::Stopped(_)));
    assert_eq!(store.get_schedules().len(), 0);
    assert!(!scheduler.is_active(&key));
}

#[test]
fn create_command_inserts_and_starts() {
    let mut store = WateringScheduleConfigs::new();
    let mut scheduler = WateringScheduler::new();
    let e = entry(9, 6, 30, 6, 45, true);
    let effect = handle_command(&mut store, &mut scheduler, WateringConfigCommand::Create(e))
        .unwrap();
    assert!(matches!(effect, ScheduleCommandEffect::Started(created, _) if created == e));
    assert_eq!(store.get_schedules().len(), 1);
    assert!(scheduler.is_active(&e));
}

#[test]
fn create_duplicate_is_dropped_untouched() {
    let mut store = WateringScheduleConfigs::new();
    let mut scheduler = WateringScheduler::new();
    let e = entry(9, 6, 30, 6, 45, true);
    handle_command(&mut store, &mut scheduler, WateringConfigCommand::Create(e)).unwrap();
    let dup = entry(9, 6, 30, 6, 45, false);
    assert_eq!(
        handle_command(&mut store, &mut scheduler, WateringConfigCommand::Create(dup)),
        Err(())
    );
    assert_eq!(store.get_schedules().len(), 1);
    assert_eq!(store.get_schedules()[0], e);
}

#[test]
fn enable_then_window_drives_the_valve() {
    // one disabled entry for valve 5 with the window 08:00 to 08:10
    let mut store = WateringScheduleConfigs::new();
    store.create_schedule(entry(5, 8, 0, 8, 10, false)).unwrap();
    let mut scheduler = WateringScheduler::new();

    // the enable command marks the entry enabled ...
    let key = entry(5, 8, 0, 8, 10, false);
    let effect = handle_command(&mut store, &mut scheduler, WateringConfigCommand::Enable(key))
        .unwrap();
    let started = match effect {
        ScheduleCommandEffect::Started(e, _) => e,
        _ => panic!("enable must start a pair"),
    };
    assert!(store.get_schedules()[0].is_enabled());

    // ... and persists: the reloaded store equals the in-memory one
    let reloaded = WateringScheduleConfigs::from_json(&store.to_json()).unwrap();
    assert_eq!(reloaded.get_schedules(), store.get_schedules());

    // the started pair opens the valve at 08:00:00 and closes it at 08:10:00
    let (mut open_task, mut close_task) = create_schedule(&started);
    assert_eq!(open_task.tick(TimeOfDay::new(7, 59, 59)), None);
    assert_eq!(
        open_task.tick(TimeOfDay::new(8, 0, 0)),
        Some(LayoutCommand::Open(ValvePinNumber(5)))
    );
    assert_eq!(close_task.tick(TimeOfDay::new(8, 0, 0)), None);
    assert_eq!(
        close_task.tick(TimeOfDay::new(8, 10, 0)),
        Some(LayoutCommand::Close(ValvePinNumber(5)))
    );
}

#[test]
fn disable_at_mid_window_cancels_the_close() {
    let mut store = WateringScheduleConfigs::new();
    store.create_schedule(entry(5, 8, 0, 8, 10, false)).unwrap();
    let mut scheduler = WateringScheduler::new();
    let key = entry(5, 8, 0, 8, 10, false);
    let effect = handle_command(&mut store, &mut scheduler, WateringConfigCommand::Enable(key))
        .unwrap();
    let started = match effect {
        ScheduleCommandEffect::Started(e, _) => e,
        _ => panic!("enable must start a pair"),
    };
    let (mut open_task, mut close_task) = create_schedule(&started);
    assert!(open_task.tick(TimeOfDay::new(8, 0, 0)).is_some());

    // at 08:05 a disable arrives: the pair's registry slot goes away and the
    // runtime cancels the pair through the returned token, so the close tick
    // never happens
    let effect = handle_command(&mut store, &mut scheduler, WateringConfigCommand::Disable(key))
        .unwrap();
    assert!(matches!(effect, ScheduleCommandEffect::Stopped(_)));
    assert!(!scheduler.is_active(&key));
    // the close task had emitted nothing up to the cancellation
    assert!(!close_task.has_fired());
    let _ = close_task;
}
