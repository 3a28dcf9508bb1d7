use garden_butler::schedule::configuration::{
    ScheduleConfig, WateringScheduleConfig, WateringScheduleConfigs,
};

fn entry(valve: u8, sh: u8, sm: u8, eh: u8, em: u8, enabled: bool) -> WateringScheduleConfig {
    WateringScheduleConfig::new(ScheduleConfig::new(sh, sm, eh, em), valve, enabled)
}

#[test]
fn create_inserts_new_entry() {
    let mut store = WateringScheduleConfigs::new();
    let e = entry(5, 8, 0, 8, 10, false);
    let created = store.create_schedule(e);
    assert_eq!(created, Ok(e));
    assert_eq!(store.get_schedules().len(), 1);
    assert_eq!(store.get_schedules()[0], e);
}

#[test]
fn create_duplicate_identity_fails_without_mutation() {
    let mut store = WateringScheduleConfigs::new();
    let e = entry(5, 8, 0, 8, 10, false);
    store.create_schedule(e).unwrap();
    // same valve and window, different enabled flag: same identity
    let dup = entry(5, 8, 0, 8, 10, true);
    assert_eq!(store.create_schedule(dup), Err(()));
    assert_eq!(store.get_schedules().len(), 1);
    assert_eq!(store.get_schedules()[0], e);
}

#[test]
fn create_distinct_identities_coexist() {
    let mut store = WateringScheduleConfigs::new();
    store.create_schedule(entry(5, 8, 0, 8, 10, false)).unwrap();
    store.create_schedule(entry(6, 8, 0, 8, 10, false)).unwrap();
    store.create_schedule(entry(5, 9, 0, 9, 10, false)).unwrap();
    assert_eq!(store.get_schedules().len(), 3);
    assert!(store.is_well_formed());
}

#[test]
fn enable_flips_flag_and_returns_updated_entry() {
    let mut store = WateringScheduleConfigs::new();
    store.create_schedule(entry(5, 8, 0, 8, 10, false)).unwrap();
    // lookup goes by identity, whatever the enabled flag of the argument
    let result = store.enable_schedule(&entry(5, 8, 0, 8, 10, false));
    assert_eq!(result, Ok(entry(5, 8, 0, 8, 10, true)));
    assert!(store.get_schedules()[0].is_enabled());
}

#[test]
fn enable_unknown_identity_fails() {
    let mut store = WateringScheduleConfigs::new();
    store.create_schedule(entry(5, 8, 0, 8, 10, false)).unwrap();
    assert_eq!(store.enable_schedule(&entry(7, 8, 0, 8, 10, false)), Err(()));
    assert!(!store.get_schedules()[0].is_enabled());
}

#[test]
fn disable_is_idempotent() {
    let mut store = WateringScheduleConfigs::new();
    store.create_schedule(entry(5, 8, 0, 8, 10, true)).unwrap();
    let key = entry(5, 8, 0, 8, 10, true);
    let first = store.disable_schedule(&key);
    assert_eq!(first, Ok(entry(5, 8, 0, 8, 10, false)));
    assert!(!store.get_schedules()[0].is_enabled());
    // disabling an already disabled entry still succeeds and changes nothing
    let second = store.disable_schedule(&key);
    assert_eq!(second, Ok(entry(5, 8, 0, 8, 10, false)));
    assert!(!store.get_schedules()[0].is_enabled());
    assert_eq!(store.get_schedules().len(), 1);
}

#[test]
fn delete_removes_and_returns_stored_entry() {
    let mut store = WateringScheduleConfigs::new();
    store.create_schedule(entry(5, 8, 0, 8, 10, true)).unwrap();
    store.create_schedule(entry(6, 9, 0, 9, 30, false)).unwrap();
    // the key's enabled flag is ignored; the stored entry comes back
    let removed = store.delete_schedule(&entry(5, 8, 0, 8, 10, false));
    assert_eq!(removed, Ok(entry(5, 8, 0, 8, 10, true)));
    assert_eq!(store.get_schedules().len(), 1);
    assert_eq!(store.get_schedules()[0], entry(6, 9, 0, 9, 30, false));
    // deleting again fails: the identity is gone
    assert_eq!(store.delete_schedule(&entry(5, 8, 0, 8, 10, false)), Err(()));
}

#[test]
fn find_schedule_matches_identity_only() {
    let mut store = WateringScheduleConfigs::new();
    store.create_schedule(entry(5, 8, 0, 8, 10, true)).unwrap();
    let found = store.find_schedule(&entry(5, 8, 0, 8, 10, false));
    assert_eq!(found, Some(&entry(5, 8, 0, 8, 10, true)));
    assert_eq!(store.find_schedule_index(&entry(5, 8, 0, 8, 10, false)), Some(0));
    assert_eq!(store.find_schedule(&entry(5, 8, 0, 8, 11, true)), None);
}

#[test]
fn well_formedness_check_spots_duplicates() {
    let good = WateringScheduleConfigs {
        schedules: vec![entry(5, 8, 0, 8, 10, true), entry(6, 8, 0, 8, 10, true)],
    };
    assert!(good.is_well_formed());
    let bad = WateringScheduleConfigs {
        schedules: vec![entry(5, 8, 0, 8, 10, true), entry(5, 8, 0, 8, 10, false)],
    };
    assert!(!bad.is_well_formed());
}
