use garden_butler::schedule::configuration::{
    ScheduleConfig, WateringScheduleConfig, WateringScheduleConfigs,
};

fn entry(valve: u8, sh: u8, sm: u8, eh: u8, em: u8, enabled: bool) -> WateringScheduleConfig {
    WateringScheduleConfig::new(ScheduleConfig::new(sh, sm, eh, em), valve, enabled)
}

#[test]
fn empty_store_document() {
    let store = WateringScheduleConfigs::new();
    let doc = store.to_json();
    assert_eq!(doc, b"{\"schedules\":[]}".to_vec());
}

#[test]
fn one_entry_document_is_canonical() {
    let mut store = WateringScheduleConfigs::new();
    store.create_schedule(entry(5, 8, 0, 8, 10, false)).unwrap();
    let doc = store.to_json();
    let expected = b"{\"schedules\":[{\"schedule\":{\"start_hour\":8,\"start_minute\":0,\"end_hour\":8,\"end_minute\":10},\"valve\":5,\"enabled\":false}]}";
    assert_eq!(doc, expected.to_vec());
}

#[test]
fn multi_entry_document_separates_with_commas() {
    let mut store = WateringScheduleConfigs::new();
    store.create_schedule(entry(5, 8, 0, 8, 10, true)).unwrap();
    store.create_schedule(entry(212, 23, 59, 0, 7, false)).unwrap();
    let doc = store.to_json();
    let expected = b"{\"schedules\":[{\"schedule\":{\"start_hour\":8,\"start_minute\":0,\"end_hour\":8,\"end_minute\":10},\"valve\":5,\"enabled\":true},{\"schedule\":{\"start_hour\":23,\"start_minute\":59,\"end_hour\":0,\"end_minute\":7},\"valve\":212,\"enabled\":false}]}";
    assert_eq!(doc, expected.to_vec());
}

#[test]
fn reload_yields_the_persisted_store() {
    let mut store = WateringScheduleConfigs::new();
    store.create_schedule(entry(5, 8, 0, 8, 10, false)).unwrap();
    store.create_schedule(entry(6, 21, 30, 21, 45, true)).unwrap();
    store.enable_schedule(&entry(5, 8, 0, 8, 10, false)).unwrap();
    let doc = store.to_json();
    let reloaded = WateringScheduleConfigs::from_json(&doc).unwrap();
    assert_eq!(reloaded.get_schedules(), store.get_schedules());
    assert!(reloaded.is_well_formed());
}

#[test]
fn reload_after_delete_matches_memory() {
    let mut store = WateringScheduleConfigs::new();
    store.create_schedule(entry(5, 8, 0, 8, 10, false)).unwrap();
    store.create_schedule(entry(6, 21, 30, 21, 45, true)).unwrap();
    store.delete_schedule(&entry(5, 8, 0, 8, 10, false)).unwrap();
    let doc = store.to_json();
    let reloaded = WateringScheduleConfigs::from_json(&doc).unwrap();
    assert_eq!(reloaded.get_schedules(), store.get_schedules());
}

#[test]
fn empty_document_round_trips() {
    let store = WateringScheduleConfigs::new();
    let reloaded = WateringScheduleConfigs::from_json(&store.to_json()).unwrap();
    assert_eq!(reloaded.get_schedules().len(), 0);
}

#[test]
fn three_digit_values_round_trip() {
    let mut store = WateringScheduleConfigs::new();
    store.create_schedule(entry(255, 0, 0, 23, 59, true)).unwrap();
    store.create_schedule(entry(100, 10, 10, 10, 11, false)).unwrap();
    let reloaded = WateringScheduleConfigs::from_json(&store.to_json()).unwrap();
    assert_eq!(reloaded.get_schedules(), store.get_schedules());
}

#[test]
fn malformed_documents_are_rejected() {
    assert!(WateringScheduleConfigs::from_json(&b"".to_vec()).is_none());
    assert!(WateringScheduleConfigs::from_json(&b"{}".to_vec()).is_none());
    assert!(WateringScheduleConfigs::from_json(&b"{\"schedules\":[".to_vec()).is_none());
    assert!(WateringScheduleConfigs::from_json(&b"{\"schedules\":[]} ".to_vec()).is_none());
    // a value that does not fit a byte
    let too_big = b"{\"schedules\":[{\"schedule\":{\"start_hour\":8,\"start_minute\":0,\"end_hour\":8,\"end_minute\":10},\"valve\":300,\"enabled\":false}]}";
    assert!(WateringScheduleConfigs::from_json(&too_big.to_vec()).is_none());
    // a misspelled key
    let bad_key = b"{\"schedules\":[{\"schedule\":{\"start_hour\":8,\"start_minut\":0,\"end_hour\":8,\"end_minute\":10},\"valve\":5,\"enabled\":false}]}";
    assert!(WateringScheduleConfigs::from_json(&bad_key.to_vec()).is_none());
    // trailing comma
    let trailing = b"{\"schedules\":[{\"schedule\":{\"start_hour\":8,\"start_minute\":0,\"end_hour\":8,\"end_minute\":10},\"valve\":5,\"enabled\":false},]}";
    assert!(WateringScheduleConfigs::from_json(&trailing.to_vec()).is_none());
}

#[test]
fn document_does_not_echo_input_buffer() {
    // the emitter writes the store's entries, not whatever bytes came in
    let doc = b"{\"schedules\":[{\"schedule\":{\"start_hour\":1,\"start_minute\":2,\"end_hour\":3,\"end_minute\":4},\"valve\":9,\"enabled\":true}]}";
    let reloaded = WateringScheduleConfigs::from_json(&doc.to_vec()).unwrap();
    assert_eq!(reloaded.get_schedules().len(), 1);
    assert_eq!(reloaded.get_schedules()[0], entry(9, 1, 2, 3, 4, true));
}
