use garden_butler::embedded::command::{apply_layout_command, LayoutCommand};
use garden_butler::embedded::configuration::{LayoutConfig, PumpConfig, ValveConfig};
use garden_butler::embedded::fake::{FakePinLayout, FakeToggleValve};
use garden_butler::embedded::{
    should_power_off_pump, Error, LayoutStatus, ToggleValveStatus, ValvePinNumber, ValveStatus,
};
use garden_butler::mqtt::command::{
    get_schedule_config_from_message, get_valve_pin_num_from_message, is_schedule_create_topic,
    is_schedule_delete_topic, is_schedule_disable_topic, is_schedule_enable_topic,
    is_valve_close_topic, is_valve_open_topic,
};
use garden_butler::schedule::configuration::{ScheduleConfig, WateringScheduleConfig};

fn layout_of(valves: Vec<u8>) -> LayoutConfig {
    let valve_configs = valves.into_iter().map(|v| ValveConfig::new(v, None, None)).collect();
    LayoutConfig::new(Some(1), Some(2), None, valve_configs)
}

#[test]
fn layout_config_getters_hand_back_the_fields() {
    let pump = PumpConfig::new(17, Some(18));
    assert_eq!(pump.get_power_pin_num(), 17);
    assert_eq!(pump.get_status_led_pin_num(), Some(18));
    let valve = ValveConfig::new(5, Some(6), Some(7));
    assert_eq!(valve.get_valve_pin_num(), 5);
    assert_eq!(valve.get_button_pin_num(), Some(6));
    assert_eq!(valve.get_status_led_pin_num(), Some(7));
    let layout = LayoutConfig::new(Some(1), Some(2), Some(pump), vec![valve]);
    assert_eq!(layout.get_power_pin_num(), Some(1));
    assert_eq!(layout.get_error_pin_num(), Some(2));
    assert_eq!(layout.get_valves().len(), 1);
    assert!(layout.get_pump().is_some());
}

#[test]
fn fake_valve_starts_closed_and_toggles() {
    let mut valve = FakeToggleValve::from_config(&ValveConfig::new(5, None, None));
    assert_eq!(valve.get_valve_pin_num(), &ValvePinNumber(5));
    assert_eq!(valve.is_on().unwrap(), false);
    valve.turn_on().unwrap();
    assert_eq!(valve.is_on().unwrap(), true);
    valve.turn_off().unwrap();
    assert_eq!(valve.is_on().unwrap(), false);
}

#[test]
fn fake_layout_finds_pins_and_reports_status() {
    let mut layout = FakePinLayout::new(&layout_of(vec![5, 6]));
    assert_eq!(layout.find_pin(ValvePinNumber(6)), Ok(1));
    assert_eq!(layout.find_pin(ValvePinNumber(9)), Err(()));

    layout.turn_on(ValvePinNumber(5)).unwrap();
    let status = layout.get_layout_status();
    assert_eq!(status.valves.len(), 2);
    assert_eq!(status.valves[0].valve_pin_number, ValvePinNumber(5));
    assert!(matches!(status.valves[0].status, ValveStatus::OPEN));
    assert!(matches!(status.valves[1].status, ValveStatus::CLOSED));

    layout.turn_off(ValvePinNumber(5)).unwrap();
    let status = layout.get_layout_status();
    assert!(matches!(status.valves[0].status, ValveStatus::CLOSED));
}

#[test]
fn unknown_pin_is_silently_ignored() {
    let mut layout = FakePinLayout::new(&layout_of(vec![5]));
    assert!(layout.turn_on(ValvePinNumber(9)).is_ok());
    let status = layout.get_layout_status();
    assert!(matches!(status.valves[0].status, ValveStatus::CLOSED));
}

#[test]
fn layout_commands_drive_the_named_valve() {
    let mut layout = FakePinLayout::new(&layout_of(vec![5, 6]));
    apply_layout_command(&mut layout, LayoutCommand::Open(ValvePinNumber(6))).unwrap();
    let status = layout.get_layout_status();
    assert!(matches!(status.valves[0].status, ValveStatus::CLOSED));
    assert!(matches!(status.valves[1].status, ValveStatus::OPEN));
    apply_layout_command(&mut layout, LayoutCommand::Close(ValvePinNumber(6))).unwrap();
    let status = layout.get_layout_status();
    assert!(matches!(status.valves[1].status, ValveStatus::CLOSED));
}

#[test]
fn error_message_carries_the_text() {
    let e = Error::Unexpected(String::from("valve not found"));
    assert_eq!(e.message().as_str(), "valve not found");
}

#[test]
fn command_topics_are_recognised_by_suffix() {
    assert!(is_valve_open_topic("garden/garden-butler/command/layout/open"));
    assert!(!is_valve_open_topic("garden/garden-butler/command/layout/close"));
    assert!(is_valve_close_topic("garden/garden-butler/command/layout/close"));
    assert!(is_schedule_enable_topic(
        "garden/garden-butler/command/watering-schedule/enable"
    ));
    assert!(is_schedule_disable_topic(
        "garden/garden-butler/command/watering-schedule/disable"
    ));
    assert!(is_schedule_delete_topic(
        "garden/garden-butler/command/watering-schedule/delete"
    ));
    assert!(is_schedule_create_topic(
        "garden/garden-butler/command/watering-schedule/create"
    ));
    assert!(!is_schedule_create_topic("garden/garden-butler/command/layout/open"));
    assert!(!is_valve_open_topic("open"));
}

#[test]
fn valve_number_payloads_decode_exactly() {
    assert_eq!(get_valve_pin_num_from_message(&b"5".to_vec()), Ok(ValvePinNumber(5)));
    assert_eq!(get_valve_pin_num_from_message(&b"255".to_vec()), Ok(ValvePinNumber(255)));
    assert_eq!(get_valve_pin_num_from_message(&b"007".to_vec()), Ok(ValvePinNumber(7)));
    assert_eq!(get_valve_pin_num_from_message(&b"".to_vec()), Err(()));
    assert_eq!(get_valve_pin_num_from_message(&b"256".to_vec()), Err(()));
    assert_eq!(get_valve_pin_num_from_message(&b"5 ".to_vec()), Err(()));
    assert_eq!(get_valve_pin_num_from_message(&b"abc".to_vec()), Err(()));
}

#[test]
fn schedule_payloads_decode_to_entries() {
    let payload = b"{\"schedule\":{\"start_hour\":8,\"start_minute\":0,\"end_hour\":8,\"end_minute\":10},\"valve\":5,\"enabled\":true}";
    let expected = WateringScheduleConfig::new(ScheduleConfig::new(8, 0, 8, 10), 5, true);
    assert_eq!(get_schedule_config_from_message(&payload.to_vec()), Ok(expected));
    assert_eq!(get_schedule_config_from_message(&b"{}".to_vec()), Err(()));
    let trailing = b"{\"schedule\":{\"start_hour\":8,\"start_minute\":0,\"end_hour\":8,\"end_minute\":10},\"valve\":5,\"enabled\":true} ";
    assert_eq!(get_schedule_config_from_message(&trailing.to_vec()), Err(()));
}

#[test]
fn layout_status_document_is_canonical() {
    let mut layout = FakePinLayout::new(&layout_of(vec![5, 200]));
    layout.turn_on(ValvePinNumber(5)).unwrap();
    let doc = layout.get_layout_status().to_json();
    let expected = b"{\"valves\":[{\"valve_pin_number\":5,\"status\":\"OPEN\"},{\"valve_pin_number\":200,\"status\":\"CLOSED\"}]}";
    assert_eq!(doc, expected.to_vec());
}

#[test]
fn empty_layout_status_document() {
    let layout = FakePinLayout::new(&layout_of(vec![]));
    assert_eq!(layout.get_layout_status().to_json(), b"{\"valves\":[]}".to_vec());
}

#[test]
fn pump_goes_off_only_with_no_other_open_valve() {
    let status = LayoutStatus {
        valves: vec![
            ToggleValveStatus { valve_pin_number: ValvePinNumber(5), status: ValveStatus::OPEN },
            ToggleValveStatus { valve_pin_number: ValvePinNumber(6), status: ValveStatus::OPEN },
        ],
    };
    // valve 6 is still open, so closing valve 5 keeps the pump running
    assert!(!should_power_off_pump(&status, ValvePinNumber(5)));
    let status = LayoutStatus {
        valves: vec![
            ToggleValveStatus { valve_pin_number: ValvePinNumber(5), status: ValveStatus::OPEN },
            ToggleValveStatus { valve_pin_number: ValvePinNumber(6), status: ValveStatus::CLOSED },
        ],
    };
    assert!(should_power_off_pump(&status, ValvePinNumber(5)));
}
