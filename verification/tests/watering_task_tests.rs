use std::time::{Duration, Instant};

use chrono::Timelike;

use garden_butler::embedded::command::LayoutCommand;
use garden_butler::embedded::ValvePinNumber;
use garden_butler::schedule::watering_task::{TimeOfDay, WateringTask};

#[test]
fn tick_fires_exactly_at_the_target_time() {
    let target = TimeOfDay::new(8, 0, 0);
    let mut task = WateringTask::new(LayoutCommand::Open(ValvePinNumber(5)), target);
    assert_eq!(task.tick(TimeOfDay::new(7, 59, 59)), None);
    assert!(!task.has_fired());
    assert_eq!(
        task.tick(TimeOfDay::new(8, 0, 0)),
        Some(LayoutCommand::Open(ValvePinNumber(5)))
    );
    assert!(task.has_fired());
}

#[test]
fn tick_never_fires_twice() {
    let target = TimeOfDay::new(8, 0, 0);
    let mut task = WateringTask::new(LayoutCommand::Open(ValvePinNumber(5)), target);
    assert!(task.tick(TimeOfDay::new(8, 0, 0)).is_some());
    // the same second again, the next second, and the same time a day later
    assert_eq!(task.tick(TimeOfDay::new(8, 0, 0)), None);
    assert_eq!(task.tick(TimeOfDay::new(8, 0, 1)), None);
    assert_eq!(task.tick(TimeOfDay::new(8, 0, 0)), None);
    assert!(task.has_fired());
}

#[test]
fn tick_requires_second_precision_match() {
    let target = TimeOfDay::new(8, 0, 0);
    let mut task = WateringTask::new(LayoutCommand::Close(ValvePinNumber(7)), target);
    assert_eq!(task.tick(TimeOfDay::new(8, 0, 1)), None);
    assert_eq!(task.tick(TimeOfDay::new(8, 1, 0)), None);
    assert_eq!(task.tick(TimeOfDay::new(9, 0, 0)), None);
    assert!(!task.has_fired());
}

fn local_now_plus(seconds: u32) -> TimeOfDay {
    let now = chrono::Local::now().time();
    let total = (now.hour() * 3600 + now.minute() * 60 + now.second() + seconds) % 86400;
    TimeOfDay::new((total / 3600) as u8, ((total % 3600) / 60) as u8, (total % 60) as u8)
}

#[test]
fn fires_once_against_the_real_clock() {
    // a task aimed two seconds ahead emits exactly one command within three
    // seconds and stays silent for the five seconds after that
    let target = local_now_plus(2);
    let mut task = WateringTask::new(LayoutCommand::Open(ValvePinNumber(5)), target);
    let begin = Instant::now();
    let mut emitted: Vec<LayoutCommand> = Vec::new();
    while begin.elapsed() < Duration::from_secs(3) {
        if let Some(cmd) = task.check_fire() {
            emitted.push(cmd);
        }
    }
    assert_eq!(emitted, vec![LayoutCommand::Open(ValvePinNumber(5))]);
    while begin.elapsed() < Duration::from_secs(8) {
        if let Some(cmd) = task.check_fire() {
            emitted.push(cmd);
        }
    }
    assert_eq!(emitted.len(), 1);
}

#[test]
fn clock_readings_are_valid_times_of_day() {
    // check_fire consults the real clock; a task aimed at an unreachable
    // second-of-day value would never fire, and the reading itself must be a
    // well-formed time of day for the target comparison to be meaningful
    let now = local_now_plus(0);
    assert!(now.hour < 24);
    assert!(now.minute < 60);
    assert!(now.second < 60);
    let mut task = WateringTask::new(LayoutCommand::Open(ValvePinNumber(1)), now);
    // polling in the very second the target names fires at once
    let fired = task.check_fire().is_some() || {
        // the second may just have rolled over; try the next one
        let target = local_now_plus(0);
        let mut retry = WateringTask::new(LayoutCommand::Open(ValvePinNumber(1)), target);
        retry.check_fire().is_some()
    };
    assert!(fired);
}
