//! A single directional timer: wait until the local wall-clock time of day
//! matches a target, then emit one command, once. The runtime polls the
//! timer at a fixed cadence; the decision of whether and what to emit is
//! made here.

use vstd::prelude::*;

use crate::embedded::command::LayoutCommand;

verus! {

/// A local wall-clock time of day, at second granularity.
#[derive(Clone, Copy, Debug, PartialEq, Eq, Structural, Hash)]
pub struct TimeOfDay {
    pub hour: u8,
    pub minute: u8,
    pub second: u8,
}

impl TimeOfDay {
    pub open spec fn wf(&self) -> bool {
        self.hour < 24 && self.minute < 60 && self.second < 60
    }

    pub fn new(hour: u8, minute: u8, second: u8) -> (t: TimeOfDay)
        requires
            hour < 24,
            minute < 60,
            second < 60,
        ensures
            t == (TimeOfDay { hour, minute, second }),
            t.wf(),
    {
        TimeOfDay { hour, minute, second }
    }
}

/// Relies on chrono's `Local::now` and the `Timelike` accessors `hour`,
/// `minute` and `second` of the `NaiveTime` it carries: together they give
/// the current local wall-clock time of day truncated to whole seconds,
/// with the hour below 24 and minute and second below 60 (chrono encodes a
/// leap second in the sub-second field, so `second` stays below 60). Which
/// time comes back depends on the clock, so nothing more is promised.
#[verifier::external_body]
fn local_now_time_of_day() -> (t: TimeOfDay)
    ensures
        t.wf(),
{
    let now = chrono::Local::now().time();
    TimeOfDay {
        hour: chrono::Timelike::hour(&now) as u8,
        minute: chrono::Timelike::minute(&now) as u8,
        second: chrono::Timelike::second(&now) as u8,
    }
}

/// A poll at time `now` fires exactly when the task has not fired yet and
/// `now` equals the target time.
pub open spec fn spec_task_fires(fired: bool, target: TimeOfDay, now: TimeOfDay) -> bool {
    !fired && now == target
}

/// Whether the task counts as fired after a poll at time `now`.
pub open spec fn spec_task_fired_after(fired: bool, target: TimeOfDay, now: TimeOfDay) -> bool {
    fired || now == target
}

/// Fire once: after the poll that fires, no later poll fires again, at
/// whatever times the task is polled.
pub proof fn lemma_fire_once(fired: bool, target: TimeOfDay, now1: TimeOfDay, now2: TimeOfDay)
    ensures
        spec_task_fires(fired, target, now1) ==> !spec_task_fires(
            spec_task_fired_after(fired, target, now1),
            target,
            now2,
        ),
{
}

/// One directional watering timer: the command it will emit, the time of day
/// at which to emit it, and whether it already has.
pub struct WateringTask {
    command: LayoutCommand,
    execution_time: TimeOfDay,
    fired: bool,
}

impl WateringTask {
    pub closed spec fn spec_command(&self) -> LayoutCommand {
        self.command
    }

    pub closed spec fn spec_execution_time(&self) -> TimeOfDay {
        self.execution_time
    }

    pub closed spec fn spec_fired(&self) -> bool {
        self.fired
    }

    /// A fresh timer that has not fired.
    pub fn new(layout_command: LayoutCommand, execution_time: TimeOfDay) -> (t: WateringTask)
        ensures
            t.spec_command() == layout_command,
            t.spec_execution_time() == execution_time,
            !t.spec_fired(),
    {
        WateringTask { command: layout_command, execution_time, fired: false }
    }

    pub fn get_command(&self) -> (r: LayoutCommand)
        ensures
            r == self.spec_command(),
    {
        self.command
    }

    pub fn get_execution_time(&self) -> (r: TimeOfDay)
        ensures
            r == self.spec_execution_time(),
    {
        self.execution_time
    }

    pub fn has_fired(&self) -> (r: bool)
        ensures
            r == self.spec_fired(),
    {
        self.fired
    }

    /// One poll of the timer at wall-clock time `now`: emits the command
    /// exactly when the poll fires, and nothing otherwise; the target and
    /// the command never change.
    pub fn tick(&mut self, now: TimeOfDay) -> (r: Option<LayoutCommand>)
        ensures
            final(self).spec_command() == old(self).spec_command(),
            final(self).spec_execution_time() == old(self).spec_execution_time(),
            final(self).spec_fired() == spec_task_fired_after(
                old(self).spec_fired(),
                old(self).spec_execution_time(),
                now,
            ),
            r matches Some(c) <==> spec_task_fires(
                old(self).spec_fired(),
                old(self).spec_execution_time(),
                now,
            ),
            r matches Some(c) ==> c == old(self).spec_command(),
    {
        let fires = !self.fired && now == self.execution_time;
        if now == self.execution_time {
            self.fired = true;
        }
        if fires {
            Some(self.command)
        } else {
            None
        }
    }

    /// One poll of the timer against the real local clock. Whatever time
    /// the clock reports, at most one poll ever fires; the emitted value is
    /// the stored command, and a timer that has fired never fires again.
    pub fn check_fire(&mut self) -> (r: Option<LayoutCommand>)
        ensures
            final(self).spec_command() == old(self).spec_command(),
            final(self).spec_execution_time() == old(self).spec_execution_time(),
            r matches Some(c) ==> !old(self).spec_fired() && final(self).spec_fired() && c == old(self).spec_command(),
            old(self).spec_fired() ==> r is None && final(self).spec_fired(),
    {
        let now = local_now_time_of_day();
        self.tick(now)
    }
}

} // verus!
