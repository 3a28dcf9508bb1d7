//! The watering scheduler: it turns schedule entries into running timer
//! pairs and keeps the Active Schedule Registry — the map from schedule
//! identity to the cancellation token of the currently running pair —
//! consistent. The runtime that actually spawns and cancels tasks acts on
//! the tokens this module hands out.

use vstd::prelude::*;

use crate::embedded::command::LayoutCommand;
use crate::embedded::ValvePinNumber;
use crate::schedule::configuration::{
    spec_same_identity, ScheduleConfig, WateringScheduleConfig, WateringScheduleConfigs,
};
use crate::schedule::watering_task::{TimeOfDay, WateringTask};

verus! {

/// Some registry slot holds the identity of `e`.
pub open spec fn spec_reg_has_identity(
    s: Seq<(WateringScheduleConfig, u64)>,
    e: WateringScheduleConfig,
) -> bool {
    exists|i: int| 0 <= i < s.len() && spec_same_identity(s[i].0, e)
}

/// `i` is the first registry slot holding the identity of `e`.
pub open spec fn spec_reg_first_identity_match(
    s: Seq<(WateringScheduleConfig, u64)>,
    e: WateringScheduleConfig,
    i: int,
) -> bool {
    &&& 0 <= i < s.len()
    &&& spec_same_identity(s[i].0, e)
    &&& forall|j: int| 0 <= j < i ==> !spec_same_identity(s[j].0, e)
}

/// No two registry slots hold the same identity: at most one live timer
/// pair per schedule.
pub open spec fn spec_reg_unique_identities(s: Seq<(WateringScheduleConfig, u64)>) -> bool {
    forall|i: int, j: int| 0 <= i < j < s.len() ==> !spec_same_identity(s[i].0, s[j].0)
}

/// `e` is one of the enabled entries of `configs`.
pub open spec fn spec_is_enabled_entry_of(
    configs: Seq<WateringScheduleConfig>,
    e: WateringScheduleConfig,
) -> bool {
    exists|i: int| 0 <= i < configs.len() && e == configs[i] && configs[i].enabled
}

/// Some spawned pair runs for the entry `e`.
pub open spec fn spec_spawned_for(
    r: Seq<(WateringScheduleConfig, u64)>,
    e: WateringScheduleConfig,
) -> bool {
    exists|k: int| 0 <= k < r.len() && r[k].0 == e
}

/// The daily time at which the pair's opening timer fires.
pub fn get_schedule_start_time(config: &ScheduleConfig) -> (t: TimeOfDay)
    requires
        config.start_hour < 24,
        config.start_minute < 60,
    ensures
        t == (TimeOfDay { hour: config.start_hour, minute: config.start_minute, second: 0 }),
        t.wf(),
{
    TimeOfDay::new(config.start_hour, config.start_minute, 0)
}

/// The daily time at which the pair's closing timer fires.
pub fn get_schedule_end_time(config: &ScheduleConfig) -> (t: TimeOfDay)
    requires
        config.end_hour < 24,
        config.end_minute < 60,
    ensures
        t == (TimeOfDay { hour: config.end_hour, minute: config.end_minute, second: 0 }),
        t.wf(),
{
    TimeOfDay::new(config.end_hour, config.end_minute, 0)
}

/// Build the timer pair of one schedule entry: one task that opens the
/// valve at the window's start, one that closes it at the window's end.
/// The runtime races the two tasks against the pair's cancellation token
/// and the shutdown signal.
pub fn create_schedule(schedule_config: &WateringScheduleConfig) -> (r: (WateringTask, WateringTask))
    requires
        schedule_config.schedule.start_hour < 24,
        schedule_config.schedule.start_minute < 60,
        schedule_config.schedule.end_hour < 24,
        schedule_config.schedule.end_minute < 60,
    ensures
        r.0.spec_command() == LayoutCommand::Open(ValvePinNumber(schedule_config.valve)),
        r.0.spec_execution_time() == (TimeOfDay {
            hour: schedule_config.schedule.start_hour,
            minute: schedule_config.schedule.start_minute,
            second: 0,
        }),
        !r.0.spec_fired(),
        r.1.spec_command() == LayoutCommand::Close(ValvePinNumber(schedule_config.valve)),
        r.1.spec_execution_time() == (TimeOfDay {
            hour: schedule_config.schedule.end_hour,
            minute: schedule_config.schedule.end_minute,
            second: 0,
        }),
        !r.1.spec_fired(),
{
    let number = ValvePinNumber(schedule_config.get_valve());
    let start_time = get_schedule_start_time(schedule_config.get_schedule());
    let end_time = get_schedule_end_time(schedule_config.get_schedule());
    let start_task = WateringTask::new(LayoutCommand::Open(number), start_time);
    let end_task = WateringTask::new(LayoutCommand::Close(number), end_time);
    (start_task, end_task)
}

/// The scheduler: the Active Schedule Registry plus the counter that makes
/// cancellation tokens unique.
pub struct WateringScheduler {
    senders: Vec<(WateringScheduleConfig, u64)>,
    next_token: u64,
}

impl WateringScheduler {
    /// The registry: schedule entry and cancellation token of every live
    /// timer pair.
    pub closed spec fn spec_registry(&self) -> Seq<(WateringScheduleConfig, u64)> {
        self.senders@
    }

    pub closed spec fn spec_next_token(&self) -> u64 {
        self.next_token
    }

    /// Registry identities are unique and every registered token was handed
    /// out before the counter's current value.
    pub open spec fn wf(&self) -> bool {
        &&& spec_reg_unique_identities(self.spec_registry())
        &&& forall|i: int|
            0 <= i < self.spec_registry().len() ==> self.spec_registry()[i].1
                < self.spec_next_token()
    }

    /// A scheduler with nothing running.
    pub fn new() -> (s: WateringScheduler)
        ensures
            s.spec_registry() == Seq::<(WateringScheduleConfig, u64)>::empty(),
            s.spec_next_token() == 0,
            s.wf(),
    {
        WateringScheduler { senders: Vec::new(), next_token: 0 }
    }

    /// Whether the scheduler can still hand out a fresh cancellation token:
    /// the runtime checks this before it asks for a start.
    pub fn has_token_headroom(&self) -> (r: bool)
        ensures
            r == (self.spec_next_token() < u64::MAX),
    {
        self.next_token < u64::MAX
    }

    /// The registry slot of the identity of `schedule`, if one is live.
    fn find_registry_index(&self, schedule: &WateringScheduleConfig) -> (r: Option<usize>)
        ensures
            match r {
                Some(i) => spec_reg_first_identity_match(
                    self.spec_registry(),
                    *schedule,
                    i as int,
                ),
                None => !spec_reg_has_identity(self.spec_registry(), *schedule),
            },
    {
        let n = self.senders.len();
        let mut i: usize = 0;
        while i < n
            invariant
                n == self.spec_registry().len(),
                i <= n,
                forall|j: int|
                    0 <= j < i ==> !spec_same_identity(self.spec_registry()[j].0, *schedule),
            decreases n - i,
        {
            let item = &self.senders[i].0;
            if item.valve == schedule.valve && item.schedule == schedule.schedule {
                return Some(i);
            }
            i = i + 1;
        }
        None
    }

    /// Whether a timer pair is currently registered for the identity of
    /// `schedule`.
    pub fn is_active(&self, schedule: &WateringScheduleConfig) -> (r: bool)
        ensures
            r == spec_reg_has_identity(self.spec_registry(), *schedule),
    {
        match self.find_registry_index(schedule) {
            Some(_) => true,
            None => false,
        }
    }

    /// Start a timer pair for `schedule`: hand out a fresh cancellation
    /// token and record it under the schedule's identity. A slot already
    /// held by that identity is overwritten — the previous pair's token is
    /// abandoned, not cancelled, as the stop operation is the only one that
    /// cancels. The caller spawns the pair (see `create_schedule`) under the
    /// returned token.
    pub fn start_schedule(&mut self, schedule: &WateringScheduleConfig) -> (r: Result<u64, ()>)
        requires
            old(self).wf(),
            old(self).spec_next_token() < u64::MAX,
        ensures
            final(self).wf(),
            match r {
                Ok(token) => {
                    &&& token == old(self).spec_next_token()
                    &&& final(self).spec_next_token() == old(self).spec_next_token() + 1
                    &&& forall|j: int|
                        0 <= j < old(self).spec_registry().len() ==> old(self).spec_registry()[j].1 != token
                    &&& (spec_reg_has_identity(old(self).spec_registry(), *schedule)
                        ==> exists|i: int|
                        spec_reg_first_identity_match(old(self).spec_registry(), *schedule, i)
                            && final(self).spec_registry() == old(self).spec_registry().update(
                            i,
                            (*schedule, token),
                        ))
                    &&& (!spec_reg_has_identity(old(self).spec_registry(), *schedule) ==> final(self).spec_registry() == old(self).spec_registry().push((*schedule, token)))
                    &&& spec_reg_has_identity(final(self).spec_registry(), *schedule)
                },
                Err(()) => false,
            },
    {
        let token = self.next_token;
        self.next_token = self.next_token + 1;
        match self.find_registry_index(schedule) {
            Some(i) => {
                self.senders.set(i, (*schedule, token));
                proof {
                    assert forall|a: int, b: int|
                        0 <= a < b < final(self).spec_registry().len() implies !spec_same_identity(
                        final(self).spec_registry()[a].0,
                        final(self).spec_registry()[b].0,
                    ) by {
                        assert(spec_same_identity(
                            old(self).spec_registry()[a].0,
                            final(self).spec_registry()[a].0,
                        ));
                        assert(spec_same_identity(
                            old(self).spec_registry()[b].0,
                            final(self).spec_registry()[b].0,
                        ));
                    }
                    assert(spec_same_identity(final(self).spec_registry()[i as int].0, *schedule));
                }
            },
            None => {
                self.senders.push((*schedule, token));
                proof {
                    let reg = final(self).spec_registry();
                    assert forall|a: int, b: int|
                        0 <= a < b < reg.len() implies !spec_same_identity(reg[a].0, reg[b].0) by {
                        if b < reg.len() - 1 {
                            assert(reg[a] == old(self).spec_registry()[a]);
                            assert(reg[b] == old(self).spec_registry()[b]);
                        } else {
                            assert(reg[a] == old(self).spec_registry()[a]);
                        }
                    }
                    assert(spec_same_identity(reg[reg.len() - 1].0, *schedule));
                }
            },
        }
        Ok(token)
    }

    /// Stop the timer pair registered for the identity of `schedule`: remove
    /// its slot and return its cancellation token, through which the caller
    /// cancels the pair. Fails, changing nothing, when no pair is registered
    /// for that identity.
    pub fn stop_schedule(&mut self, schedule: &WateringScheduleConfig) -> (r: Result<u64, ()>)
        requires
            old(self).wf(),
        ensures
            final(self).wf(),
            final(self).spec_next_token() == old(self).spec_next_token(),
            r is Ok <==> spec_reg_has_identity(old(self).spec_registry(), *schedule),
            r is Ok ==> exists|i: int| spec_reg_first_identity_match(
                old(self).spec_registry(),
                *schedule,
                i,
            ),
            match r {
                Ok(token) => forall|i: int|
                    #[trigger] spec_reg_first_identity_match(old(self).spec_registry(), *schedule, i)
                        ==> token == old(self).spec_registry()[i].1 && final(self).spec_registry()
                        == old(self).spec_registry().remove(i),
                Err(()) => final(self).spec_registry() == old(self).spec_registry(),
            },
    {
        match self.find_registry_index(schedule) {
            None => Err(()),
            Some(i) => {
                let (_, token) = self.senders.remove(i);
                proof {
                    let reg = final(self).spec_registry();
                    assert forall|a: int, b: int|
                        0 <= a < b < reg.len() implies !spec_same_identity(reg[a].0, reg[b].0) by {
                        if b < i as int {
                            assert(reg[a] == old(self).spec_registry()[a]);
                            assert(reg[b] == old(self).spec_registry()[b]);
                        } else if a < i as int {
                            assert(reg[a] == old(self).spec_registry()[a]);
                            assert(reg[b] == old(self).spec_registry()[b + 1]);
                        } else {
                            assert(reg[a] == old(self).spec_registry()[a + 1]);
                            assert(reg[b] == old(self).spec_registry()[b + 1]);
                        }
                    }
                }
                Ok(token)
            },
        }
    }

    /// Start a timer pair for every enabled entry of the store, as at boot.
    /// Returns the spawned pairs: each element is one enabled entry of the
    /// store with the token under which its pair now runs, and every enabled
    /// entry of the store is spawned and registered; the runtime spawns one
    /// pair per element.
    pub fn start(&mut self, configs: &WateringScheduleConfigs) -> (r: Vec<
        (WateringScheduleConfig, u64),
    >)
        requires
            old(self).wf(),
            configs.wf(),
            old(self).spec_next_token() + configs@.len() <= u64::MAX,
        ensures
            final(self).wf(),
            forall|k: int|
                0 <= k < r@.len() ==> spec_is_enabled_entry_of(configs@, #[trigger] r@[k].0)
                    && spec_reg_has_identity(final(self).spec_registry(), r@[k].0),
            forall|i: int|
                0 <= i < configs@.len() && (#[trigger] configs@[i]).enabled ==> spec_spawned_for(
                    r@,
                    configs@[i],
                ) && spec_reg_has_identity(final(self).spec_registry(), configs@[i]),
    {
        let schedules = configs.get_schedules();
        let n = schedules.len();
        let mut spawned: Vec<(WateringScheduleConfig, u64)> = Vec::new();
        let mut i: usize = 0;
        while i < n
            invariant
                n == configs@.len(),
                i <= n,
                self.wf(),
                self.spec_next_token() + (n - i) <= u64::MAX,
                schedules@ == configs@,
                forall|k: int|
                    0 <= k < spawned@.len() ==> spec_is_enabled_entry_of(
                        configs@,
                        #[trigger] spawned@[k].0,
                    ) && spec_reg_has_identity(self.spec_registry(), spawned@[k].0),
                forall|j: int|
                    0 <= j < i && (#[trigger] configs@[j]).enabled ==> spec_spawned_for(
                        spawned@,
                        configs@[j],
                    ) && spec_reg_has_identity(self.spec_registry(), configs@[j]),
            decreases n - i,
        {
            let schedule = &schedules[i];
            if schedule.is_enabled() {
                let ghost pre = self.spec_registry();
                let token = match self.start_schedule(schedule) {
                    Ok(t) => t,
                    Err(()) => {
                        return spawned;
                    },
                };
                let ghost post = self.spec_registry();
                let ghost spawned_pre = spawned@;
                spawned.push((*schedule, token));
                proof {
                    assert forall|t: int|
                        0 <= t < pre.len() implies spec_same_identity(
                        (#[trigger] post[t]).0,
                        pre[t].0,
                    ) by {
                        if spec_reg_has_identity(pre, *schedule) {
                            let w = choose|w: int|
                                spec_reg_first_identity_match(pre, *schedule, w) && post
                                    == pre.update(w, (*schedule, token));
                            assert(post.len() == pre.len());
                            if t != w {
                                assert(post[t] == pre[t]);
                            }
                        } else {
                            assert(post == pre.push((*schedule, token)));
                            assert(post[t] == pre[t]);
                        }
                    }
                    assert(spec_reg_has_identity(post, *schedule));
                    assert(configs@[i as int] == *schedule && configs@[i as int].enabled);
                    assert(spec_is_enabled_entry_of(configs@, *schedule));
                    assert forall|k: int|
                        0 <= k < spawned@.len() implies spec_is_enabled_entry_of(
                        configs@,
                        #[trigger] spawned@[k].0,
                    ) && spec_reg_has_identity(self.spec_registry(), spawned@[k].0) by {
                        if k < spawned_pre.len() {
                            assert(spawned@[k] == spawned_pre[k]);
                            lemma_registry_keeps_identities(pre, post, spawned_pre[k].0);
                        } else {
                            assert(spawned@[k] == (*schedule, token));
                        }
                    }
                    assert forall|j: int|
                        0 <= j < i + 1 && (#[trigger] configs@[j]).enabled implies
                        spec_spawned_for(spawned@, configs@[j]) && spec_reg_has_identity(
                        self.spec_registry(),
                        configs@[j],
                    ) by {
                        if j < i {
                            lemma_registry_keeps_identities(pre, post, configs@[j]);
                            let k = choose|k: int|
                                0 <= k < spawned_pre.len() && #[trigger] spawned_pre[k].0
                                    == configs@[j];
                            assert(spawned@[k] == spawned_pre[k]);
                            assert(spawned@[k].0 == configs@[j]);
                        } else {
                            assert(spawned@[spawned@.len() - 1] == (*schedule, token));
                            assert(spawned@[spawned@.len() - 1].0 == configs@[j]);
                        }
                    }
                }
            }
            i = i + 1;
        }
        spawned
    }
}

/// A start of one schedule keeps every identity that was registered: slots
/// are only overwritten by the same identity or appended.
proof fn lemma_registry_keeps_identities(
    pre: Seq<(WateringScheduleConfig, u64)>,
    post: Seq<(WateringScheduleConfig, u64)>,
    e: WateringScheduleConfig,
)
    requires
        spec_reg_has_identity(pre, e),
        post.len() >= pre.len(),
        forall|i: int| 0 <= i < pre.len() ==> spec_same_identity((#[trigger] post[i]).0, pre[i].0),
    ensures
        spec_reg_has_identity(post, e),
{
    let i = choose|i: int| 0 <= i < pre.len() && spec_same_identity(pre[i].0, e);
    assert(spec_same_identity(post[i].0, e));
}

/// Stopping a schedule clears its identity from the registry: with unique
/// identities, removing the one matching slot leaves no slot for that
/// identity, so a start followed at once by a stop leaves the schedule
/// inactive.
pub proof fn lemma_stop_clears_identity(
    reg: Seq<(WateringScheduleConfig, u64)>,
    e: WateringScheduleConfig,
    i: int,
)
    requires
        spec_reg_unique_identities(reg),
        spec_reg_first_identity_match(reg, e, i),
    ensures
        !spec_reg_has_identity(reg.remove(i), e),
{
    let removed = reg.remove(i);
    assert forall|j: int| 0 <= j < removed.len() implies !spec_same_identity(removed[j].0, e) by {
        if j < i {
            assert(removed[j] == reg[j]);
            if spec_same_identity(reg[j].0, e) {
                assert(spec_same_identity(reg[j].0, reg[i].0));
            }
        } else {
            assert(removed[j] == reg[j + 1]);
            if spec_same_identity(reg[j + 1].0, e) {
                assert(spec_same_identity(reg[i].0, reg[j + 1].0));
            }
        }
    }
}

} // verus!
