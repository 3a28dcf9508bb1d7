//! The schedule store: the authoritative set of watering-schedule entries,
//! unique by identity, with the four mutations the command handler drives.
//!
//! The identity of an entry is the pair of its valve and its daily window;
//! the `enabled` flag is state, not identity. Every mutation locates the
//! entry by identity, applies the change in memory and reports the updated
//! entry; the caller then persists the whole store (see the persistence
//! module) before treating the mutation as complete.

use vstd::prelude::*;

verus! {

/// A daily recurring local-time window, second granularity truncated to
/// `:00`. The data type does not require the start to precede the end;
/// a window whose end lies before its start wraps past midnight and its
/// behaviour is left to the scheduler's callers.
#[derive(Clone, Copy, Debug, PartialEq, Eq, Structural, Hash)]
pub struct ScheduleConfig {
    pub start_hour: u8,
    pub start_minute: u8,
    pub end_hour: u8,
    pub end_minute: u8,
}

impl ScheduleConfig {
    pub fn new(start_hour: u8, start_minute: u8, end_hour: u8, end_minute: u8) -> (c:
        ScheduleConfig)
        ensures
            c == (ScheduleConfig { start_hour, start_minute, end_hour, end_minute }),
    {
        ScheduleConfig { start_hour, start_minute, end_hour, end_minute }
    }

    pub fn get_start_hour(&self) -> (r: &u8)
        ensures
            *r == self.start_hour,
    {
        &self.start_hour
    }

    pub fn get_start_minute(&self) -> (r: &u8)
        ensures
            *r == self.start_minute,
    {
        &self.start_minute
    }

    pub fn get_end_hour(&self) -> (r: &u8)
        ensures
            *r == self.end_hour,
    {
        &self.end_hour
    }

    pub fn get_end_minute(&self) -> (r: &u8)
        ensures
            *r == self.end_minute,
    {
        &self.end_minute
    }
}

/// One watering-schedule entry: a valve, its daily window, and whether the
/// schedule is currently enabled.
#[derive(Clone, Copy, Debug, PartialEq, Eq, Structural, Hash)]
pub struct WateringScheduleConfig {
    pub schedule: ScheduleConfig,
    pub valve: u8,
    pub enabled: bool,
}

impl WateringScheduleConfig {
    pub fn new(schedule: ScheduleConfig, valve: u8, enabled: bool) -> (c: WateringScheduleConfig)
        ensures
            c == (WateringScheduleConfig { schedule, valve, enabled }),
    {
        WateringScheduleConfig { schedule, valve, enabled }
    }

    pub fn get_schedule(&self) -> (r: &ScheduleConfig)
        ensures
            *r == self.schedule,
    {
        &self.schedule
    }

    pub fn get_valve(&self) -> (r: u8)
        ensures
            r == self.valve,
    {
        self.valve
    }

    pub fn is_enabled(&self) -> (r: bool)
        ensures
            r == self.enabled,
    {
        self.enabled
    }
}

/// Two entries are the same schedule when valve and window agree; the
/// `enabled` flag plays no part in identity.
pub open spec fn spec_same_identity(a: WateringScheduleConfig, b: WateringScheduleConfig) -> bool {
    a.valve == b.valve && a.schedule == b.schedule
}

/// Some entry of `s` has the identity of `e`.
pub open spec fn spec_has_identity(s: Seq<WateringScheduleConfig>, e: WateringScheduleConfig) -> bool {
    exists|i: int| 0 <= i < s.len() && spec_same_identity(s[i], e)
}

/// `i` is the index of the first entry of `s` with the identity of `e`.
pub open spec fn spec_first_identity_match(
    s: Seq<WateringScheduleConfig>,
    e: WateringScheduleConfig,
    i: int,
) -> bool {
    &&& 0 <= i < s.len()
    &&& spec_same_identity(s[i], e)
    &&& forall|j: int| 0 <= j < i ==> !spec_same_identity(s[j], e)
}

/// No two distinct entries share an identity.
pub open spec fn spec_unique_identities(s: Seq<WateringScheduleConfig>) -> bool {
    forall|i: int, j: int|
        0 <= i < j < s.len() ==> !spec_same_identity(s[i], s[j])
}

/// The entry `e` with its `enabled` flag forced to `b`.
pub open spec fn spec_with_enabled(e: WateringScheduleConfig, b: bool) -> WateringScheduleConfig {
    WateringScheduleConfig { schedule: e.schedule, valve: e.valve, enabled: b }
}

/// The schedule store. Entries are kept in insertion order and are unique
/// by identity; `wf` states that uniqueness.
#[derive(Clone, Debug)]
pub struct WateringScheduleConfigs {
    pub schedules: Vec<WateringScheduleConfig>,
}

impl WateringScheduleConfigs {
    pub open spec fn view(&self) -> Seq<WateringScheduleConfig> {
        self.schedules@
    }

    /// The store invariant: entries are unique by identity.
    pub open spec fn wf(&self) -> bool {
        spec_unique_identities(self@)
    }

    /// An empty store.
    pub fn new() -> (s: WateringScheduleConfigs)
        ensures
            s@ == Seq::<WateringScheduleConfig>::empty(),
            s.wf(),
    {
        WateringScheduleConfigs { schedules: Vec::new() }
    }

    pub fn get_schedules(&self) -> (r: &Vec<WateringScheduleConfig>)
        ensures
            r@ == self@,
    {
        &self.schedules
    }

    /// Whether the entries are unique by identity. A store read back from
    /// storage should pass this check before its mutations are used, since
    /// the persisted document format does not itself force uniqueness.
    pub fn is_well_formed(&self) -> (r: bool)
        ensures
            r == self.wf(),
    {
        let n = self.schedules.len();
        let mut i: usize = 0;
        while i < n
            invariant
                n == self@.len(),
                i <= n,
                forall|a: int, b: int| 0 <= a < b < i ==> !spec_same_identity(self@[a], self@[b]),
                forall|a: int, b: int|
                    0 <= a < i && i <= b < n ==> !spec_same_identity(self@[a], self@[b]),
            decreases n - i,
        {
            let mut j: usize = i + 1;
            while j < n
                invariant
                    n == self@.len(),
                    i < j || j == i + 1,
                    i < n,
                    i + 1 <= j <= n,
                    forall|b: int| i < b < j ==> !spec_same_identity(self@[i as int], self@[b]),
                decreases n - j,
            {
                let a = &self.schedules[i];
                let b = &self.schedules[j];
                if a.valve == b.valve && a.schedule == b.schedule {
                    proof {
                        assert(spec_same_identity(self@[i as int], self@[j as int]));
                        assert(!spec_unique_identities(self@));
                    }
                    return false;
                }
                j = j + 1;
            }
            i = i + 1;
        }
        true
    }

    /// The index of the first entry with the identity of `schedule`, if any.
    pub fn find_schedule_index(&self, schedule: &WateringScheduleConfig) -> (r: Option<usize>)
        ensures
            match r {
                Some(i) => spec_first_identity_match(self@, *schedule, i as int),
                None => !spec_has_identity(self@, *schedule),
            },
    {
        let n = self.schedules.len();
        let mut i: usize = 0;
        while i < n
            invariant
                n == self@.len(),
                i <= n,
                forall|j: int| 0 <= j < i ==> !spec_same_identity(self@[j], *schedule),
            decreases n - i,
        {
            let item = &self.schedules[i];
            if item.valve == schedule.valve && item.schedule == schedule.schedule {
                return Some(i);
            }
            i = i + 1;
        }
        None
    }

    /// The first entry with the identity of `schedule`, if any.
    pub fn find_schedule(&self, schedule: &WateringScheduleConfig) -> (r: Option<
        &WateringScheduleConfig,
    >)
        ensures
            match r {
                Some(e) => spec_has_identity(self@, *schedule) && exists|i: int|
                    spec_first_identity_match(self@, *schedule, i) && *e == self@[i],
                None => !spec_has_identity(self@, *schedule),
            },
    {
        match self.find_schedule_index(schedule) {
            Some(i) => Some(&self.schedules[i]),
            None => None,
        }
    }

    /// Mark the stored entry with the identity of `schedule` enabled.
    /// Succeeds exactly when the identity is present, and then returns the
    /// updated entry; fails without any change when it is absent. Enabling
    /// an entry that is already enabled succeeds and changes nothing.
    pub fn enable_schedule(&mut self, schedule: &WateringScheduleConfig) -> (r: Result<
        WateringScheduleConfig,
        (),
    >)
        requires
            old(self).wf(),
        ensures
            final(self).wf(),
            r is Ok <==> spec_has_identity(old(self)@, *schedule),
            r is Ok ==> exists|i: int| spec_first_identity_match(old(self)@, *schedule, i),
            match r {
                Ok(e) => e == spec_with_enabled(*schedule, true) && forall|i: int|
                    spec_first_identity_match(old(self)@, *schedule, i) ==> final(self)@ == old(
                        self,
                    )@.update(i, spec_with_enabled(*schedule, true)),
                Err(()) => final(self)@ == old(self)@,
            },
    {
        self.set_enabled_flag(schedule, true)
    }

    /// Mark the stored entry with the identity of `schedule` disabled.
    /// Succeeds exactly when the identity is present, and then returns the
    /// updated entry; fails without any change when it is absent. Disabling
    /// an entry that is already disabled succeeds and changes nothing.
    pub fn disable_schedule(&mut self, schedule: &WateringScheduleConfig) -> (r: Result<
        WateringScheduleConfig,
        (),
    >)
        requires
            old(self).wf(),
        ensures
            final(self).wf(),
            r is Ok <==> spec_has_identity(old(self)@, *schedule),
            r is Ok ==> exists|i: int| spec_first_identity_match(old(self)@, *schedule, i),
            match r {
                Ok(e) => e == spec_with_enabled(*schedule, false) && forall|i: int|
                    spec_first_identity_match(old(self)@, *schedule, i) ==> final(self)@ == old(
                        self,
                    )@.update(i, spec_with_enabled(*schedule, false)),
                Err(()) => final(self)@ == old(self)@,
            },
    {
        self.set_enabled_flag(schedule, false)
    }

    /// Shared body of enable and disable: flip the flag of the entry with
    /// the identity of `schedule` to `enabled`.
    fn set_enabled_flag(&mut self, schedule: &WateringScheduleConfig, enabled: bool) -> (r: Result<
        WateringScheduleConfig,
        (),
    >)
        requires
            old(self).wf(),
        ensures
            final(self).wf(),
            r is Ok <==> spec_has_identity(old(self)@, *schedule),
            r is Ok ==> exists|i: int| spec_first_identity_match(old(self)@, *schedule, i),
            match r {
                Ok(e) => e == spec_with_enabled(*schedule, enabled) && forall|i: int|
                    spec_first_identity_match(old(self)@, *schedule, i) ==> final(self)@ == old(
                        self,
                    )@.update(i, spec_with_enabled(*schedule, enabled)),
                Err(()) => final(self)@ == old(self)@,
            },
    {
        match self.find_schedule_index(schedule) {
            None => Err(()),
            Some(i) => {
                let cur = self.schedules[i];
                let updated = WateringScheduleConfig {
                    schedule: cur.schedule,
                    valve: cur.valve,
                    enabled,
                };
                self.schedules.set(i, updated);
                proof {
                    assert forall|a: int, b: int|
                        0 <= a < b < final(self)@.len() implies !spec_same_identity(
                        final(self)@[a],
                        final(self)@[b],
                    ) by {
                        assert(spec_same_identity(old(self)@[a], final(self)@[a]));
                        assert(spec_same_identity(old(self)@[b], final(self)@[b]));
                    }
                }
                Ok(updated)
            },
        }
    }

    /// Remove the entry with the identity of `schedule`. Succeeds exactly
    /// when the identity is present, and then returns the removed entry's
    /// value; fails without any change when it is absent.
    pub fn delete_schedule(&mut self, schedule: &WateringScheduleConfig) -> (r: Result<
        WateringScheduleConfig,
        (),
    >)
        requires
            old(self).wf(),
        ensures
            final(self).wf(),
            r is Ok <==> spec_has_identity(old(self)@, *schedule),
            r is Ok ==> exists|i: int| spec_first_identity_match(old(self)@, *schedule, i),
            match r {
                Ok(e) => spec_same_identity(e, *schedule) && forall|i: int|
                    #[trigger] spec_first_identity_match(old(self)@, *schedule, i) ==> e == old(self)@[i]
                        && final(self)@ == old(self)@.remove(i),
                Err(()) => final(self)@ == old(self)@,
            },
    {
        match self.find_schedule_index(schedule) {
            None => Err(()),
            Some(i) => {
                let removed = self.schedules.remove(i);
                proof {
                    assert forall|a: int, b: int|
                        0 <= a < b < final(self)@.len() implies !spec_same_identity(
                        final(self)@[a],
                        final(self)@[b],
                    ) by {
                        if b < i as int {
                            assert(final(self)@[a] == old(self)@[a]);
                            assert(final(self)@[b] == old(self)@[b]);
                        } else if a < i as int {
                            assert(final(self)@[a] == old(self)@[a]);
                            assert(final(self)@[b] == old(self)@[b + 1]);
                        } else {
                            assert(final(self)@[a] == old(self)@[a + 1]);
                            assert(final(self)@[b] == old(self)@[b + 1]);
                        }
                    }
                }
                Ok(removed)
            },
        }
    }

    /// Insert a new entry. Succeeds exactly when no stored entry has its
    /// identity, and then appends it and returns it; a duplicate identity
    /// is rejected without any change to the store.
    pub fn create_schedule(&mut self, schedule: WateringScheduleConfig) -> (r: Result<
        WateringScheduleConfig,
        (),
    >)
        requires
            old(self).wf(),
        ensures
            final(self).wf(),
            r is Ok <==> !spec_has_identity(old(self)@, schedule),
            match r {
                Ok(e) => e == schedule && final(self)@ == old(self)@.push(schedule),
                Err(()) => final(self)@ == old(self)@,
            },
    {
        match self.find_schedule_index(&schedule) {
            None => {
                self.schedules.push(schedule);
                proof {
                    assert forall|a: int, b: int|
                        0 <= a < b < final(self)@.len() implies !spec_same_identity(
                        final(self)@[a],
                        final(self)@[b],
                    ) by {
                        if b == final(self)@.len() - 1 {
                            assert(final(self)@[a] == old(self)@[a]);
                        } else {
                            assert(final(self)@[a] == old(self)@[a]);
                            assert(final(self)@[b] == old(self)@[b]);
                        }
                    }
                }
                Ok(schedule)
            },
            Some(_) => Err(()),
        }
    }
}

/// Identity uniqueness: in a well-formed store, two entries that agree on
/// valve and window are one and the same entry.
pub proof fn lemma_identity_unique(
    s: Seq<WateringScheduleConfig>,
    i: int,
    j: int,
)
    requires
        spec_unique_identities(s),
        0 <= i < s.len(),
        0 <= j < s.len(),
        spec_same_identity(s[i], s[j]),
    ensures
        i == j,
        s[i] == s[j],
{
    if i < j {
        assert(!spec_same_identity(s[i], s[j]));
    } else if j < i {
        assert(!spec_same_identity(s[j], s[i]));
    }
}

/// Idempotent disable: when the identity of `schedule` is in the store, a
/// disable succeeds, and a second disable of the same entry still succeeds
/// and leaves the store exactly where the first one left it.
pub proof fn lemma_disable_idempotent(
    s: Seq<WateringScheduleConfig>,
    schedule: WateringScheduleConfig,
    i: int,
)
    requires
        spec_unique_identities(s),
        spec_first_identity_match(s, schedule, i),
    ensures
        spec_has_identity(s.update(i, spec_with_enabled(schedule, false)), schedule),
        spec_first_identity_match(s.update(i, spec_with_enabled(schedule, false)), schedule, i),
        s.update(i, spec_with_enabled(schedule, false)).update(
            i,
            spec_with_enabled(schedule, false),
        ) == s.update(i, spec_with_enabled(schedule, false)),
{
    let s1 = s.update(i, spec_with_enabled(schedule, false));
    assert(spec_same_identity(s1[i], schedule));
    assert(s1.update(i, spec_with_enabled(schedule, false)) =~= s1);
}

} // verus!
