//! Handling of remote schedule commands: each one mutates the schedule
//! store and then reflects the result into the watering scheduler. The loop
//! that receives commands from the bus lives with the runtime; the decision
//! for one command is `handle_command`.

use vstd::prelude::*;

use crate::schedule::configuration::{
    spec_first_identity_match, spec_has_identity, spec_same_identity, spec_with_enabled,
    WateringScheduleConfig, WateringScheduleConfigs,
};
use crate::schedule::watering::{
    spec_reg_first_identity_match, spec_reg_has_identity, WateringScheduler,
};

verus! {

/// A remote request to change the schedule configuration, with the entry it
/// speaks of.
#[derive(Clone, Copy, Debug, PartialEq, Eq, Structural)]
pub enum WateringConfigCommand {
    Enable(WateringScheduleConfig),
    Disable(WateringScheduleConfig),
    Delete(WateringScheduleConfig),
    Create(WateringScheduleConfig),
}

/// What the runtime must do after a successful command: spawn a timer pair
/// for this entry under this token, or cancel the pair behind this token.
#[derive(Clone, Copy, Debug, PartialEq, Eq, Structural)]
pub enum ScheduleCommandEffect {
    Started(WateringScheduleConfig, u64),
    Stopped(u64),
}

/// Consumes the stream of schedule commands: the runtime receives each
/// command and calls `handle_command`; on success it notifies the status
/// reporter, on failure the command is dropped with nothing but a log line.
pub struct WateringConfigCommandListener {}

/// Process one schedule command: apply the matching store mutation, and on
/// its success the matching scheduler operation. A failure at either stage
/// reports failure to the caller; a store mutation that succeeded is not
/// rolled back when the scheduler stage fails.
pub fn handle_command(
    watering_config: &mut WateringScheduleConfigs,
    watering_scheduler: &mut WateringScheduler,
    command: WateringConfigCommand,
) -> (r: Result<ScheduleCommandEffect, ()>)
    requires
        old(watering_config).wf(),
        old(watering_scheduler).wf(),
        old(watering_scheduler).spec_next_token() < u64::MAX,
    ensures
        final(watering_config).wf(),
        final(watering_scheduler).wf(),
        final(watering_scheduler).spec_next_token() <= old(watering_scheduler).spec_next_token()
            + 1,
        r is Err ==> final(watering_scheduler).spec_registry() == old(watering_scheduler).spec_registry(),
        match command {
            WateringConfigCommand::Enable(e) => {
                &&& (r is Ok <==> spec_has_identity(old(watering_config)@, e))
                &&& (spec_has_identity(old(watering_config)@, e) ==> forall|i: int|
                    #[trigger] spec_first_identity_match(old(watering_config)@, e, i) ==> final(watering_config)@ == old(watering_config)@.update(i, spec_with_enabled(e, true)))
                &&& (!spec_has_identity(old(watering_config)@, e) ==> final(watering_config)@
                    == old(watering_config)@)
                &&& (r matches Ok(eff) ==> spec_reg_has_identity(
                    final(watering_scheduler).spec_registry(),
                    e,
                ) && exists|t: u64| eff == ScheduleCommandEffect::Started(
                    spec_with_enabled(e, true),
                    t,
                ))
            },
            WateringConfigCommand::Disable(e) => {
                &&& (r is Ok <==> spec_has_identity(old(watering_config)@, e)
                    && spec_reg_has_identity(old(watering_scheduler).spec_registry(), e))
                &&& (spec_has_identity(old(watering_config)@, e) ==> forall|i: int|
                    #[trigger] spec_first_identity_match(old(watering_config)@, e, i) ==> final(watering_config)@ == old(watering_config)@.update(i, spec_with_enabled(e, false)))
                &&& (!spec_has_identity(old(watering_config)@, e) ==> final(watering_config)@
                    == old(watering_config)@)
                &&& (r matches Ok(eff) ==> forall|i: int|
                    #[trigger] spec_reg_first_identity_match(old(watering_scheduler).spec_registry(), e, i)
                        ==> final(watering_scheduler).spec_registry() == old(watering_scheduler).spec_registry().remove(i) && eff == ScheduleCommandEffect::Stopped(
                        old(watering_scheduler).spec_registry()[i].1,
                    ))
            },
            WateringConfigCommand::Delete(e) => {
                &&& (r is Ok <==> spec_has_identity(old(watering_config)@, e)
                    && spec_reg_has_identity(old(watering_scheduler).spec_registry(), e))
                &&& (spec_has_identity(old(watering_config)@, e) ==> forall|i: int|
                    #[trigger] spec_first_identity_match(old(watering_config)@, e, i) ==> final(watering_config)@ == old(watering_config)@.remove(i))
                &&& (!spec_has_identity(old(watering_config)@, e) ==> final(watering_config)@
                    == old(watering_config)@)
                &&& (r matches Ok(eff) ==> forall|i: int|
                    #[trigger] spec_reg_first_identity_match(old(watering_scheduler).spec_registry(), e, i)
                        ==> final(watering_scheduler).spec_registry() == old(watering_scheduler).spec_registry().remove(i) && eff == ScheduleCommandEffect::Stopped(
                        old(watering_scheduler).spec_registry()[i].1,
                    ))
            },
            WateringConfigCommand::Create(e) => {
                &&& (r is Ok <==> !spec_has_identity(old(watering_config)@, e))
                &&& (r is Ok ==> final(watering_config)@ == old(watering_config)@.push(e))
                &&& (r is Err ==> final(watering_config)@ == old(watering_config)@)
                &&& (r matches Ok(eff) ==> spec_reg_has_identity(
                    final(watering_scheduler).spec_registry(),
                    e,
                ) && exists|t: u64| eff == ScheduleCommandEffect::Started(e, t))
            },
        },
{
    match command {
        WateringConfigCommand::Enable(schedule) => {
            match watering_config.enable_schedule(&schedule) {
                Err(()) => Err(()),
                Ok(s) => {
                    match watering_scheduler.start_schedule(&s) {
                        Err(()) => Err(()),
                        Ok(t) => {
                            proof {
                                lemma_identity_carries(
                                    watering_scheduler.spec_registry(),
                                    s,
                                    schedule,
                                );
                            }
                            Ok(ScheduleCommandEffect::Started(s, t))
                        },
                    }
                },
            }
        },
        WateringConfigCommand::Disable(schedule) => {
            match watering_config.disable_schedule(&schedule) {
                Err(()) => Err(()),
                Ok(s) => {
                    proof {
                        lemma_identity_predicates_agree(
                            old(watering_scheduler).spec_registry(),
                            s,
                            schedule,
                        );
                    }
                    match watering_scheduler.stop_schedule(&s) {
                        Err(()) => Err(()),
                        Ok(t) => Ok(ScheduleCommandEffect::Stopped(t)),
                    }
                },
            }
        },
        WateringConfigCommand::Delete(schedule) => {
            match watering_config.delete_schedule(&schedule) {
                Err(()) => Err(()),
                Ok(s) => {
                    proof {
                        lemma_identity_predicates_agree(
                            old(watering_scheduler).spec_registry(),
                            s,
                            schedule,
                        );
                    }
                    match watering_scheduler.stop_schedule(&s) {
                        Err(()) => Err(()),
                        Ok(t) => Ok(ScheduleCommandEffect::Stopped(t)),
                    }
                },
            }
        },
        WateringConfigCommand::Create(schedule) => {
            match watering_config.create_schedule(schedule) {
                Err(()) => Err(()),
                Ok(s) => {
                    match watering_scheduler.start_schedule(&s) {
                        Err(()) => Err(()),
                        Ok(t) => {
                            proof {
                                lemma_identity_carries(
                                    watering_scheduler.spec_registry(),
                                    s,
                                    schedule,
                                );
                            }
                            Ok(ScheduleCommandEffect::Started(s, t))
                        },
                    }
                },
            }
        },
    }
}

/// A registry that holds the identity of `a` holds the identity of `b` when
/// `a` and `b` are the same schedule.
proof fn lemma_identity_carries(
    reg: Seq<(WateringScheduleConfig, u64)>,
    a: WateringScheduleConfig,
    b: WateringScheduleConfig,
)
    requires
        spec_same_identity(a, b),
        spec_reg_has_identity(reg, a),
    ensures
        spec_reg_has_identity(reg, b),
{
    let i = choose|i: int| 0 <= i < reg.len() && spec_same_identity(reg[i].0, a);
    assert(spec_same_identity(reg[i].0, b));
}

/// Entries with one identity are interchangeable in the registry lookup
/// predicates.
proof fn lemma_identity_predicates_agree(
    reg: Seq<(WateringScheduleConfig, u64)>,
    a: WateringScheduleConfig,
    b: WateringScheduleConfig,
)
    requires
        spec_same_identity(a, b),
    ensures
        spec_reg_has_identity(reg, a) == spec_reg_has_identity(reg, b),
        forall|i: int|
            spec_reg_first_identity_match(reg, a, i) == spec_reg_first_identity_match(reg, b, i),
{
    assert forall|i: int|
        0 <= i < reg.len() implies spec_same_identity(reg[i].0, a) == spec_same_identity(
        reg[i].0,
        b,
    ) by {}
    if spec_reg_has_identity(reg, a) {
        lemma_identity_carries(reg, a, b);
    }
    if spec_reg_has_identity(reg, b) {
        lemma_identity_carries(reg, b, a);
    }
    assert forall|i: int|
        spec_reg_first_identity_match(reg, a, i) == spec_reg_first_identity_match(
        reg,
        b,
        i,
    ) by {
        if spec_reg_first_identity_match(reg, a, i) {
            assert forall|j: int| 0 <= j < i implies !spec_same_identity(reg[j].0, b) by {
                assert(!spec_same_identity(reg[j].0, a));
            }
        }
        if spec_reg_first_identity_match(reg, b, i) {
            assert forall|j: int| 0 <= j < i implies !spec_same_identity(reg[j].0, a) by {
                assert(!spec_same_identity(reg[j].0, b));
            }
        }
    }
}

} // verus!
