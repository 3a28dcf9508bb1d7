//! Decoding of inbound bus messages: which command topic a message arrived
//! on, and the valve number or schedule entry its payload carries. The
//! session that receives the messages lives with the runtime.

use vstd::prelude::*;
use vstd::slice::slice_index_get;
use vstd::string::StringSliceAdditionalSpecFns;

use crate::embedded::ValvePinNumber;
use crate::schedule::configuration::WateringScheduleConfig;
use crate::schedule::persistence::{parse_entry, parse_u8, spec_parse_entry, spec_parse_u8};

verus! {

/// `suffix` is the tail of `s`.
pub open spec fn spec_ends_with(s: Seq<u8>, suffix: Seq<u8>) -> bool {
    s.len() >= suffix.len() && s.subrange(s.len() - suffix.len(), s.len() as int) == suffix
}

/// Whether the byte sequence `s` ends with `suffix`.
fn bytes_ends_with(s: &[u8], suffix: &[u8]) -> (r: bool)
    ensures
        r == spec_ends_with(s@, suffix@),
{
    let n = s.len();
    let m = suffix.len();
    if n < m {
        return false;
    }
    let mut k: usize = 0;
    while k < m
        invariant
            m <= n,
            n == s@.len(),
            m == suffix@.len(),
            k <= m,
            forall|t: int| 0 <= t < k ==> s@[n - m + t] == suffix@[t],
        decreases m - k,
    {
        let a = *slice_index_get(s, n - m + k);
        let b = *slice_index_get(suffix, k);
        if a != b {
            proof {
                if spec_ends_with(s@, suffix@) {
                    assert(s@.subrange(s@.len() - suffix@.len(), s@.len() as int)[k as int] == s@[
                        n - m + k
                    ]);
                }
            }
            return false;
        }
        k = k + 1;
    }
    proof {
        assert(s@.subrange(s@.len() - suffix@.len(), s@.len() as int) =~= suffix@);
    }
    true
}

/// The message asks to open a valve.
pub fn is_valve_open_topic(topic: &str) -> (r: bool)
    ensures
        r == spec_ends_with(
            topic.spec_bytes(),
            "/garden-butler/command/layout/open".spec_bytes(),
        ),
{
    bytes_ends_with(topic.as_bytes(), "/garden-butler/command/layout/open".as_bytes())
}

/// The message asks to close a valve.
pub fn is_valve_close_topic(topic: &str) -> (r: bool)
    ensures
        r == spec_ends_with(
            topic.spec_bytes(),
            "/garden-butler/command/layout/close".spec_bytes(),
        ),
{
    bytes_ends_with(topic.as_bytes(), "/garden-butler/command/layout/close".as_bytes())
}

/// The message asks to enable a schedule.
pub fn is_schedule_enable_topic(topic: &str) -> (r: bool)
    ensures
        r == spec_ends_with(
            topic.spec_bytes(),
            "/garden-butler/command/watering-schedule/enable".spec_bytes(),
        ),
{
    bytes_ends_with(
        topic.as_bytes(),
        "/garden-butler/command/watering-schedule/enable".as_bytes(),
    )
}

/// The message asks to disable a schedule.
pub fn is_schedule_disable_topic(topic: &str) -> (r: bool)
    ensures
        r == spec_ends_with(
            topic.spec_bytes(),
            "/garden-butler/command/watering-schedule/disable".spec_bytes(),
        ),
{
    bytes_ends_with(
        topic.as_bytes(),
        "/garden-butler/command/watering-schedule/disable".as_bytes(),
    )
}

/// The message asks to delete a schedule.
pub fn is_schedule_delete_topic(topic: &str) -> (r: bool)
    ensures
        r == spec_ends_with(
            topic.spec_bytes(),
            "/garden-butler/command/watering-schedule/delete".spec_bytes(),
        ),
{
    bytes_ends_with(
        topic.as_bytes(),
        "/garden-butler/command/watering-schedule/delete".as_bytes(),
    )
}

/// The message asks to create a schedule.
pub fn is_schedule_create_topic(topic: &str) -> (r: bool)
    ensures
        r == spec_ends_with(
            topic.spec_bytes(),
            "/garden-butler/command/watering-schedule/create".spec_bytes(),
        ),
{
    bytes_ends_with(
        topic.as_bytes(),
        "/garden-butler/command/watering-schedule/create".as_bytes(),
    )
}

/// The valve number carried by an open or close message: the whole payload
/// as one unsigned decimal number that fits a byte, and nothing else.
pub fn get_valve_pin_num_from_message(payload: &Vec<u8>) -> (r: Result<ValvePinNumber, ()>)
    ensures
        match r {
            Ok(pin) => spec_parse_u8(payload@, 0) == Some((pin.0, payload@.len() as int)),
            Err(()) => spec_parse_u8(payload@, 0) is None || (spec_parse_u8(payload@, 0)
                matches Some(p) && p.1 != payload@.len()),
        },
{
    match parse_u8(payload, 0) {
        Some((v, j)) => {
            if j == payload.len() {
                Ok(ValvePinNumber(v))
            } else {
                Err(())
            }
        },
        None => Err(()),
    }
}

/// The schedule entry carried by a schedule command message: the whole
/// payload as one entry document in the store's canonical persisted form,
/// and nothing else.
pub fn get_schedule_config_from_message(payload: &Vec<u8>) -> (r: Result<
    WateringScheduleConfig,
    (),
>)
    ensures
        match r {
            Ok(e) => spec_parse_entry(payload@, 0) == Some((e, payload@.len() as int)),
            Err(()) => spec_parse_entry(payload@, 0) is None || (spec_parse_entry(payload@, 0)
                matches Some(p) && p.1 != payload@.len()),
        },
{
    match parse_entry(payload, 0) {
        Some((e, j)) => {
            if j == payload.len() {
                Ok(e)
            } else {
                Err(())
            }
        },
        None => Err(()),
    }
}

} // verus!
