//! The document form of the status reports published on the bus: the state
//! of every valve as one JSON document. The session that publishes it lives
//! with the runtime.

use vstd::prelude::*;

use crate::embedded::{LayoutStatus, ToggleValveStatus, ValveStatus};
use crate::schedule::persistence::{push_bytes, push_dec_u8, spec_dec_digits};

verus! {

pub open spec fn lit_status_open() -> Seq<u8> {
    seq![
        ('{' as u8), ('"' as u8), ('v' as u8), ('a' as u8), ('l' as u8), ('v' as u8),
        ('e' as u8), ('s' as u8), ('"' as u8), (':' as u8), ('[' as u8),
    ]
}

pub open spec fn lit_pin_number_key() -> Seq<u8> {
    seq![
        ('{' as u8), ('"' as u8), ('v' as u8), ('a' as u8), ('l' as u8), ('v' as u8),
        ('e' as u8), ('_' as u8), ('p' as u8), ('i' as u8), ('n' as u8), ('_' as u8),
        ('n' as u8), ('u' as u8), ('m' as u8), ('b' as u8), ('e' as u8), ('r' as u8),
        ('"' as u8), (':' as u8),
    ]
}

pub open spec fn lit_status_key() -> Seq<u8> {
    seq![
        (',' as u8), ('"' as u8), ('s' as u8), ('t' as u8), ('a' as u8), ('t' as u8),
        ('u' as u8), ('s' as u8), ('"' as u8), (':' as u8), ('"' as u8),
    ]
}

/// The name of a valve state in the document.
pub open spec fn spec_json_valve_state(s: ValveStatus) -> Seq<u8> {
    match s {
        ValveStatus::OPEN => seq![('O' as u8), ('P' as u8), ('E' as u8), ('N' as u8)],
        ValveStatus::CLOSED => seq![
            ('C' as u8), ('L' as u8), ('O' as u8), ('S' as u8), ('E' as u8), ('D' as u8),
        ],
    }
}

/// The document of one valve's status, grouped to the right so the leading
/// token peels off.
pub open spec fn spec_json_valve_status(v: ToggleValveStatus) -> Seq<u8> {
    lit_pin_number_key() + (spec_dec_digits(v.valve_pin_number.0 as nat) + (lit_status_key() + (
    spec_json_valve_state(v.status) + seq![('"' as u8), ('}' as u8)])))
}

/// The comma-separated documents of a sequence of valve statuses.
pub open spec fn spec_json_valve_statuses(s: Seq<ToggleValveStatus>) -> Seq<u8>
    decreases s.len(),
{
    if s.len() == 0 {
        Seq::<u8>::empty()
    } else if s.len() == 1 {
        spec_json_valve_status(s[0])
    } else {
        spec_json_valve_status(s[0]) + (seq![(',' as u8)] + spec_json_valve_statuses(
            s.drop_first(),
        ))
    }
}

/// The whole status document of a layout.
pub open spec fn spec_json_layout_status(s: Seq<ToggleValveStatus>) -> Seq<u8> {
    lit_status_open() + (spec_json_valve_statuses(s) + seq![(']' as u8), ('}' as u8)])
}

fn lit_status_open_vec() -> (r: Vec<u8>)
    ensures
        r@ == lit_status_open(),
{
    let mut v: Vec<u8> = Vec::new();
    v.push(('{' as u8));
    v.push(('"' as u8));
    v.push(('v' as u8));
    v.push(('a' as u8));
    v.push(('l' as u8));
    v.push(('v' as u8));
    v.push(('e' as u8));
    v.push(('s' as u8));
    v.push(('"' as u8));
    v.push((':' as u8));
    v.push(('[' as u8));
    proof {
        assert(v@ =~= lit_status_open());
    }
    v
}

fn lit_pin_number_key_vec() -> (r: Vec<u8>)
    ensures
        r@ == lit_pin_number_key(),
{
    let mut v: Vec<u8> = Vec::new();
    v.push(('{' as u8));
    v.push(('"' as u8));
    v.push(('v' as u8));
    v.push(('a' as u8));
    v.push(('l' as u8));
    v.push(('v' as u8));
    v.push(('e' as u8));
    v.push(('_' as u8));
    v.push(('p' as u8));
    v.push(('i' as u8));
    v.push(('n' as u8));
    v.push(('_' as u8));
    v.push(('n' as u8));
    v.push(('u' as u8));
    v.push(('m' as u8));
    v.push(('b' as u8));
    v.push(('e' as u8));
    v.push(('r' as u8));
    v.push(('"' as u8));
    v.push((':' as u8));
    proof {
        assert(v@ =~= lit_pin_number_key());
    }
    v
}

fn lit_status_key_vec() -> (r: Vec<u8>)
    ensures
        r@ == lit_status_key(),
{
    let mut v: Vec<u8> = Vec::new();
    v.push((',' as u8));
    v.push(('"' as u8));
    v.push(('s' as u8));
    v.push(('t' as u8));
    v.push(('a' as u8));
    v.push(('t' as u8));
    v.push(('u' as u8));
    v.push(('s' as u8));
    v.push(('"' as u8));
    v.push((':' as u8));
    v.push(('"' as u8));
    proof {
        assert(v@ =~= lit_status_key());
    }
    v
}

/// Append the name of one valve state.
fn push_valve_state(out: &mut Vec<u8>, s: ValveStatus)
    ensures
        final(out)@ == old(out)@ + spec_json_valve_state(s),
{
    match s {
        ValveStatus::OPEN => {
            out.push('O' as u8);
            out.push('P' as u8);
            out.push('E' as u8);
            out.push('N' as u8);
        },
        ValveStatus::CLOSED => {
            out.push('C' as u8);
            out.push('L' as u8);
            out.push('O' as u8);
            out.push('S' as u8);
            out.push('E' as u8);
            out.push('D' as u8);
        },
    }
    proof {
        assert(out@ =~= old(out)@ + spec_json_valve_state(s));
    }
}

/// Append the document of one valve's status.
fn push_valve_status(out: &mut Vec<u8>, v: &ToggleValveStatus)
    ensures
        final(out)@ == old(out)@ + spec_json_valve_status(*v),
{
    push_bytes(out, &lit_pin_number_key_vec());
    push_dec_u8(out, v.valve_pin_number.0);
    push_bytes(out, &lit_status_key_vec());
    push_valve_state(out, v.status);
    out.push('"' as u8);
    out.push('}' as u8);
    proof {
        assert(out@ =~= old(out)@ + spec_json_valve_status(*v));
    }
}

/// Append the documents of `valves[i..]`, comma separated.
fn push_valve_statuses(out: &mut Vec<u8>, valves: &Vec<ToggleValveStatus>, i: usize)
    requires
        i <= valves@.len(),
    ensures
        final(out)@ == old(out)@ + spec_json_valve_statuses(valves@.skip(i as int)),
    decreases valves@.len() - i,
{
    if i < valves.len() {
        push_valve_status(out, &valves[i]);
        proof {
            assert(valves@.skip(i as int)[0] == valves@[i as int]);
        }
        if i + 1 < valves.len() {
            out.push(',' as u8);
            push_valve_statuses(out, valves, i + 1);
            proof {
                assert(valves@.skip(i as int).drop_first() =~= valves@.skip(i as int + 1));
                assert(out@ =~= old(out)@ + spec_json_valve_statuses(valves@.skip(i as int)));
            }
        } else {
            proof {
                assert(valves@.skip(i as int).len() == 1);
                assert(out@ =~= old(out)@ + spec_json_valve_statuses(valves@.skip(i as int)));
            }
        }
    } else {
        proof {
            assert(valves@.skip(i as int).len() == 0);
            assert(out@ =~= old(out)@ + spec_json_valve_statuses(valves@.skip(i as int)));
        }
    }
}

impl LayoutStatus {
    /// The published document of this status report: every valve's pin
    /// number and state, in layout order.
    pub fn to_json(&self) -> (r: Vec<u8>)
        ensures
            r@ == spec_json_layout_status(self.valves@),
    {
        let mut out = lit_status_open_vec();
        push_valve_statuses(&mut out, &self.valves, 0);
        out.push(']' as u8);
        out.push('}' as u8);
        proof {
            assert(self.valves@.skip(0) =~= self.valves@);
            assert(out@ =~= spec_json_layout_status(self.valves@));
        }
        out
    }
}

} // verus!
