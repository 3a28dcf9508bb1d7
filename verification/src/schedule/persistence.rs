//! The persisted form of the schedule store: a single JSON document holding
//! the list of entries, rewritten wholesale on every mutation and read back
//! wholesale at startup.
//!
//! The document grammar is fixed: object keys appear in declaration order
//! and no whitespace stands between tokens, exactly as this module emits it.
//! `to_json` produces that canonical form and `from_json` reads it back;
//! `lemma_store_roundtrip` proves that reading what was written yields the
//! entries that were written, byte for byte and entry for entry.

use vstd::prelude::*;

use crate::schedule::configuration::{ScheduleConfig, WateringScheduleConfig, WateringScheduleConfigs};

verus! {

// ---------------------------------------------------------------------------
// The tokens of the document, as byte sequences.
// ---------------------------------------------------------------------------

pub open spec fn lit_store_open() -> Seq<u8> {
    seq![
        ('{' as u8), ('"' as u8), ('s' as u8), ('c' as u8), ('h' as u8), ('e' as u8),
        ('d' as u8), ('u' as u8), ('l' as u8), ('e' as u8), ('s' as u8), ('"' as u8),
        (':' as u8), ('[' as u8),
    ]
}

pub open spec fn lit_entry_open() -> Seq<u8> {
    seq![
        ('{' as u8), ('"' as u8), ('s' as u8), ('c' as u8), ('h' as u8), ('e' as u8),
        ('d' as u8), ('u' as u8), ('l' as u8), ('e' as u8), ('"' as u8), (':' as u8),
        ('{' as u8), ('"' as u8), ('s' as u8), ('t' as u8), ('a' as u8), ('r' as u8),
        ('t' as u8), ('_' as u8), ('h' as u8), ('o' as u8), ('u' as u8), ('r' as u8),
        ('"' as u8), (':' as u8),
    ]
}

pub open spec fn lit_start_minute_key() -> Seq<u8> {
    seq![
        (',' as u8), ('"' as u8), ('s' as u8), ('t' as u8), ('a' as u8), ('r' as u8),
        ('t' as u8), ('_' as u8), ('m' as u8), ('i' as u8), ('n' as u8), ('u' as u8),
        ('t' as u8), ('e' as u8), ('"' as u8), (':' as u8),
    ]
}

pub open spec fn lit_end_hour_key() -> Seq<u8> {
    seq![
        (',' as u8), ('"' as u8), ('e' as u8), ('n' as u8), ('d' as u8), ('_' as u8),
        ('h' as u8), ('o' as u8), ('u' as u8), ('r' as u8), ('"' as u8), (':' as u8),
    ]
}

pub open spec fn lit_end_minute_key() -> Seq<u8> {
    seq![
        (',' as u8), ('"' as u8), ('e' as u8), ('n' as u8), ('d' as u8), ('_' as u8),
        ('m' as u8), ('i' as u8), ('n' as u8), ('u' as u8), ('t' as u8), ('e' as u8),
        ('"' as u8), (':' as u8),
    ]
}

pub open spec fn lit_valve_key() -> Seq<u8> {
    seq![
        ('}' as u8), (',' as u8), ('"' as u8), ('v' as u8), ('a' as u8), ('l' as u8),
        ('v' as u8), ('e' as u8), ('"' as u8), (':' as u8),
    ]
}

pub open spec fn lit_enabled_key() -> Seq<u8> {
    seq![
        (',' as u8), ('"' as u8), ('e' as u8), ('n' as u8), ('a' as u8), ('b' as u8),
        ('l' as u8), ('e' as u8), ('d' as u8), ('"' as u8), (':' as u8),
    ]
}

pub open spec fn lit_true() -> Seq<u8> {
    seq![('t' as u8), ('r' as u8), ('u' as u8), ('e' as u8)]
}

pub open spec fn lit_false() -> Seq<u8> {
    seq![('f' as u8), ('a' as u8), ('l' as u8), ('s' as u8), ('e' as u8)]
}

// ---------------------------------------------------------------------------
// What the document of a store is, mathematically.
// ---------------------------------------------------------------------------

/// The decimal digits of `n`, most significant first, no sign, no leading
/// zeros (a single `0` for zero).
pub open spec fn spec_dec_digits(n: nat) -> Seq<u8>
    decreases n,
{
    if n < 10 {
        seq![(48 + n) as u8]
    } else {
        spec_dec_digits(n / 10).push((48 + n % 10) as u8)
    }
}

pub open spec fn spec_json_bool(v: bool) -> Seq<u8> {
    if v {
        lit_true()
    } else {
        lit_false()
    }
}

/// The document of one entry. The grouping of the concatenation is nested
/// to the right so that the leading token can be peeled off one at a time.
pub open spec fn spec_json_entry(e: WateringScheduleConfig) -> Seq<u8> {
    lit_entry_open() + (spec_dec_digits(e.schedule.start_hour as nat) + (lit_start_minute_key()
        + (spec_dec_digits(e.schedule.start_minute as nat) + (lit_end_hour_key()
        + (spec_dec_digits(e.schedule.end_hour as nat) + (lit_end_minute_key()
        + (spec_dec_digits(e.schedule.end_minute as nat) + (lit_valve_key() + (spec_dec_digits(
        e.valve as nat,
    ) + (lit_enabled_key() + (spec_json_bool(e.enabled) + seq![('}' as u8)])))))))))))
}

/// The comma-separated documents of a sequence of entries.
pub open spec fn spec_json_entries(s: Seq<WateringScheduleConfig>) -> Seq<u8>
    decreases s.len(),
{
    if s.len() == 0 {
        Seq::<u8>::empty()
    } else if s.len() == 1 {
        spec_json_entry(s[0])
    } else {
        spec_json_entry(s[0]) + (seq![(',' as u8)] + spec_json_entries(s.drop_first()))
    }
}

/// The whole persisted document of a store.
pub open spec fn spec_json_store(s: Seq<WateringScheduleConfig>) -> Seq<u8> {
    lit_store_open() + (spec_json_entries(s) + seq![(']' as u8), ('}' as u8)])
}

// ---------------------------------------------------------------------------
// Emission.
// ---------------------------------------------------------------------------

/// Append a copy of `lit` to `out`.
pub(crate) fn push_bytes(out: &mut Vec<u8>, lit: &Vec<u8>)
    ensures
        final(out)@ == old(out)@ + lit@,
{
    let n = lit.len();
    let mut k: usize = 0;
    while k < n
        invariant
            n == lit@.len(),
            k <= n,
            out@ == old(out)@ + lit@.take(k as int),
        decreases n - k,
    {
        out.push(lit[k]);
        proof {
            assert(out@ =~= old(out)@ + lit@.take(k as int + 1));
        }
        k = k + 1;
    }
    proof {
        assert(out@ =~= old(out)@ + lit@);
    }
}

/// A fresh buffer holding exactly `lit_store_open()`.
fn lit_store_open_vec() -> (r: Vec<u8>)
    ensures
        r@ == lit_store_open(),
{
    let mut v: Vec<u8> = Vec::new();
    v.push(('{' as u8));
    v.push(('"' as u8));
    v.push(('s' as u8));
    v.push(('c' as u8));
    v.push(('h' as u8));
    v.push(('e' as u8));
    v.push(('d' as u8));
    v.push(('u' as u8));
    v.push(('l' as u8));
    v.push(('e' as u8));
    v.push(('s' as u8));
    v.push(('"' as u8));
    v.push((':' as u8));
    v.push(('[' as u8));
    proof {
        assert(v@ =~= lit_store_open());
    }
    v
}

/// A fresh buffer holding exactly `lit_entry_open()`.
fn lit_entry_open_vec() -> (r: Vec<u8>)
    ensures
        r@ == lit_entry_open(),
{
    let mut v: Vec<u8> = Vec::new();
    v.push(('{' as u8));
    v.push(('"' as u8));
    v.push(('s' as u8));
    v.push(('c' as u8));
    v.push(('h' as u8));
    v.push(('e' as u8));
    v.push(('d' as u8));
    v.push(('u' as u8));
    v.push(('l' as u8));
    v.push(('e' as u8));
    v.push(('"' as u8));
    v.push((':' as u8));
    v.push(('{' as u8));
    v.push(('"' as u8));
    v.push(('s' as u8));
    v.push(('t' as u8));
    v.push(('a' as u8));
    v.push(('r' as u8));
    v.push(('t' as u8));
    v.push(('_' as u8));
    v.push(('h' as u8));
    v.push(('o' as u8));
    v.push(('u' as u8));
    v.push(('r' as u8));
    v.push(('"' as u8));
    v.push((':' as u8));
    proof {
        assert(v@ =~= lit_entry_open());
    }
    v
}

/// A fresh buffer holding exactly `lit_start_minute_key()`.
fn lit_start_minute_key_vec() -> (r: Vec<u8>)
    ensures
        r@ == lit_start_minute_key(),
{
    let mut v: Vec<u8> = Vec::new();
    v.push((',' as u8));
    v.push(('"' as u8));
    v.push(('s' as u8));
    v.push(('t' as u8));
    v.push(('a' as u8));
    v.push(('r' as u8));
    v.push(('t' as u8));
    v.push(('_' as u8));
    v.push(('m' as u8));
    v.push(('i' as u8));
    v.push(('n' as u8));
    v.push(('u' as u8));
    v.push(('t' as u8));
    v.push(('e' as u8));
    v.push(('"' as u8));
    v.push((':' as u8));
    proof {
        assert(v@ =~= lit_start_minute_key());
    }
    v
}

/// A fresh buffer holding exactly `lit_end_hour_key()`.
fn lit_end_hour_key_vec() -> (r: Vec<u8>)
    ensures
        r@ == lit_end_hour_key(),
{
    let mut v: Vec<u8> = Vec::new();
    v.push((',' as u8));
    v.push(('"' as u8));
    v.push(('e' as u8));
    v.push(('n' as u8));
    v.push(('d' as u8));
    v.push(('_' as u8));
    v.push(('h' as u8));
    v.push(('o' as u8));
    v.push(('u' as u8));
    v.push(('r' as u8));
    v.push(('"' as u8));
    v.push((':' as u8));
    proof {
        assert(v@ =~= lit_end_hour_key());
    }
    v
}

/// A fresh buffer holding exactly `lit_end_minute_key()`.
fn lit_end_minute_key_vec() -> (r: Vec<u8>)
    ensures
        r@ == lit_end_minute_key(),
{
    let mut v: Vec<u8> = Vec::new();
    v.push((',' as u8));
    v.push(('"' as u8));
    v.push(('e' as u8));
    v.push(('n' as u8));
    v.push(('d' as u8));
    v.push(('_' as u8));
    v.push(('m' as u8));
    v.push(('i' as u8));
    v.push(('n' as u8));
    v.push(('u' as u8));
    v.push(('t' as u8));
    v.push(('e' as u8));
    v.push(('"' as u8));
    v.push((':' as u8));
    proof {
        assert(v@ =~= lit_end_minute_key());
    }
    v
}

/// A fresh buffer holding exactly `lit_valve_key()`.
fn lit_valve_key_vec() -> (r: Vec<u8>)
    ensures
        r@ == lit_valve_key(),
{
    let mut v: Vec<u8> = Vec::new();
    v.push(('}' as u8));
    v.push((',' as u8));
    v.push(('"' as u8));
    v.push(('v' as u8));
    v.push(('a' as u8));
    v.push(('l' as u8));
    v.push(('v' as u8));
    v.push(('e' as u8));
    v.push(('"' as u8));
    v.push((':' as u8));
    proof {
        assert(v@ =~= lit_valve_key());
    }
    v
}

/// A fresh buffer holding exactly `lit_enabled_key()`.
fn lit_enabled_key_vec() -> (r: Vec<u8>)
    ensures
        r@ == lit_enabled_key(),
{
    let mut v: Vec<u8> = Vec::new();
    v.push((',' as u8));
    v.push(('"' as u8));
    v.push(('e' as u8));
    v.push(('n' as u8));
    v.push(('a' as u8));
    v.push(('b' as u8));
    v.push(('l' as u8));
    v.push(('e' as u8));
    v.push(('d' as u8));
    v.push(('"' as u8));
    v.push((':' as u8));
    proof {
        assert(v@ =~= lit_enabled_key());
    }
    v
}

/// A fresh buffer holding exactly `lit_true()`.
fn lit_true_vec() -> (r: Vec<u8>)
    ensures
        r@ == lit_true(),
{
    let mut v: Vec<u8> = Vec::new();
    v.push(('t' as u8));
    v.push(('r' as u8));
    v.push(('u' as u8));
    v.push(('e' as u8));
    proof {
        assert(v@ =~= lit_true());
    }
    v
}

/// A fresh buffer holding exactly `lit_false()`.
fn lit_false_vec() -> (r: Vec<u8>)
    ensures
        r@ == lit_false(),
{
    let mut v: Vec<u8> = Vec::new();
    v.push(('f' as u8));
    v.push(('a' as u8));
    v.push(('l' as u8));
    v.push(('s' as u8));
    v.push(('e' as u8));
    proof {
        assert(v@ =~= lit_false());
    }
    v
}

/// Append the decimal digits of `n`.
pub(crate) fn push_dec_u8(out: &mut Vec<u8>, n: u8)
    ensures
        final(out)@ == old(out)@ + spec_dec_digits(n as nat),
{
    proof {
        reveal_with_fuel(spec_dec_digits, 4);
    }
    if n >= 100 {
        out.push(48 + n / 100);
    }
    if n >= 10 {
        out.push(48 + (n / 10) % 10);
    }
    out.push(48 + n % 10);
    proof {
        if n < 10 {
            assert(out@ =~= old(out)@ + spec_dec_digits(n as nat));
        } else if n < 100 {
            assert(spec_dec_digits((n / 10) as nat) == seq![(48 + n / 10) as u8]);
            assert((n / 10) % 10 == n / 10);
            assert(out@ =~= old(out)@ + spec_dec_digits(n as nat));
        } else {
            assert((n as nat / 10) / 10 == n as nat / 100) by (nonlinear_arith);
            assert(spec_dec_digits((n / 100) as nat) == seq![(48 + n / 100) as u8]);
            assert(out@ =~= old(out)@ + spec_dec_digits(n as nat));
        }
    }
}

/// Append `true` or `false`.
fn push_json_bool(out: &mut Vec<u8>, v: bool)
    ensures
        final(out)@ == old(out)@ + spec_json_bool(v),
{
    if v {
        push_bytes(out, &lit_true_vec());
    } else {
        push_bytes(out, &lit_false_vec());
    }
}

/// Append the document of one entry.
#[verifier::rlimit(100)]
fn push_entry(out: &mut Vec<u8>, e: &WateringScheduleConfig)
    ensures
        final(out)@ == old(out)@ + spec_json_entry(*e),
{
    push_bytes(out, &lit_entry_open_vec());
    push_dec_u8(out, e.schedule.start_hour);
    push_bytes(out, &lit_start_minute_key_vec());
    push_dec_u8(out, e.schedule.start_minute);
    push_bytes(out, &lit_end_hour_key_vec());
    push_dec_u8(out, e.schedule.end_hour);
    push_bytes(out, &lit_end_minute_key_vec());
    push_dec_u8(out, e.schedule.end_minute);
    push_bytes(out, &lit_valve_key_vec());
    push_dec_u8(out, e.valve);
    push_bytes(out, &lit_enabled_key_vec());
    push_json_bool(out, e.enabled);
    out.push('}' as u8);
    proof {
        assert(out@ =~= old(out)@ + spec_json_entry(*e));
    }
}

/// Append the documents of `entries[i..]`, comma separated.
fn push_entries(out: &mut Vec<u8>, entries: &Vec<WateringScheduleConfig>, i: usize)
    requires
        i <= entries@.len(),
    ensures
        final(out)@ == old(out)@ + spec_json_entries(entries@.skip(i as int)),
    decreases entries@.len() - i,
{
    if i < entries.len() {
        push_entry(out, &entries[i]);
        proof {
            assert(entries@.skip(i as int)[0] == entries@[i as int]);
        }
        if i + 1 < entries.len() {
            out.push(',' as u8);
            push_entries(out, entries, i + 1);
            proof {
                assert(entries@.skip(i as int).drop_first() =~= entries@.skip(i as int + 1));
                assert(out@ =~= old(out)@ + spec_json_entries(entries@.skip(i as int)));
            }
        } else {
            proof {
                assert(entries@.skip(i as int).len() == 1);
                assert(out@ =~= old(out)@ + spec_json_entries(entries@.skip(i as int)));
            }
        }
    } else {
        proof {
            assert(entries@.skip(i as int).len() == 0);
            assert(out@ =~= old(out)@ + spec_json_entries(entries@.skip(i as int)));
        }
    }
}

impl WateringScheduleConfigs {
    /// The canonical persisted document of this store.
    pub fn to_json(&self) -> (r: Vec<u8>)
        ensures
            r@ == spec_json_store(self@),
    {
        let mut out = lit_store_open_vec();
        push_entries(&mut out, &self.schedules, 0);
        out.push(']' as u8);
        out.push('}' as u8);
        proof {
            assert(self.schedules@.skip(0) =~= self@);
            assert(out@ =~= spec_json_store(self@));
        }
        out
    }
}

// ---------------------------------------------------------------------------
// Parsing: what a document means, mathematically.
// ---------------------------------------------------------------------------

pub open spec fn spec_is_digit(c: u8) -> bool {
    48 <= c <= 57
}

/// `lit` stands in `b` at position `i`.
pub open spec fn spec_match_at(b: Seq<u8>, i: int, lit: Seq<u8>) -> bool {
    0 <= i && i + lit.len() <= b.len() && b.subrange(i, i + lit.len() as int) == lit
}

/// Consume `lit` at position `i`: the position after it, or nothing.
pub open spec fn spec_parse_lit(b: Seq<u8>, i: int, lit: Seq<u8>) -> Option<int> {
    if spec_match_at(b, i, lit) {
        Some(i + lit.len() as int)
    } else {
        None
    }
}

/// Consume the longest run of decimal digits from `i`, folding them onto
/// `acc`; the value and the position after the run.
pub open spec fn spec_parse_digits(b: Seq<u8>, i: int, acc: nat) -> (nat, int)
    decreases b.len() - i,
{
    if 0 <= i < b.len() && spec_is_digit(b[i]) {
        spec_parse_digits(b, i + 1, acc * 10 + (b[i] - 48) as nat)
    } else {
        (acc, i)
    }
}

/// Consume an unsigned decimal number that fits a byte: at least one digit,
/// value at most 255.
pub open spec fn spec_parse_u8(b: Seq<u8>, i: int) -> Option<(u8, int)> {
    let (v, j) = spec_parse_digits(b, i, 0);
    if j == i || v > 255 {
        None
    } else {
        Some((v as u8, j))
    }
}

/// Consume `true` or `false`.
pub open spec fn spec_parse_bool(b: Seq<u8>, i: int) -> Option<(bool, int)> {
    if spec_match_at(b, i, lit_true()) {
        Some((true, i + 4))
    } else if spec_match_at(b, i, lit_false()) {
        Some((false, i + 5))
    } else {
        None
    }
}

/// The byte `c` stands in `b` at position `i`.
pub open spec fn spec_byte_at(b: Seq<u8>, i: int, c: u8) -> bool {
    0 <= i < b.len() && b[i] == c
}

/// Consume the document of one entry.
pub open spec fn spec_parse_entry(b: Seq<u8>, i: int) -> Option<(WateringScheduleConfig, int)> {
    match spec_parse_lit(b, i, lit_entry_open()) {
        None => None,
        Some(j1) => match spec_parse_u8(b, j1) {
            None => None,
            Some((sh, j2)) => match spec_parse_lit(b, j2, lit_start_minute_key()) {
                None => None,
                Some(j3) => match spec_parse_u8(b, j3) {
                    None => None,
                    Some((sm, j4)) => match spec_parse_lit(b, j4, lit_end_hour_key()) {
                        None => None,
                        Some(j5) => match spec_parse_u8(b, j5) {
                            None => None,
                            Some((eh, j6)) => match spec_parse_lit(b, j6, lit_end_minute_key()) {
                                None => None,
                                Some(j7) => match spec_parse_u8(b, j7) {
                                    None => None,
                                    Some((em, j8)) => match spec_parse_lit(b, j8, lit_valve_key()) {
                                        None => None,
                                        Some(j9) => match spec_parse_u8(b, j9) {
                                            None => None,
                                            Some((va, j10)) => match spec_parse_lit(
                                                b,
                                                j10,
                                                lit_enabled_key(),
                                            ) {
                                                None => None,
                                                Some(j11) => match spec_parse_bool(b, j11) {
                                                    None => None,
                                                    Some((en, j12)) => {
                                                        if spec_byte_at(b, j12, ('}' as u8)) {
                                                            Some(
                                                                (
                                                                    WateringScheduleConfig {
                                                                        schedule: ScheduleConfig {
                                                                            start_hour: sh,
                                                                            start_minute: sm,
                                                                            end_hour: eh,
                                                                            end_minute: em,
                                                                        },
                                                                        valve: va,
                                                                        enabled: en,
                                                                    },
                                                                    j12 + 1,
                                                                ),
                                                            )
                                                        } else {
                                                            None
                                                        }
                                                    },
                                                },
                                            },
                                        },
                                    },
                                },
                            },
                        },
                    },
                },
            },
        },
    }
}

/// Consume one or more comma-separated entries followed by the closing `]`.
pub open spec fn spec_parse_entry_list(b: Seq<u8>, i: int) -> Option<
    (Seq<WateringScheduleConfig>, int),
>
    decreases b.len() - i,
{
    match spec_parse_entry(b, i) {
        None => None,
        Some((e, j)) => {
            if spec_byte_at(b, j, (',' as u8)) {
                if j + 1 <= i {
                    // an entry document is never empty, so a parse that did
                    // not advance is malformed; this guard also bounds the
                    // recursion
                    None
                } else {
                    match spec_parse_entry_list(b, j + 1) {
                        None => None,
                        Some((rest, k)) => Some((seq![e] + rest, k)),
                    }
                }
            } else if spec_byte_at(b, j, (']' as u8)) {
                Some((seq![e], j + 1))
            } else {
                None
            }
        },
    }
}

/// The entries of a whole document, when `b` is exactly one well-formed
/// store document and nothing else.
pub open spec fn spec_parse_store(b: Seq<u8>) -> Option<Seq<WateringScheduleConfig>> {
    match spec_parse_lit(b, 0, lit_store_open()) {
        None => None,
        Some(j) => {
            if spec_byte_at(b, j, (']' as u8)) {
                if spec_byte_at(b, j + 1, ('}' as u8)) && j + 2 == b.len() {
                    Some(Seq::empty())
                } else {
                    None
                }
            } else {
                match spec_parse_entry_list(b, j) {
                    None => None,
                    Some((s, k)) => {
                        if spec_byte_at(b, k, ('}' as u8)) && k + 1 == b.len() {
                            Some(s)
                        } else {
                            None
                        }
                    },
                }
            }
        },
    }
}

// ---------------------------------------------------------------------------
// Parsing: the executable reader.
// ---------------------------------------------------------------------------

/// The folded value of a digit run only grows as digits are consumed.
proof fn lemma_parse_digits_monotone(b: Seq<u8>, i: int, acc: nat)
    ensures
        spec_parse_digits(b, i, acc).0 >= acc,
    decreases b.len() - i,
{
    if 0 <= i < b.len() && spec_is_digit(b[i]) {
        let acc2 = acc * 10 + (b[i] - 48) as nat;
        assert(acc2 >= acc);
        lemma_parse_digits_monotone(b, i + 1, acc2);
    }
}

/// Whether `lit` stands in `b` at position `i`.
fn match_lit(b: &Vec<u8>, i: usize, lit: &Vec<u8>) -> (r: bool)
    requires
        i <= b@.len(),
    ensures
        r == spec_match_at(b@, i as int, lit@),
{
    if b.len() - i < lit.len() {
        return false;
    }
    let n = lit.len();
    proof {
        assert(b@.len() <= usize::MAX);
    }
    let mut k: usize = 0;
    while k < n
        invariant
            i + n <= b@.len(),
            b@.len() <= usize::MAX,
            n == lit@.len(),
            k <= n,
            forall|t: int| 0 <= t < k ==> b@[i + t] == lit@[t],
        decreases n - k,
    {
        if b[i + k] != lit[k] {
            proof {
                if spec_match_at(b@, i as int, lit@) {
                    assert(b@.subrange(i as int, i as int + lit@.len() as int)[k as int] == b@[
                        i as int + k as int
                    ]);
                }
            }
            return false;
        }
        k = k + 1;
    }
    proof {
        assert(b@.subrange(i as int, i as int + lit@.len() as int) =~= lit@);
    }
    true
}

/// Consume `lit` at position `i`.
fn expect_lit(b: &Vec<u8>, i: usize, lit: &Vec<u8>) -> (r: Option<usize>)
    requires
        i <= b@.len(),
    ensures
        match r {
            Some(j) => spec_parse_lit(b@, i as int, lit@) == Some(j as int) && i <= j <= b@.len(),
            None => spec_parse_lit(b@, i as int, lit@) is None,
        },
{
    // bind the length so its usize bound is in scope for the index arithmetic
    let _blen = b.len();
    if match_lit(b, i, lit) {
        Some(i + lit.len())
    } else {
        None
    }
}

/// Whether the byte `c` stands in `b` at position `i`.
fn byte_at(b: &Vec<u8>, i: usize, c: u8) -> (r: bool)
    ensures
        r == spec_byte_at(b@, i as int, c),
{
    i < b.len() && b[i] == c
}

/// Consume an unsigned decimal number that fits a byte.
pub(crate) fn parse_u8(b: &Vec<u8>, i: usize) -> (r: Option<(u8, usize)>)
    requires
        i <= b@.len(),
    ensures
        match r {
            Some((v, j)) => spec_parse_u8(b@, i as int) == Some((v, j as int)) && i < j <= b@.len(),
            None => spec_parse_u8(b@, i as int) is None,
        },
{
    let n = b.len();
    let mut j: usize = i;
    let mut acc: u32 = 0;
    while j < n && 48 <= b[j] && b[j] <= 57
        invariant
            i <= j <= n,
            n == b@.len(),
            acc <= 255,
            spec_parse_digits(b@, i as int, 0) == spec_parse_digits(b@, j as int, acc as nat),
        decreases n - j,
    {
        let d: u32 = (b[j] - 48) as u32;
        let new_acc: u32 = acc * 10 + d;
        proof {
            assert(spec_parse_digits(b@, j as int, acc as nat) == spec_parse_digits(
                b@,
                j as int + 1,
                acc as nat * 10 + (b@[j as int] - 48) as nat,
            ));
        }
        j = j + 1;
        if new_acc > 255 {
            proof {
                lemma_parse_digits_monotone(b@, j as int, new_acc as nat);
            }
            return None;
        }
        acc = new_acc;
    }
    if j == i {
        return None;
    }
    Some((acc as u8, j))
}

/// Consume `true` or `false`.
fn parse_bool(b: &Vec<u8>, i: usize) -> (r: Option<(bool, usize)>)
    requires
        i <= b@.len(),
    ensures
        match r {
            Some((v, j)) => spec_parse_bool(b@, i as int) == Some((v, j as int)) && i < j
                <= b@.len(),
            None => spec_parse_bool(b@, i as int) is None,
        },
{
    // bind the length so its usize bound is in scope for the index arithmetic
    let _blen = b.len();
    if match_lit(b, i, &lit_true_vec()) {
        Some((true, i + 4))
    } else if match_lit(b, i, &lit_false_vec()) {
        Some((false, i + 5))
    } else {
        None
    }
}

/// Consume the document of one entry.
pub(crate) fn parse_entry(b: &Vec<u8>, i: usize) -> (r: Option<(WateringScheduleConfig, usize)>)
    requires
        i <= b@.len(),
    ensures
        match r {
            Some((e, j)) => spec_parse_entry(b@, i as int) == Some((e, j as int)) && i < j
                <= b@.len(),
            None => spec_parse_entry(b@, i as int) is None,
        },
{
    // bind the length so its usize bound is in scope for the index arithmetic
    let _blen = b.len();
    let j1 = match expect_lit(b, i, &lit_entry_open_vec()) {
        Some(j) => j,
        None => {
            return None;
        },
    };
    let (sh, j2) = match parse_u8(b, j1) {
        Some(p) => p,
        None => {
            return None;
        },
    };
    let j3 = match expect_lit(b, j2, &lit_start_minute_key_vec()) {
        Some(j) => j,
        None => {
            return None;
        },
    };
    let (sm, j4) = match parse_u8(b, j3) {
        Some(p) => p,
        None => {
            return None;
        },
    };
    let j5 = match expect_lit(b, j4, &lit_end_hour_key_vec()) {
        Some(j) => j,
        None => {
            return None;
        },
    };
    let (eh, j6) = match parse_u8(b, j5) {
        Some(p) => p,
        None => {
            return None;
        },
    };
    let j7 = match expect_lit(b, j6, &lit_end_minute_key_vec()) {
        Some(j) => j,
        None => {
            return None;
        },
    };
    let (em, j8) = match parse_u8(b, j7) {
        Some(p) => p,
        None => {
            return None;
        },
    };
    let j9 = match expect_lit(b, j8, &lit_valve_key_vec()) {
        Some(j) => j,
        None => {
            return None;
        },
    };
    let (va, j10) = match parse_u8(b, j9) {
        Some(p) => p,
        None => {
            return None;
        },
    };
    let j11 = match expect_lit(b, j10, &lit_enabled_key_vec()) {
        Some(j) => j,
        None => {
            return None;
        },
    };
    let (en, j12) = match parse_bool(b, j11) {
        Some(p) => p,
        None => {
            return None;
        },
    };
    if !byte_at(b, j12, '}' as u8) {
        return None;
    }
    let entry = WateringScheduleConfig {
        schedule: ScheduleConfig { start_hour: sh, start_minute: sm, end_hour: eh, end_minute: em },
        valve: va,
        enabled: en,
    };
    Some((entry, j12 + 1))
}

/// Consume one or more comma-separated entries and the closing `]`.
#[verifier::rlimit(60)]
fn parse_entry_list(b: &Vec<u8>, i: usize) -> (r: Option<(Vec<WateringScheduleConfig>, usize)>)
    requires
        i <= b@.len(),
    ensures
        match r {
            Some((s, k)) => spec_parse_entry_list(b@, i as int) == Some((s@, k as int)) && i < k
                <= b@.len(),
            None => spec_parse_entry_list(b@, i as int) is None,
        },
    decreases b@.len() - i,
{
    // bind the length so its usize bound is in scope for the index arithmetic
    let _blen = b.len();
    match parse_entry(b, i) {
        None => None,
        Some((e, j)) => {
            if byte_at(b, j, ',' as u8) {
                match parse_entry_list(b, j + 1) {
                    None => None,
                    Some((rest, k)) => {
                        let mut s = rest;
                        s.insert(0, e);
                        proof {
                            assert(s@ =~= seq![e] + s@.drop_first());
                        }
                        Some((s, k))
                    },
                }
            } else if byte_at(b, j, ']' as u8) {
                let mut s: Vec<WateringScheduleConfig> = Vec::new();
                s.push(e);
                proof {
                    assert(s@ =~= seq![e]);
                }
                Some((s, j + 1))
            } else {
                None
            }
        },
    }
}

impl WateringScheduleConfigs {
    /// Read a store back from its canonical persisted document. Nothing is
    /// accepted but exactly one document, and the entries come back in
    /// document order; identity uniqueness is the caller's check (see
    /// `is_well_formed`), as the document format itself does not force it.
    pub fn from_json(bytes: &Vec<u8>) -> (r: Option<WateringScheduleConfigs>)
        ensures
            match r {
                Some(st) => spec_parse_store(bytes@) == Some(st@),
                None => spec_parse_store(bytes@) is None,
            },
    {
        // bind the length so its usize bound is in scope for the index arithmetic
        let _blen = bytes.len();
        let j = match expect_lit(bytes, 0, &lit_store_open_vec()) {
            Some(j) => j,
            None => {
                return None;
            },
        };
        if byte_at(bytes, j, ']' as u8) {
            if byte_at(bytes, j + 1, '}' as u8) && j + 2 == bytes.len() {
                let empty = WateringScheduleConfigs { schedules: Vec::new() };
                proof {
                    assert(empty@ =~= Seq::<WateringScheduleConfig>::empty());
                }
                Some(empty)
            } else {
                None
            }
        } else {
            match parse_entry_list(bytes, j) {
                None => None,
                Some((s, k)) => {
                    if byte_at(bytes, k, '}' as u8) && k + 1 == bytes.len() {
                        Some(WateringScheduleConfigs { schedules: s })
                    } else {
                        None
                    }
                },
            }
        }
    }
}

// ---------------------------------------------------------------------------
// Round trip: parsing an emitted document yields the emitted entries.
// ---------------------------------------------------------------------------

/// Splitting a known concatenation at its seam.
proof fn lemma_split(b: Seq<u8>, i: int, x: Seq<u8>, rest: Seq<u8>)
    requires
        0 <= i,
        i + x.len() + rest.len() <= b.len(),
        b.subrange(i, i + x.len() + rest.len()) == x + rest,
    ensures
        b.subrange(i, i + x.len() as int) == x,
        b.subrange(i + x.len() as int, i + x.len() + rest.len()) == rest,
{
    assert(b.subrange(i, i + x.len() as int) =~= x);
    assert forall|k: int| 0 <= k < rest.len() implies b.subrange(
        i + x.len() as int,
        i + x.len() + rest.len(),
    )[k] == rest[k] by {
        assert((x + rest)[x.len() + k] == rest[k]);
        assert(b.subrange(i, i + x.len() + rest.len())[x.len() + k] == b[i + x.len() + k]);
        assert(b.subrange(i + x.len() as int, i + x.len() + rest.len())[k] == b[i + x.len() + k]);
    }
    assert(b.subrange(i + x.len() as int, i + x.len() + rest.len()) =~= rest);
}

/// The decimal digits of a byte value: between one and three of them, all
/// decimal digits.
proof fn lemma_dec_digits_props(n: u8)
    ensures
        1 <= spec_dec_digits(n as nat).len() <= 3,
        forall|k: int|
            0 <= k < spec_dec_digits(n as nat).len() ==> spec_is_digit(
                #[trigger] spec_dec_digits(n as nat)[k],
            ),
{
    reveal_with_fuel(spec_dec_digits, 4);
    if n < 10 {
    } else if n < 100 {
        assert(spec_dec_digits(n as nat / 10) == seq![(48 + n as nat / 10) as u8]);
    } else {
        assert((n as nat / 10) / 10 == n as nat / 100) by (nonlinear_arith);
        assert(spec_dec_digits(n as nat / 100) == seq![(48 + n as nat / 100) as u8]);
    }
}

/// Parsing a number whose digits stand at `i` and whose following byte is
/// not a digit yields exactly that number.
proof fn lemma_parse_u8_chunk(b: Seq<u8>, i: int, n: u8)
    requires
        0 <= i,
        i + spec_dec_digits(n as nat).len() <= b.len(),
        b.subrange(i, i + spec_dec_digits(n as nat).len() as int) == spec_dec_digits(n as nat),
        i + spec_dec_digits(n as nat).len() == b.len() || !spec_is_digit(
            b[i + spec_dec_digits(n as nat).len()],
        ),
    ensures
        spec_parse_u8(b, i) == Some((n, i + spec_dec_digits(n as nat).len() as int)),
{
    reveal_with_fuel(spec_dec_digits, 4);
    lemma_dec_digits_props(n);
    let ds = spec_dec_digits(n as nat);
    let l = ds.len() as int;
    // each digit byte of the chunk
    assert forall|k: int| 0 <= k < l implies b[i + k] == ds[k] by {
        assert(b.subrange(i, i + l)[k] == b[i + k]);
    }
    if n < 10 {
        assert(ds == seq![(48 + n as nat) as u8]);
        assert(ds[0] == (48 + n as nat) as u8);
        assert(b[i + 0] == ds[0]);
        assert(b[i + 0] == 48 + n);
        assert(spec_parse_digits(b, i, 0) == spec_parse_digits(b, i + 1, n as nat));
        assert(spec_parse_digits(b, i + 1, n as nat) == (n as nat, i + 1));
    } else if n < 100 {
        let d0 = n as nat / 10;
        let d1 = n as nat % 10;
        assert(spec_dec_digits(n as nat / 10) == seq![(48 + d0) as u8]);
        assert(ds == seq![(48 + d0) as u8, (48 + d1) as u8]);
        assert(ds[0] == (48 + d0) as u8 && ds[1] == (48 + d1) as u8);
        assert(b[i + 0] == ds[0] && b[i + 1] == ds[1]);
        assert(b[i + 0] == 48 + d0 && b[i + 1] == 48 + d1);
        assert(spec_parse_digits(b, i, 0) == spec_parse_digits(b, i + 1, d0));
        assert(spec_parse_digits(b, i + 1, d0) == spec_parse_digits(b, i + 2, d0 * 10 + d1));
        assert(d0 * 10 + d1 == n as nat);
        assert(spec_parse_digits(b, i + 2, n as nat) == (n as nat, i + 2));
    } else {
        let d0 = n as nat / 100;
        let d1 = (n as nat / 10) % 10;
        let d2 = n as nat % 10;
        assert((n as nat / 10) / 10 == n as nat / 100) by (nonlinear_arith);
        assert(spec_dec_digits(n as nat / 100) == seq![(48 + d0) as u8]);
        assert(spec_dec_digits(n as nat / 10) == seq![(48 + d0) as u8, (48 + d1) as u8]);
        assert(ds == seq![(48 + d0) as u8, (48 + d1) as u8, (48 + d2) as u8]);
        assert(ds[0] == (48 + d0) as u8 && ds[1] == (48 + d1) as u8 && ds[2] == (48 + d2) as u8);
        assert(b[i + 0] == ds[0] && b[i + 1] == ds[1] && b[i + 2] == ds[2]);
        assert(b[i + 0] == 48 + d0 && b[i + 1] == 48 + d1 && b[i + 2] == 48 + d2);
        assert(spec_parse_digits(b, i, 0) == spec_parse_digits(b, i + 1, d0));
        assert(spec_parse_digits(b, i + 1, d0) == spec_parse_digits(b, i + 2, d0 * 10 + d1));
        assert(spec_parse_digits(b, i + 2, d0 * 10 + d1) == spec_parse_digits(
            b,
            i + 3,
            (d0 * 10 + d1) * 10 + d2,
        ));
        assert((d0 * 10 + d1) * 10 + d2 == n as nat) by (nonlinear_arith)
            requires
                d0 == n as nat / 100,
                d1 == (n as nat / 10) % 10,
                d2 == n as nat % 10,
                (n as nat / 10) / 10 == n as nat / 100,
        ;
        assert(spec_parse_digits(b, i + 3, n as nat) == (n as nat, i + 3));
    }
}

/// Parsing `true` or `false` standing at `i` yields that value.
proof fn lemma_parse_bool_chunk(b: Seq<u8>, i: int, v: bool)
    requires
        0 <= i,
        i + spec_json_bool(v).len() <= b.len(),
        b.subrange(i, i + spec_json_bool(v).len() as int) == spec_json_bool(v),
    ensures
        spec_parse_bool(b, i) == Some((v, i + spec_json_bool(v).len() as int)),
{
    if v {
        assert(spec_match_at(b, i, lit_true()));
    } else {
        assert(b.subrange(i, i + 5)[0] == b[i]);
        assert(b[i] == ('f' as u8));
        if spec_match_at(b, i, lit_true()) {
            assert(b.subrange(i, i + 4)[0] == b[i]);
        }
        assert(spec_match_at(b, i, lit_false()));
    }
}

/// Parsing an entry document standing at `i` yields that entry.
#[verifier::rlimit(100)]
proof fn lemma_parse_entry_chunk(b: Seq<u8>, i: int, e: WateringScheduleConfig)
    requires
        0 <= i,
        i + spec_json_entry(e).len() <= b.len(),
        b.subrange(i, i + spec_json_entry(e).len() as int) == spec_json_entry(e),
    ensures
        spec_parse_entry(b, i) == Some((e, i + spec_json_entry(e).len() as int)),
{
    let sh = spec_dec_digits(e.schedule.start_hour as nat);
    let sm = spec_dec_digits(e.schedule.start_minute as nat);
    let eh = spec_dec_digits(e.schedule.end_hour as nat);
    let em = spec_dec_digits(e.schedule.end_minute as nat);
    let va = spec_dec_digits(e.valve as nat);
    let en = spec_json_bool(e.enabled);
    lemma_dec_digits_props(e.schedule.start_hour);
    lemma_dec_digits_props(e.schedule.start_minute);
    lemma_dec_digits_props(e.schedule.end_hour);
    lemma_dec_digits_props(e.schedule.end_minute);
    lemma_dec_digits_props(e.valve);

    let r12 = en + seq![('}' as u8)];
    let r11 = lit_enabled_key() + r12;
    let r10 = va + r11;
    let r9 = lit_valve_key() + r10;
    let r8 = em + r9;
    let r7 = lit_end_minute_key() + r8;
    let r6 = eh + r7;
    let r5 = lit_end_hour_key() + r6;
    let r4 = sm + r5;
    let r3 = lit_start_minute_key() + r4;
    let r2 = sh + r3;
    let doc = lit_entry_open() + r2;
    assert(spec_json_entry(e) == doc);

    let i1 = i + lit_entry_open().len() as int;
    lemma_split(b, i, lit_entry_open(), r2);
    assert(spec_parse_lit(b, i, lit_entry_open()) == Some(i1));

    let i2 = i1 + sh.len() as int;
    lemma_split(b, i1, sh, r3);
    assert(b[i2] == b.subrange(i2, i2 + r3.len() as int)[0]);
    lemma_parse_u8_chunk(b, i1, e.schedule.start_hour);

    let i3 = i2 + lit_start_minute_key().len() as int;
    lemma_split(b, i2, lit_start_minute_key(), r4);
    assert(spec_parse_lit(b, i2, lit_start_minute_key()) == Some(i3));

    let i4 = i3 + sm.len() as int;
    lemma_split(b, i3, sm, r5);
    assert(b[i4] == b.subrange(i4, i4 + r5.len() as int)[0]);
    lemma_parse_u8_chunk(b, i3, e.schedule.start_minute);

    let i5 = i4 + lit_end_hour_key().len() as int;
    lemma_split(b, i4, lit_end_hour_key(), r6);
    assert(spec_parse_lit(b, i4, lit_end_hour_key()) == Some(i5));

    let i6 = i5 + eh.len() as int;
    lemma_split(b, i5, eh, r7);
    assert(b[i6] == b.subrange(i6, i6 + r7.len() as int)[0]);
    lemma_parse_u8_chunk(b, i5, e.schedule.end_hour);

    let i7 = i6 + lit_end_minute_key().len() as int;
    lemma_split(b, i6, lit_end_minute_key(), r8);
    assert(spec_parse_lit(b, i6, lit_end_minute_key()) == Some(i7));

    let i8 = i7 + em.len() as int;
    lemma_split(b, i7, em, r9);
    assert(b[i8] == b.subrange(i8, i8 + r9.len() as int)[0]);
    lemma_parse_u8_chunk(b, i7, e.schedule.end_minute);

    let i9 = i8 + lit_valve_key().len() as int;
    lemma_split(b, i8, lit_valve_key(), r10);
    assert(spec_parse_lit(b, i8, lit_valve_key()) == Some(i9));

    let i10 = i9 + va.len() as int;
    lemma_split(b, i9, va, r11);
    assert(b[i10] == b.subrange(i10, i10 + r11.len() as int)[0]);
    lemma_parse_u8_chunk(b, i9, e.valve);

    let i11 = i10 + lit_enabled_key().len() as int;
    lemma_split(b, i10, lit_enabled_key(), r12);
    assert(spec_parse_lit(b, i10, lit_enabled_key()) == Some(i11));

    let i12 = i11 + en.len() as int;
    lemma_split(b, i11, en, seq![('}' as u8)]);
    lemma_parse_bool_chunk(b, i11, e.enabled);

    assert(b[i12] == b.subrange(i12, i12 + 1)[0]);
    assert(spec_byte_at(b, i12, ('}' as u8)));
    assert(i12 + 1 == i + spec_json_entry(e).len() as int);
}

/// Parsing the comma-separated documents of `s` followed by `]` yields `s`.
proof fn lemma_parse_entry_list_chunk(b: Seq<u8>, i: int, s: Seq<WateringScheduleConfig>)
    requires
        0 <= i,
        s.len() > 0,
        i + spec_json_entries(s).len() + 1 <= b.len(),
        b.subrange(i, i + spec_json_entries(s).len() as int) == spec_json_entries(s),
        b[i + spec_json_entries(s).len()] == (']' as u8),
    ensures
        spec_parse_entry_list(b, i) == Some((s, i + spec_json_entries(s).len() + 1)),
    decreases s.len(),
{
    let e = s[0];
    let elen = spec_json_entry(e).len() as int;
    if s.len() == 1 {
        assert(spec_json_entries(s) == spec_json_entry(e));
        lemma_parse_entry_chunk(b, i, e);
        assert(spec_byte_at(b, i + elen, (']' as u8)));
        assert(seq![e] =~= s);
    } else {
        let rest = seq![(',' as u8)] + spec_json_entries(s.drop_first());
        assert(spec_json_entries(s) == spec_json_entry(e) + rest);
        lemma_split(b, i, spec_json_entry(e), rest);
        let j = i + elen;
        assert(b[j] == b.subrange(j, j + rest.len() as int)[0]);
        assert(b[j] == (',' as u8));
        lemma_parse_entry_chunk(b, i, e);
        lemma_split(b, j, seq![(',' as u8)], spec_json_entries(s.drop_first()));
        assert(spec_json_entry(e).len() > 0);
        lemma_parse_entry_list_chunk(b, j + 1, s.drop_first());
        assert(spec_byte_at(b, j, (',' as u8)));
        assert(seq![e] + s.drop_first() =~= s);
        assert(i + spec_json_entries(s).len() + 1 == j + 1 + spec_json_entries(
            s.drop_first(),
        ).len() + 1);
    }
}

/// Reading back the canonical document of any entry sequence yields exactly
/// that sequence: persistence loses nothing and invents nothing.
#[verifier::rlimit(100)]
pub proof fn lemma_store_roundtrip(s: Seq<WateringScheduleConfig>)
    ensures
        spec_parse_store(spec_json_store(s)) == Some(s),
{
    let b = spec_json_store(s);
    let tail = spec_json_entries(s) + seq![(']' as u8), ('}' as u8)];
    assert(b == lit_store_open() + tail);
    assert(b.subrange(0, (lit_store_open().len() + tail.len()) as int) =~= b);
    lemma_split(b, 0, lit_store_open(), tail);
    let j = lit_store_open().len() as int;
    assert(spec_parse_lit(b, 0, lit_store_open()) == Some(j));
    if s.len() == 0 {
        assert(spec_json_entries(s).len() == 0);
        assert(b[j] == b.subrange(j, j + tail.len() as int)[0]);
        assert(b[j + 1] == b.subrange(j, j + tail.len() as int)[1]);
        assert(b[j] == (']' as u8) && b[j + 1] == ('}' as u8));
        assert(j + 2 == b.len());
        assert(s =~= Seq::<WateringScheduleConfig>::empty());
    } else {
        lemma_split(b, j, spec_json_entries(s), seq![(']' as u8), ('}' as u8)]);
        let k = j + spec_json_entries(s).len() as int;
        assert(b[k] == b.subrange(k, k + 2)[0]);
        assert(b[k + 1] == b.subrange(k, k + 2)[1]);
        assert(b[k] == (']' as u8) && b[k + 1] == ('}' as u8));
        // the first entry document starts with `{"`, not `]`
        assert(spec_json_entries(s)[0] == spec_json_entry(s[0])[0]) by {
            if s.len() > 1 {
                assert(spec_json_entry(s[0]).len() > 0);
            }
        }
        assert(spec_json_entry(s[0])[0] == lit_entry_open()[0]);
        assert(b[j] == b.subrange(j, j + spec_json_entries(s).len() as int)[0]);
        assert(b[j] == ('{' as u8));
        assert(!spec_byte_at(b, j, (']' as u8)));
        lemma_parse_entry_list_chunk(b, j, s);
        assert(spec_byte_at(b, k + 1, ('}' as u8)));
        assert(k + 2 == b.len());
    }
}

} // verus!
