//! Calendar instants in UTC, to one-second resolution.
//!
//! An instant is six plain fields; ordering is lexicographic, which agrees
//! with chronological order for UTC calendar dates.  The current instant
//! comes from the `chrono` crate through a trusted wrapper; everything else
//! (formatting, parsing, comparison) is verified.

use vstd::prelude::*;

#[allow(unused_imports)]
use chrono::{Datelike, Timelike};

verus! {

use crate::strutil::{digit_char, two_digit_chars, four_digit_chars, push_two_digits,
    push_four_digits};

/// A UTC calendar instant.
#[derive(Clone, Copy, Debug, PartialEq, Eq, Structural)]
pub struct UtcTime {
    pub year: i32,
    pub month: u32,
    pub day: u32,
    pub hour: u32,
    pub minute: u32,
    pub second: u32,
}

impl UtcTime {
    /// Field ranges that every rendered instant must satisfy.
    pub open spec fn wf(self) -> bool {
        &&& 0 <= self.year <= 9999
        &&& 1 <= self.month <= 12
        &&& 1 <= self.day <= 31
        &&& self.hour <= 23
        &&& self.minute <= 59
        &&& self.second <= 59
    }

    /// Runtime check of the same ranges.
    pub fn is_wf(&self) -> (r: bool)
        ensures
            r == self.wf(),
    {
        0 <= self.year && self.year <= 9999 && 1 <= self.month && self.month <= 12 && 1 <= self.day
            && self.day <= 31 && self.hour <= 23 && self.minute <= 59 && self.second <= 59
    }

    /// The current instant, from the system clock.
    pub fn now() -> (t: UtcTime)
        ensures
            1 <= t.month <= 12,
            1 <= t.day <= 31,
            t.hour <= 23,
            t.minute <= 59,
            t.second <= 59,
    {
        let p = chrono_now_parts();
        UtcTime { year: p.0, month: p.1, day: p.2, hour: p.3, minute: p.4, second: p.5 }
    }

    /// `self` is at or before `other` in chronological order.
    pub fn le(&self, other: &UtcTime) -> (r: bool)
        ensures
            r == utc_le_spec(*self, *other),
    {
        if self.year != other.year {
            self.year < other.year
        } else if self.month != other.month {
            self.month < other.month
        } else if self.day != other.day {
            self.day < other.day
        } else if self.hour != other.hour {
            self.hour < other.hour
        } else if self.minute != other.minute {
            self.minute < other.minute
        } else {
            self.second <= other.second
        }
    }

    /// `self` is strictly before `other`.
    pub fn lt(&self, other: &UtcTime) -> (r: bool)
        ensures
            r == utc_lt_spec(*self, *other),
    {
        if self.year != other.year {
            self.year < other.year
        } else if self.month != other.month {
            self.month < other.month
        } else if self.day != other.day {
            self.day < other.day
        } else if self.hour != other.hour {
            self.hour < other.hour
        } else if self.minute != other.minute {
            self.minute < other.minute
        } else {
            self.second < other.second
        }
    }
}

/// Chronological (lexicographic) order, non-strict.
pub open spec fn utc_le_spec(a: UtcTime, b: UtcTime) -> bool {
    if a.year != b.year {
        a.year < b.year
    } else if a.month != b.month {
        a.month < b.month
    } else if a.day != b.day {
        a.day < b.day
    } else if a.hour != b.hour {
        a.hour < b.hour
    } else if a.minute != b.minute {
        a.minute < b.minute
    } else {
        a.second <= b.second
    }
}

/// Chronological order, strict.
pub open spec fn utc_lt_spec(a: UtcTime, b: UtcTime) -> bool {
    utc_le_spec(a, b) && a != b
}

pub proof fn lemma_utc_le_total(a: UtcTime, b: UtcTime)
    ensures
        utc_le_spec(a, b) || utc_le_spec(b, a),
        utc_le_spec(a, b) && utc_le_spec(b, a) ==> a == b,
{
}

pub proof fn lemma_utc_le_trans(a: UtcTime, b: UtcTime, c: UtcTime)
    requires
        utc_le_spec(a, b),
        utc_le_spec(b, c),
    ensures
        utc_le_spec(a, c),
{
}

/// Relies on `chrono::DateTime::from_timestamp` and the `Datelike`/
/// `Timelike` accessors: the accessors document month in 1..=12, day in
/// 1..=31, hour in 0..=23, minute and second in 0..=59.  The instant is the
/// system clock's whole seconds since the Unix epoch; a clock before the
/// epoch or beyond chrono's calendar range yields the epoch itself rather
/// than a panic.  The instant depends on the clock, so no more is promised.
#[verifier::external_body]
fn chrono_now_parts() -> (r: (i32, u32, u32, u32, u32, u32))
    ensures
        1 <= r.1 <= 12,
        1 <= r.2 <= 31,
        r.3 <= 23,
        r.4 <= 59,
        r.5 <= 59,
{
    let secs = match std::time::SystemTime::now().duration_since(std::time::UNIX_EPOCH) {
        Ok(d) => d.as_secs() as i64,
        Err(_) => 0,
    };
    let now = chrono::DateTime::<chrono::Utc>::from_timestamp(secs, 0).unwrap_or_default();
    (now.year(), now.month(), now.day(), now.hour(), now.minute(), now.second())
}

/// The backup-directory timestamp: ISO 8601 with the time colons replaced
/// by dashes, `YYYY-MM-DDTHH-MM-SS`.
pub open spec fn timestamp_name_chars(t: UtcTime) -> Seq<char> {
    four_digit_chars(t.year as int) + seq!['-'] + two_digit_chars(t.month as int) + seq!['-']
        + two_digit_chars(t.day as int) + seq!['T'] + two_digit_chars(t.hour as int) + seq!['-']
        + two_digit_chars(t.minute as int) + seq!['-'] + two_digit_chars(t.second as int)
}

pub fn timestamp_name(t: &UtcTime) -> (s: String)
    requires
        t.wf(),
    ensures
        s@ =~= timestamp_name_chars(*t),
{
    proof {
        reveal_strlit("-");
        reveal_strlit("T");
    }
    let mut s = String::new();
    push_four_digits(&mut s, t.year as u32);
    s.append("-");
    push_two_digits(&mut s, t.month);
    s.append("-");
    push_two_digits(&mut s, t.day);
    s.append("T");
    push_two_digits(&mut s, t.hour);
    s.append("-");
    push_two_digits(&mut s, t.minute);
    s.append("-");
    push_two_digits(&mut s, t.second);
    s
}

/// The byte of one decimal digit.
pub open spec fn digit_byte(d: int) -> u8 {
    (0x30 + d) as u8
}

pub open spec fn is_digit_byte(b: u8) -> bool {
    0x30 <= b <= 0x39
}

pub open spec fn digit_byte_val(b: u8) -> int {
    b - 0x30
}

pub open spec fn two_digit_bytes(v: int) -> Seq<u8> {
    seq![digit_byte(v / 10), digit_byte(v % 10)]
}

pub open spec fn four_digit_bytes(v: int) -> Seq<u8> {
    seq![
        digit_byte(v / 1000),
        digit_byte((v / 100) % 10),
        digit_byte((v / 10) % 10),
        digit_byte(v % 10),
    ]
}

fn push_two_digit_bytes(out: &mut Vec<u8>, v: u32)
    requires
        v <= 99,
    ensures
        final(out)@ =~= old(out)@ + two_digit_bytes(v as int),
{
    out.push(0x30 + (v / 10) as u8);
    out.push(0x30 + (v % 10) as u8);
}

fn push_four_digit_bytes(out: &mut Vec<u8>, v: u32)
    requires
        v <= 9999,
    ensures
        final(out)@ =~= old(out)@ + four_digit_bytes(v as int),
{
    out.push(0x30 + (v / 1000) as u8);
    out.push(0x30 + ((v / 100) % 10) as u8);
    out.push(0x30 + ((v / 10) % 10) as u8);
    out.push(0x30 + (v % 10) as u8);
}

/// The ISO 8601 rendering used in metadata: `YYYY-MM-DDTHH:MM:SSZ`.
pub open spec fn iso_bytes(t: UtcTime) -> Seq<u8> {
    four_digit_bytes(t.year as int) + seq![0x2du8] + two_digit_bytes(t.month as int)
        + seq![0x2du8] + two_digit_bytes(t.day as int) + seq![0x54u8] + two_digit_bytes(
        t.hour as int,
    ) + seq![0x3au8] + two_digit_bytes(t.minute as int) + seq![0x3au8] + two_digit_bytes(
        t.second as int,
    ) + seq![0x5au8]
}

pub fn render_iso(t: &UtcTime) -> (out: Vec<u8>)
    requires
        t.wf(),
    ensures
        out@ =~= iso_bytes(*t),
{
    let mut out: Vec<u8> = Vec::new();
    push_four_digit_bytes(&mut out, t.year as u32);
    out.push(0x2d);
    push_two_digit_bytes(&mut out, t.month);
    out.push(0x2d);
    push_two_digit_bytes(&mut out, t.day);
    out.push(0x54);
    push_two_digit_bytes(&mut out, t.hour);
    out.push(0x3a);
    push_two_digit_bytes(&mut out, t.minute);
    out.push(0x3a);
    push_two_digit_bytes(&mut out, t.second);
    out.push(0x5a);
    out
}

/// Digits and separators of the date-and-time part, `YYYY-MM-DDTHH:MM:SS`.
pub open spec fn iso_core_shape(b: Seq<u8>) -> bool {
    &&& b.len() >= 19
    &&& is_digit_byte(b[0]) && is_digit_byte(b[1]) && is_digit_byte(b[2]) && is_digit_byte(b[3])
    &&& b[4] == 0x2d
    &&& is_digit_byte(b[5]) && is_digit_byte(b[6])
    &&& b[7] == 0x2d
    &&& is_digit_byte(b[8]) && is_digit_byte(b[9])
    &&& b[10] == 0x54
    &&& is_digit_byte(b[11]) && is_digit_byte(b[12])
    &&& b[13] == 0x3a
    &&& is_digit_byte(b[14]) && is_digit_byte(b[15])
    &&& b[16] == 0x3a
    &&& is_digit_byte(b[17]) && is_digit_byte(b[18])
}

/// Shape of an accepted ISO instant: the core, then `Z`, with an optional
/// fractional-second part (ignored) before the `Z`.
pub open spec fn iso_shape(b: Seq<u8>) -> bool {
    &&& iso_core_shape(b)
    &&& if b.len() == 20 {
        b[19] == 0x5a
    } else {
        &&& b.len() >= 22
        &&& b[19] == 0x2e
        &&& forall|i: int| 20 <= i < b.len() - 1 ==> is_digit_byte(#[trigger] b[i])
        &&& b[b.len() - 1] == 0x5a
    }
}

/// The instant read off a well-shaped rendering.
pub open spec fn iso_value(b: Seq<u8>) -> UtcTime {
    UtcTime {
        year: (digit_byte_val(b[0]) * 1000 + digit_byte_val(b[1]) * 100 + digit_byte_val(b[2]) * 10
            + digit_byte_val(b[3])) as i32,
        month: (digit_byte_val(b[5]) * 10 + digit_byte_val(b[6])) as u32,
        day: (digit_byte_val(b[8]) * 10 + digit_byte_val(b[9])) as u32,
        hour: (digit_byte_val(b[11]) * 10 + digit_byte_val(b[12])) as u32,
        minute: (digit_byte_val(b[14]) * 10 + digit_byte_val(b[15])) as u32,
        second: (digit_byte_val(b[17]) * 10 + digit_byte_val(b[18])) as u32,
    }
}

/// Parsing an ISO instant: the shape must hold and the fields must be in
/// range; otherwise nothing is returned.
pub open spec fn parse_iso_spec(b: Seq<u8>) -> Option<UtcTime> {
    if iso_shape(b) && iso_value(b).wf() {
        Some(iso_value(b))
    } else {
        None
    }
}

fn digit_at(b: &Vec<u8>, i: usize) -> (r: Option<u32>)
    requires
        i < b@.len(),
    ensures
        r is Some <==> is_digit_byte(b@[i as int]),
        r is Some ==> r.unwrap() == digit_byte_val(b@[i as int]) && r.unwrap() <= 9,
{
    let c = b[i];
    if 0x30 <= c && c <= 0x39 {
        Some((c - 0x30) as u32)
    } else {
        None
    }
}

pub fn parse_iso(b: &Vec<u8>) -> (r: Option<UtcTime>)
    ensures
        r == parse_iso_spec(b@),
{
    if b.len() < 20 {
        return None;
    }
    if !(b[4] == 0x2d && b[7] == 0x2d && b[10] == 0x54 && b[13] == 0x3a && b[16] == 0x3a) {
        return None;
    }
    if b.len() == 20 {
        if b[19] != 0x5a {
            return None;
        }
    } else {
        if b.len() < 22 {
            return None;
        }
        if b[19] != 0x2e {
            return None;
        }
        if b[b.len() - 1] != 0x5a {
            return None;
        }
        let mut i: usize = 20;
        while i < b.len() - 1
            invariant
                20 <= i <= b@.len() - 1,
                b@.len() >= 22,
                forall|j: int| 20 <= j < i ==> is_digit_byte(#[trigger] b@[j]),
            decreases b@.len() - i,
        {
            let c = b[i];
            if !(0x30 <= c && c <= 0x39) {
                assert(!iso_shape(b@));
                return None;
            }
            i += 1;
        }
    }
    let d0 = digit_at(b, 0);
    let d1 = digit_at(b, 1);
    let d2 = digit_at(b, 2);
    let d3 = digit_at(b, 3);
    let d5 = digit_at(b, 5);
    let d6 = digit_at(b, 6);
    let d8 = digit_at(b, 8);
    let d9 = digit_at(b, 9);
    let d11 = digit_at(b, 11);
    let d12 = digit_at(b, 12);
    let d14 = digit_at(b, 14);
    let d15 = digit_at(b, 15);
    let d17 = digit_at(b, 17);
    let d18 = digit_at(b, 18);
    match (d0, d1, d2, d3, d5, d6, d8, d9, d11, d12, d14, d15, d17, d18) {
        (
            Some(y0),
            Some(y1),
            Some(y2),
            Some(y3),
            Some(mo0),
            Some(mo1),
            Some(da0),
            Some(da1),
            Some(h0),
            Some(h1),
            Some(mi0),
            Some(mi1),
            Some(s0),
            Some(s1),
        ) => {
            let t = UtcTime {
                year: (y0 * 1000 + y1 * 100 + y2 * 10 + y3) as i32,
                month: mo0 * 10 + mo1,
                day: da0 * 10 + da1,
                hour: h0 * 10 + h1,
                minute: mi0 * 10 + mi1,
                second: s0 * 10 + s1,
            };
            if t.is_wf() {
                Some(t)
            } else {
                None
            }
        },
        _ => None,
    }
}

/// Parsing recovers exactly what rendering produced.
pub proof fn lemma_iso_round_trip(t: UtcTime)
    requires
        t.wf(),
    ensures
        parse_iso_spec(iso_bytes(t)) == Some(t),
{
    let b = iso_bytes(t);
    assert(iso_shape(b));
    assert(iso_value(b).year == t.year) by {
        let y = t.year as int;
        assert(digit_byte_val(digit_byte(y / 1000)) == y / 1000);
        assert(digit_byte_val(digit_byte((y / 100) % 10)) == (y / 100) % 10);
        assert(digit_byte_val(digit_byte((y / 10) % 10)) == (y / 10) % 10);
        assert(digit_byte_val(digit_byte(y % 10)) == y % 10);
        assert((y / 1000) * 1000 + ((y / 100) % 10) * 100 + ((y / 10) % 10) * 10 + y % 10 == y)
            by (nonlinear_arith)
            requires
                0 <= y <= 9999,
        ;
    }
    assert(iso_value(b).month == t.month) by {
        let v = t.month as int;
        assert((v / 10) * 10 + v % 10 == v) by (nonlinear_arith)
            requires
                0 <= v <= 99,
        ;
    }
    assert(iso_value(b).day == t.day) by {
        let v = t.day as int;
        assert((v / 10) * 10 + v % 10 == v) by (nonlinear_arith)
            requires
                0 <= v <= 99,
        ;
    }
    assert(iso_value(b).hour == t.hour) by {
        let v = t.hour as int;
        assert((v / 10) * 10 + v % 10 == v) by (nonlinear_arith)
            requires
                0 <= v <= 99,
        ;
    }
    assert(iso_value(b).minute == t.minute) by {
        let v = t.minute as int;
        assert((v / 10) * 10 + v % 10 == v) by (nonlinear_arith)
            requires
                0 <= v <= 99,
        ;
    }
    assert(iso_value(b).second == t.second) by {
        let v = t.second as int;
        assert((v / 10) * 10 + v % 10 == v) by (nonlinear_arith)
            requires
                0 <= v <= 99,
        ;
    }
    assert(iso_value(b) == t);
}

} // verus!
