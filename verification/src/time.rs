//! Binary time tags: CP56Time2a (full calendar time), CP24Time2a
//! (milliseconds and minute only) and CP16Time2a (milliseconds only),
//! over a plain calendar-field time value.

use vstd::prelude::*;
use chrono::{Datelike, Timelike};

verus! {

/// A calendar time as the time tags carry it. The milliseconds field counts
/// milliseconds within the minute, seconds included.
#[derive(Debug, Clone, Copy, PartialEq, Eq, Structural)]
pub struct Time2a {
    /// 0 to 59999: milliseconds within the minute.
    pub millisecond: u16,
    /// 0 to 59.
    pub minute: u8,
    /// 0 to 23.
    pub hour: u8,
    /// 1 to 7, Monday first; 0 where not given.
    pub day_of_week: u8,
    /// 1 to 31.
    pub day: u8,
    /// 1 to 12.
    pub month: u8,
    /// 0 to 99, counted from the year 2000.
    pub year: u8,
}

impl Time2a {
    pub open spec fn wf(self) -> bool {
        &&& self.millisecond <= 59999
        &&& self.minute <= 59
        &&& self.hour <= 23
        &&& self.day_of_week <= 7
        &&& 1 <= self.day <= 31
        &&& 1 <= self.month <= 12
        &&& self.year <= 99
    }
}

/// The seven octets of a CP56Time2a tag: milliseconds little-endian, minute,
/// hour, day of week over day of month, month, year.
pub open spec fn spec_cp56_bytes(t: Time2a) -> Seq<u8> {
    seq![
        (t.millisecond % 256) as u8,
        (t.millisecond / 256) as u8,
        t.minute,
        t.hour,
        (t.day_of_week * 32 + t.day) as u8,
        t.month,
        t.year,
    ]
}

/// The time seven CP56Time2a octets stand for; none when the invalid bit
/// of the minute octet is set. Reserved bits are masked off.
pub open spec fn spec_cp56_from(b: Seq<u8>) -> Option<Time2a>
    recommends
        b.len() >= 7,
{
    if b[2] / 128 == 1 {
        None
    } else {
        Some(
            Time2a {
                millisecond: (b[0] + b[1] * 256) as u16,
                minute: (b[2] % 64) as u8,
                hour: (b[3] % 32) as u8,
                day_of_week: (b[4] / 32) as u8,
                day: (b[4] % 32) as u8,
                month: (b[5] % 16) as u8,
                year: (b[6] % 128) as u8,
            },
        )
    }
}

/// The three octets of a CP24Time2a tag: milliseconds little-endian, minute.
pub open spec fn spec_cp24_bytes(t: Time2a) -> Seq<u8> {
    seq![(t.millisecond % 256) as u8, (t.millisecond / 256) as u8, t.minute]
}

/// The two octets of a CP16Time2a tag: milliseconds little-endian.
pub open spec fn spec_cp16_bytes(msec: u16) -> Seq<u8> {
    seq![(msec % 256) as u8, (msec / 256) as u8]
}

/// Encode a CP56Time2a tag.
pub fn cp56time2a(time: Time2a) -> (r: Vec<u8>)
    requires
        time.wf(),
    ensures
        r@ == spec_cp56_bytes(time),
        r@.len() == 7,
{
    let mut buf: Vec<u8> = Vec::new();
    buf.push((time.millisecond % 256) as u8);
    buf.push((time.millisecond / 256) as u8);
    buf.push(time.minute);
    buf.push(time.hour);
    buf.push(time.day_of_week * 32 + time.day);
    buf.push(time.month);
    buf.push(time.year);
    proof {
        assert(buf@ =~= spec_cp56_bytes(time));
    }
    buf
}

/// Encode a CP24Time2a tag.
pub fn cp24time2a(time: Time2a) -> (r: Vec<u8>)
    requires
        time.millisecond <= 59999,
    ensures
        r@ == spec_cp24_bytes(time),
        r@.len() == 3,
{
    let mut buf: Vec<u8> = Vec::new();
    buf.push((time.millisecond % 256) as u8);
    buf.push((time.millisecond / 256) as u8);
    buf.push(time.minute);
    proof {
        assert(buf@ =~= spec_cp24_bytes(time));
    }
    buf
}

/// Encode a CP16Time2a tag from a time's milliseconds field.
pub fn cp16time2a(time: Time2a) -> (r: Vec<u8>)
    ensures
        r@ == spec_cp16_bytes(time.millisecond),
        r@.len() == 2,
{
    cp16time2a_from_msec(time.millisecond)
}

/// Encode a CP16Time2a tag from a plain millisecond count.
pub fn cp16time2a_from_msec(msec: u16) -> (r: Vec<u8>)
    ensures
        r@ == spec_cp16_bytes(msec),
        r@.len() == 2,
{
    let mut buf: Vec<u8> = Vec::new();
    buf.push((msec % 256) as u8);
    buf.push((msec / 256) as u8);
    proof {
        assert(buf@ =~= spec_cp16_bytes(msec));
    }
    buf
}

/// Decode a CP56Time2a tag read at `pos`.
pub fn decode_cp56time2a(buf: &Vec<u8>, pos: usize) -> (r: Option<Time2a>)
    requires
        pos + 7 <= buf@.len(),
    ensures
        r == spec_cp56_from(buf@.subrange(pos as int, pos + 7)),
{
    let n = buf.len();
    let b2 = buf[pos + 2];
    if b2 / 128 == 1 {
        return None;
    }
    Some(
        Time2a {
            millisecond: buf[pos] as u16 + buf[pos + 1] as u16 * 256,
            minute: b2 % 64,
            hour: buf[pos + 3] % 32,
            day_of_week: buf[pos + 4] / 32,
            day: buf[pos + 4] % 32,
            month: buf[pos + 5] % 16,
            year: buf[pos + 6] % 128,
        },
    )
}

/// Decode a CP24Time2a tag read at `pos`. The tag carries milliseconds and
/// minute alone; the calendar fields are filled from the current clock, as
/// the standard intends, so only the carried fields are pinned down here.
pub fn decode_cp24time2a(buf: &Vec<u8>, pos: usize) -> (r: Option<Time2a>)
    requires
        pos + 3 <= buf@.len(),
    ensures
        r is Some <==> buf@[pos + 2] / 128 != 1,
        match r {
            Some(t) => {
                &&& t.millisecond == buf@[pos as int] + buf@[pos + 1] * 256
                &&& t.minute == buf@[pos + 2] % 64
                &&& t.hour <= 23
                &&& t.day_of_week <= 7
                &&& 1 <= t.day <= 31
                &&& 1 <= t.month <= 12
                &&& t.year <= 99
            },
            None => true,
        },
{
    let n = buf.len();
    let b2 = buf[pos + 2];
    if b2 / 128 == 1 {
        return None;
    }
    let now = current_time2a();
    Some(
        Time2a {
            millisecond: buf[pos] as u16 + buf[pos + 1] as u16 * 256,
            minute: b2 % 64,
            hour: now.hour,
            day_of_week: now.day_of_week,
            day: now.day,
            month: now.month,
            year: now.year,
        },
    )
}

/// A well-formed time survives the round trip through its CP56Time2a octets.
pub proof fn lemma_cp56_round_trip(t: Time2a)
    requires
        t.wf(),
    ensures
        spec_cp56_from(spec_cp56_bytes(t)) == Some(t),
{
    let b = spec_cp56_bytes(t);
    assert(t.millisecond % 256 + (t.millisecond / 256) * 256 == t.millisecond) by (nonlinear_arith);
    assert((t.day_of_week * 32 + t.day) / 32 == t.day_of_week && (t.day_of_week * 32 + t.day) % 32
        == t.day) by (nonlinear_arith)
        requires 1 <= t.day <= 31, t.day_of_week <= 7,
    ;
}

/// What the system clock reads, as plain calendar fields:
/// (nanosecond, second, minute, hour, day of week, day, month, year).
/// Relies on chrono's Utc::now with the Datelike and Timelike accessors;
/// each field lies in its documented range (the nanosecond may reach
/// 1,999,999,999 while a leap second is smeared). Utc::now itself panics
/// on a machine whose clock reads before 1970; that is environment-driven,
/// not input-driven, and cannot be ruled out here.
#[verifier::external_body]
fn utc_now_fields() -> (r: (u32, u32, u32, u32, u32, u32, u32, i32))
    ensures
        r.0 <= 1_999_999_999,
        r.1 <= 59,
        r.2 <= 59,
        r.3 <= 23,
        1 <= r.4 <= 7,
        1 <= r.5 <= 31,
        1 <= r.6 <= 12,
{
    let t = chrono::Utc::now();
    (
        t.nanosecond(),
        t.second(),
        t.minute(),
        t.hour(),
        t.weekday().number_from_monday(),
        t.day(),
        t.month(),
        t.year(),
    )
}

/// The current wall-clock time as a time-tag value. A leap-second overshoot
/// is capped at the largest millisecond count a tag can carry, and a year
/// outside 2000 to 2099 is recorded as 2000.
pub fn current_time2a() -> (r: Time2a)
    ensures
        r.wf(),
{
    let (nanos, sec, min, hour, dow, day, month, year) = utc_now_fields();
    let mut ms: u32 = nanos / 1000000 + sec * 1000;
    if ms > 59999 {
        ms = 59999;
    }
    let y: u8 = if 2000 <= year && year <= 2099 {
        (year - 2000) as u8
    } else {
        0
    };
    Time2a {
        millisecond: ms as u16,
        minute: min as u8,
        hour: hour as u8,
        day_of_week: dow as u8,
        day: day as u8,
        month: month as u8,
        year: y,
    }
}

} // verus!
