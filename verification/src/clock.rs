//! The wall-clock reading: a plain calendar timestamp and its
//! `YYYY-MM-DD HH:MM:SS` formatting, with one trusted call into chrono to
//! obtain the current local time.

use vstd::prelude::*;
use chrono::Datelike;
use chrono::Timelike;

verus! {

/// A local calendar time held as plain fields.
#[derive(Clone, Copy, PartialEq, Eq, Structural, Debug)]
pub struct Timestamp {
    pub year: u16,
    pub month: u8,
    pub day: u8,
    pub hour: u8,
    pub minute: u8,
    pub second: u8,
}

impl Timestamp {
    /// The fields lie in calendar range and the year has at most four
    /// digits.
    pub open spec fn wf(self) -> bool {
        &&& self.year <= 9999
        &&& 1 <= self.month <= 12
        &&& 1 <= self.day <= 31
        &&& self.hour <= 23
        &&& self.minute <= 59
        &&& self.second <= 59
    }
}

/// The ASCII digit for the last decimal digit of `n`.
pub open spec fn digit(n: nat) -> u8 {
    (48 + n % 10) as u8
}

/// `n` as two decimal digits, zero padded (for `n < 100`).
pub open spec fn pad2(n: nat) -> Seq<u8> {
    seq![digit(n / 10), digit(n)]
}

/// `n` as four decimal digits, zero padded (for `n < 10000`).
pub open spec fn pad4(n: nat) -> Seq<u8> {
    seq![digit(n / 1000), digit(n / 100), digit(n / 10), digit(n)]
}

/// The timestamp formatted as `YYYY-MM-DD HH:MM:SS`.
pub open spec fn spec_format_time(ts: Timestamp) -> Seq<u8> {
    pad4(ts.year as nat) + seq![45u8] + pad2(ts.month as nat) + seq![45u8] + pad2(ts.day as nat)
        + seq![32u8] + pad2(ts.hour as nat) + seq![58u8] + pad2(ts.minute as nat) + seq![58u8]
        + pad2(ts.second as nat)
}

/// Pushes `n` as two zero-padded decimal digits.
fn push_pad2(v: &mut Vec<u8>, n: u8)
    requires
        n < 100,
    ensures
        final(v)@ == old(v)@ + pad2(n as nat),
{
    v.push(48 + n / 10);
    v.push(48 + n % 10);
    proof {
        assert(final(v)@ =~= old(v)@ + pad2(n as nat));
    }
}

impl Timestamp {
    /// Formats the timestamp as `YYYY-MM-DD HH:MM:SS`, each field zero
    /// padded to fixed width.
    pub fn format(&self) -> (r: Vec<u8>)
        requires
            self.wf(),
        ensures
            r@ == spec_format_time(*self),
    {
        let mut v: Vec<u8> = Vec::new();
        let y = self.year;
        v.push((48 + (y / 1000) % 10) as u8);
        v.push((48 + (y / 100) % 10) as u8);
        v.push((48 + (y / 10) % 10) as u8);
        v.push((48 + y % 10) as u8);
        v.push(45);
        push_pad2(&mut v, self.month);
        v.push(45);
        push_pad2(&mut v, self.day);
        v.push(32);
        push_pad2(&mut v, self.hour);
        v.push(58);
        push_pad2(&mut v, self.minute);
        v.push(58);
        push_pad2(&mut v, self.second);
        proof {
            assert(v@ =~= spec_format_time(*self));
        }
        v
    }
}

/// Relies on chrono's `Local::now` and the `Datelike` / `Timelike`
/// accessors: `month` is 1 to 12, `day` is 1 to 31, `hour` is 0 to 23,
/// `minute` and `second` are 0 to 59. Nothing is assumed of the year: the
/// clock decides it.
#[verifier::external_body]
fn now_parts() -> (r: (i32, u32, u32, u32, u32, u32))
    ensures
        1 <= r.1 <= 12,
        1 <= r.2 <= 31,
        r.3 <= 23,
        r.4 <= 59,
        r.5 <= 59,
{
    let now = chrono::Local::now();
    (now.year(), now.month(), now.day(), now.hour(), now.minute(), now.second())
}

/// Reads the current local time and formats it as `YYYY-MM-DD HH:MM:SS`.
/// Returns `None` only when the clock's year does not have four decimal
/// digits.
pub fn time_reading() -> (r: Option<Vec<u8>>)
    ensures
        r is Some ==> exists|ts: Timestamp|
            ts.wf() && r->Some_0@ == spec_format_time(ts),
{
    let (year, month, day, hour, minute, second) = now_parts();
    if 0 <= year && year <= 9999 {
        let ts = Timestamp {
            year: year as u16,
            month: month as u8,
            day: day as u8,
            hour: hour as u8,
            minute: minute as u8,
            second: second as u8,
        };
        let out = ts.format();
        proof {
            assert(ts.wf() && out@ == spec_format_time(ts));
        }
        Some(out)
    } else {
        None
    }
}

} // verus!
