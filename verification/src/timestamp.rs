//! Calendar timestamps and the two text formats the sources emit.
//!
//! The repository log reports author dates as `YYYY/MM/DD hh:mm:ss`; the
//! release API reports creation times as strict UTC `YYYY-MM-DDThh:mm:ssZ`.
//! Both are parsed here, exactly and only in those shapes; a text that fails
//! its expected format is an error, never silently dropped.

use vstd::prelude::*;

use crate::text;

verus! {

/// A calendar timestamp, second precision, no time zone attached.
#[derive(Clone, Copy, PartialEq, Eq, Structural, Debug)]
pub struct Timestamp {
    pub year: u32,
    pub month: u32,
    pub day: u32,
    pub hour: u32,
    pub minute: u32,
    pub second: u32,
}

pub open spec fn is_leap_year(y: int) -> bool {
    y % 4 == 0 && (y % 100 != 0 || y % 400 == 0)
}

pub open spec fn spec_days_in_month(y: int, m: int) -> int {
    if m == 2 {
        if is_leap_year(y) {
            29
        } else {
            28
        }
    } else if m == 4 || m == 6 || m == 9 || m == 11 {
        30
    } else {
        31
    }
}

pub fn days_in_month(y: u32, m: u32) -> (r: u32)
    ensures
        r == spec_days_in_month(y as int, m as int),
{
    if m == 2 {
        if y % 4 == 0 && (y % 100 != 0 || y % 400 == 0) {
            29
        } else {
            28
        }
    } else if m == 4 || m == 6 || m == 9 || m == 11 {
        30
    } else {
        31
    }
}

impl Timestamp {
    /// A timestamp is well formed when its fields name a real calendar
    /// date (leap years included) within a four-digit year, and a valid
    /// time of day.
    pub open spec fn wf(self) -> bool {
        &&& self.year <= 9999
        &&& 1 <= self.month <= 12
        &&& 1 <= self.day <= spec_days_in_month(self.year as int, self.month as int)
        &&& self.hour <= 23
        &&& self.minute <= 59
        &&& self.second <= 59
    }

    /// A single integer that orders timestamps chronologically: later
    /// calendar instants map to strictly larger keys.
    pub open spec fn spec_key(self) -> int {
        ((((self.year * 12 + (self.month - 1)) * 31 + (self.day - 1)) * 24 + self.hour) * 60
            + self.minute) * 60 + self.second
    }

    /// Executable ordering key; fits easily in `u64` for well-formed values.
    pub fn key(&self) -> (r: u64)
        requires
            self.wf(),
        ensures
            r == self.spec_key(),
    {
        ((((self.year as u64 * 12 + (self.month as u64 - 1)) * 31 + (self.day as u64 - 1)) * 24
            + self.hour as u64) * 60 + self.minute as u64) * 60 + self.second as u64
    }

    /// Executable test matching `wf`.
    pub fn is_wf(&self) -> (r: bool)
        ensures
            r == self.wf(),
    {
        self.year <= 9999 && 1 <= self.month && self.month <= 12 && 1 <= self.day && self.day
            <= days_in_month(self.year, self.month) && self.hour <= 23 && self.minute <= 59
            && self.second <= 59
    }
}

/// The ordering key respects the lexicographic order of the calendar
/// fields: of two well-formed timestamps, the one that comes earlier in
/// calendar time has the strictly smaller key.
pub proof fn lemma_key_orders_chronologically(a: Timestamp, b: Timestamp)
    requires
        a.wf(),
        b.wf(),
        a.year < b.year || (a.year == b.year && (a.month < b.month || (a.month == b.month && (
        a.day < b.day || (a.day == b.day && (a.hour < b.hour || (a.hour == b.hour && (a.minute
            < b.minute || (a.minute == b.minute && a.second < b.second))))))))),
    ensures
        a.spec_key() < b.spec_key(),
{
}

pub open spec fn is_digit(c: char) -> bool {
    48 <= c as u32 <= 57
}

pub open spec fn digit(c: char) -> int {
    c as u32 - 48
}

/// The two-digit number written at positions `i` and `i + 1`.
pub open spec fn num2(s: Seq<char>, i: int) -> int {
    digit(s[i]) * 10 + digit(s[i + 1])
}

/// The four-digit number written at positions `i` through `i + 3`.
pub open spec fn num4(s: Seq<char>, i: int) -> int {
    digit(s[i]) * 1000 + digit(s[i + 1]) * 100 + digit(s[i + 2]) * 10 + digit(s[i + 3])
}

/// Digits stand at the same offsets in both formats: four for the year,
/// then two each for month, day, hour, minute, second.
pub open spec fn digits_in_place(s: Seq<char>) -> bool {
    &&& is_digit(s[0]) && is_digit(s[1]) && is_digit(s[2]) && is_digit(s[3])
    &&& is_digit(s[5]) && is_digit(s[6])
    &&& is_digit(s[8]) && is_digit(s[9])
    &&& is_digit(s[11]) && is_digit(s[12])
    &&& is_digit(s[14]) && is_digit(s[15])
    &&& is_digit(s[17]) && is_digit(s[18])
}

/// The timestamp spelled by the digits, whatever the separators are.
pub open spec fn fields_of(s: Seq<char>) -> Timestamp {
    Timestamp {
        year: num4(s, 0) as u32,
        month: num2(s, 5) as u32,
        day: num2(s, 8) as u32,
        hour: num2(s, 11) as u32,
        minute: num2(s, 14) as u32,
        second: num2(s, 17) as u32,
    }
}

/// Shape of the repository log format `YYYY/MM/DD hh:mm:ss`.
pub open spec fn repo_shape(s: Seq<char>) -> bool {
    &&& s.len() == 19
    &&& digits_in_place(s)
    &&& s[4] == '/' && s[7] == '/' && s[10] == ' ' && s[13] == ':' && s[16] == ':'
}

/// Shape of the release API format `YYYY-MM-DDThh:mm:ssZ`.
pub open spec fn release_shape(s: Seq<char>) -> bool {
    &&& s.len() == 20
    &&& digits_in_place(s)
    &&& s[4] == '-' && s[7] == '-' && s[10] == 'T' && s[13] == ':' && s[16] == ':' && s[19] == 'Z'
}

/// What the repository format accepts: the exact shape above, naming a
/// real calendar date and time.
pub open spec fn parse_repo_spec(s: Seq<char>) -> Option<Timestamp> {
    if repo_shape(s) && fields_of(s).wf() {
        Some(fields_of(s))
    } else {
        None
    }
}

/// What the release format accepts.
pub open spec fn parse_release_spec(s: Seq<char>) -> Option<Timestamp> {
    if release_shape(s) && fields_of(s).wf() {
        Some(fields_of(s))
    } else {
        None
    }
}

/// The expected layout of a timestamp text.
#[derive(Clone, Copy, PartialEq, Eq, Structural, Debug)]
pub enum TimestampFormat {
    /// `YYYY/MM/DD hh:mm:ss`, as the repository log reports author dates.
    Repository,
    /// `YYYY-MM-DDThh:mm:ssZ`, as the release API reports creation times.
    ReleaseApi,
}

pub open spec fn parse_timestamp_spec(f: TimestampFormat, s: Seq<char>) -> Option<Timestamp> {
    match f {
        TimestampFormat::Repository => parse_repo_spec(s),
        TimestampFormat::ReleaseApi => parse_release_spec(s),
    }
}

fn digit_val(c: char) -> (r: Option<u32>)
    ensures
        r is Some <==> is_digit(c),
        r matches Some(d) ==> d == digit(c) && d <= 9,
{
    let u = c as u32;
    if 48 <= u && u <= 57 {
        Some(u - 48)
    } else {
        None
    }
}

fn num2_exec(v: &Vec<char>, i: usize) -> (r: Option<u32>)
    requires
        i + 1 < v@.len(),
    ensures
        r is Some <==> is_digit(v@[i as int]) && is_digit(v@[i + 1]),
        r matches Some(n) ==> n == num2(v@, i as int) && n <= 99,
{
    let _n = v.len();
    let d0 = digit_val(v[i]);
    let d1 = digit_val(v[i + 1]);
    match (d0, d1) {
        (Some(a), Some(b)) => Some(a * 10 + b),
        _ => None,
    }
}

fn num4_exec(v: &Vec<char>, i: usize) -> (r: Option<u32>)
    requires
        i + 3 < v@.len(),
    ensures
        r is Some <==> is_digit(v@[i as int]) && is_digit(v@[i + 1]) && is_digit(v@[i + 2])
            && is_digit(v@[i + 3]),
        r matches Some(n) ==> n == num4(v@, i as int) && n <= 9999,
{
    let _n = v.len();
    let d0 = digit_val(v[i]);
    let d1 = digit_val(v[i + 1]);
    let d2 = digit_val(v[i + 2]);
    let d3 = digit_val(v[i + 3]);
    match (d0, d1, d2, d3) {
        (Some(a), Some(b), Some(c), Some(d)) => Some(a * 1000 + b * 100 + c * 10 + d),
        _ => None,
    }
}

/// Parse the digit fields shared by both formats; the separators have
/// already been checked by the caller.
fn parse_fields(v: &Vec<char>) -> (r: Option<Timestamp>)
    requires
        v@.len() >= 19,
    ensures
        r is Some <==> digits_in_place(v@) && fields_of(v@).wf(),
        r matches Some(t) ==> t == fields_of(v@),
{
    let year = num4_exec(v, 0);
    let month = num2_exec(v, 5);
    let day = num2_exec(v, 8);
    let hour = num2_exec(v, 11);
    let minute = num2_exec(v, 14);
    let second = num2_exec(v, 17);
    match (year, month, day, hour, minute, second) {
        (Some(y), Some(mo), Some(d), Some(h), Some(mi), Some(s)) => {
            let t = Timestamp { year: y, month: mo, day: d, hour: h, minute: mi, second: s };
            if t.is_wf() {
                Some(t)
            } else {
                None
            }
        },
        _ => None,
    }
}

/// Parse a repository log timestamp `YYYY/MM/DD hh:mm:ss`.
pub fn parse_repo_timestamp(s: &str) -> (r: Option<Timestamp>)
    ensures
        r == parse_repo_spec(s@),
{
    let v = text::chars_of(s);
    if v.len() != 19 {
        return None;
    }
    if !(v[4] == '/' && v[7] == '/' && v[10] == ' ' && v[13] == ':' && v[16] == ':') {
        return None;
    }
    parse_fields(&v)
}

/// Parse a release API timestamp `YYYY-MM-DDThh:mm:ssZ`.
pub fn parse_release_timestamp(s: &str) -> (r: Option<Timestamp>)
    ensures
        r == parse_release_spec(s@),
{
    let v = text::chars_of(s);
    if v.len() != 20 {
        return None;
    }
    if !(v[4] == '-' && v[7] == '-' && v[10] == 'T' && v[13] == ':' && v[16] == ':' && v[19]
        == 'Z') {
        return None;
    }
    parse_fields(&v)
}

/// Parse a timestamp text under the given format.
pub fn parse_timestamp(f: TimestampFormat, s: &str) -> (r: Option<Timestamp>)
    ensures
        r == parse_timestamp_spec(f, s@),
{
    match f {
        TimestampFormat::Repository => parse_repo_timestamp(s),
        TimestampFormat::ReleaseApi => parse_release_timestamp(s),
    }
}

} // verus!
