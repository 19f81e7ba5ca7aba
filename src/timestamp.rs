use vstd::prelude::*;

use crate::config::DELIMITER;

verus! {

/// A UTC date and time to the second, as written into artifact names.
#[derive(Debug, Clone, Copy, PartialEq, Eq, Structural)]
pub struct Timestamp {
    pub year: u32,
    pub month: u32,
    pub day: u32,
    pub hour: u32,
    pub minute: u32,
    pub second: u32,
}

impl Timestamp {
    /// Every field in its calendar range, and a year of at most four digits.
    pub open spec fn wf(self) -> bool {
        &&& self.year <= 9999
        &&& 1 <= self.month <= 12
        &&& 1 <= self.day <= 31
        &&& self.hour < 24
        &&& self.minute < 60
        &&& self.second < 60
    }
}

pub open spec fn digit_char(d: nat) -> char {
    seq!['0', '1', '2', '3', '4', '5', '6', '7', '8', '9'][d as int]
}

/// The last `width` decimal digits of `v`, most significant first.
pub open spec fn digits(v: nat, width: nat) -> Seq<char>
    decreases width,
{
    if width == 0 {
        Seq::<char>::empty()
    } else {
        digits(v / 10, (width - 1) as nat).push(digit_char(v % 10))
    }
}

/// The compact ISO 8601 form `YYYYMMDDTHHMMSS`, which holds no delimiter.
pub open spec fn timestamp_chars(t: Timestamp) -> Seq<char> {
    digits(t.year as nat, 4) + digits(t.month as nat, 2) + digits(t.day as nat, 2) + seq!['T']
        + digits(t.hour as nat, 2) + digits(t.minute as nat, 2) + digits(t.second as nat, 2)
}

pub proof fn lemma_digits_no_delimiter(v: nat, width: nat)
    ensures
        digits(v, width).len() == width,
        !digits(v, width).contains(DELIMITER),
    decreases width,
{
    if width > 0 {
        lemma_digits_no_delimiter(v / 10, (width - 1) as nat);
        let init = digits(v / 10, (width - 1) as nat);
        let s = digits(v, width);
        assert forall|k: int| 0 <= k < s.len() implies s[k] != DELIMITER by {
            if k < init.len() {
                assert(s[k] == init[k]);
            }
        }
    }
}

/// A written timestamp is fifteen characters long and free of the delimiter.
pub proof fn lemma_timestamp_no_delimiter(t: Timestamp)
    ensures
        timestamp_chars(t).len() == 15,
        !timestamp_chars(t).contains(DELIMITER),
{
    let parts = seq![
        digits(t.year as nat, 4),
        digits(t.month as nat, 2),
        digits(t.day as nat, 2),
        seq!['T'],
        digits(t.hour as nat, 2),
        digits(t.minute as nat, 2),
        digits(t.second as nat, 2),
    ];
    lemma_digits_no_delimiter(t.year as nat, 4);
    lemma_digits_no_delimiter(t.month as nat, 2);
    lemma_digits_no_delimiter(t.day as nat, 2);
    lemma_digits_no_delimiter(t.hour as nat, 2);
    lemma_digits_no_delimiter(t.minute as nat, 2);
    lemma_digits_no_delimiter(t.second as nat, 2);
    let s = timestamp_chars(t);
    assert forall|k: int| 0 <= k < s.len() implies s[k] != DELIMITER by {
        let a = digits(t.year as nat, 4);
        let b = digits(t.month as nat, 2);
        let c = digits(t.day as nat, 2);
        let e = digits(t.hour as nat, 2);
        let f = digits(t.minute as nat, 2);
        let g = digits(t.second as nat, 2);
        if k < 4 {
            assert(s[k] == a[k]);
        } else if k < 6 {
            assert(s[k] == b[k - 4]);
        } else if k < 8 {
            assert(s[k] == c[k - 6]);
        } else if k == 8 {
        } else if k < 11 {
            assert(s[k] == e[k - 9]);
        } else if k < 13 {
            assert(s[k] == f[k - 11]);
        } else {
            assert(s[k] == g[k - 13]);
        }
    }
}

fn digit_str(d: u32) -> (r: &'static str)
    requires
        d < 10,
    ensures
        r@ == seq![digit_char(d as nat)],
{
    proof {
        reveal_strlit("0");
        reveal_strlit("1");
        reveal_strlit("2");
        reveal_strlit("3");
        reveal_strlit("4");
        reveal_strlit("5");
        reveal_strlit("6");
        reveal_strlit("7");
        reveal_strlit("8");
        reveal_strlit("9");
    }
    let r = match d {
        0 => "0",
        1 => "1",
        2 => "2",
        3 => "3",
        4 => "4",
        5 => "5",
        6 => "6",
        7 => "7",
        8 => "8",
        _ => "9",
    };
    assert(r@ =~= seq![digit_char(d as nat)]);
    r
}

fn push_digits(out: &mut String, v: u32, width: usize)
    ensures
        final(out)@ == old(out)@ + digits(v as nat, width as nat),
    decreases width,
{
    if width > 0 {
        push_digits(out, v / 10, width - 1);
        out.append(digit_str(v % 10));
        assert(final(out)@ =~= old(out)@ + digits(v as nat, width as nat));
    } else {
        assert(final(out)@ =~= old(out)@ + digits(v as nat, width as nat));
    }
}

#[verifier::external_type_specification]
#[verifier::external_body]
pub struct ExSystemTime(std::time::SystemTime);

/// Relies on std's `SystemTime::now`: the system clock's current reading.
#[verifier::external_body]
fn system_now() -> std::time::SystemTime {
    std::time::SystemTime::now()
}

/// Relies on std's `SystemTime::duration_since`: the whole seconds from the
/// Unix epoch to `t`, or `None` when `t` lies before the epoch.
#[verifier::external_body]
fn seconds_since_epoch(t: &std::time::SystemTime) -> Option<u64> {
    match t.duration_since(std::time::UNIX_EPOCH) {
        Ok(d) => Some(d.as_secs()),
        Err(_) => None,
    }
}

/// The UTC calendar fields (year, month, day, hour, minute, second) of a Unix
/// time in seconds, as chrono computes them, or `None` when out of its range.
pub uninterp spec fn utc_fields_of(secs: i64) -> Option<(i32, u32, u32, u32, u32, u32)>;

/// Relies on chrono's `DateTime::from_timestamp`, which gives `None` for seconds out of
/// its range, and on the `Datelike` / `Timelike` accessors, whose documentation gives
/// month 1 to 12, day 1 to 31, hour 0 to 23, minute and second 0 to 59.
#[verifier::external_body]
fn utc_fields_at(secs: i64) -> (r: Option<(i32, u32, u32, u32, u32, u32)>)
    ensures
        r == utc_fields_of(secs),
        r matches Some(f) ==> 1 <= f.1 <= 12 && 1 <= f.2 <= 31 && f.3 < 24 && f.4 < 60 && f.5
            < 60,
{
    match chrono::DateTime::from_timestamp(secs, 0) {
        Some(t) => Some((
            chrono::Datelike::year(&t),
            chrono::Datelike::month(&t),
            chrono::Datelike::day(&t),
            chrono::Timelike::hour(&t),
            chrono::Timelike::minute(&t),
            chrono::Timelike::second(&t),
        )),
        None => None,
    }
}

/// The timestamp of a clock reading, when every field is in range.
pub open spec fn clock_timestamp(f: (i32, u32, u32, u32, u32, u32)) -> Option<Timestamp> {
    if 0 <= f.0 <= 9999 && 1 <= f.1 <= 12 && 1 <= f.2 <= 31 && f.3 < 24 && f.4 < 60 && f.5 < 60 {
        Some(Timestamp { year: f.0 as u32, month: f.1, day: f.2, hour: f.3, minute: f.4, second: f.5 })
    } else {
        None
    }
}

/// The timestamp of `secs` seconds after the Unix epoch.
pub open spec fn unix_timestamp(secs: u64) -> Option<Timestamp> {
    if secs > i64::MAX as u64 {
        None
    } else {
        match utc_fields_of(secs as i64) {
            Some(f) => clock_timestamp(f),
            None => None,
        }
    }
}

impl Timestamp {
    /// The timestamp of the given clock reading, when every field is in range.
    pub fn from_clock(year: i32, month: u32, day: u32, hour: u32, minute: u32, second: u32) -> (r:
        Option<Timestamp>)
        ensures
            r is Some <==> (0 <= year <= 9999 && 1 <= month <= 12 && 1 <= day <= 31 && hour < 24
                && minute < 60 && second < 60),
            r matches Some(t) ==> t.wf() && t.year == year && t.month == month && t.day == day
                && t.hour == hour && t.minute == minute && t.second == second,
            r == clock_timestamp((year, month, day, hour, minute, second)),
    {
        if 0 <= year && year <= 9999 && 1 <= month && month <= 12 && 1 <= day && day <= 31 && hour
            < 24 && minute < 60 && second < 60 {
            Some(
                Timestamp { year: year as u32, month, day, hour, minute, second },
            )
        } else {
            None
        }
    }

    /// The UTC time `secs` seconds after the Unix epoch, when its year is in 0 to 9999.
    pub fn from_unix_seconds(secs: u64) -> (r: Option<Timestamp>)
        ensures
            r == unix_timestamp(secs),
            r matches Some(t) ==> t.wf(),
    {
        if secs > i64::MAX as u64 {
            return None;
        }
        match utc_fields_at(secs as i64) {
            Some((year, month, day, hour, minute, second)) => Timestamp::from_clock(
                year,
                month,
                day,
                hour,
                minute,
                second,
            ),
            None => None,
        }
    }

    /// The current UTC time; `None` when the clock reads before the Unix epoch
    /// or past the year 9999.
    pub fn now() -> (r: Option<Timestamp>)
        ensures
            r matches Some(t) ==> t.wf(),
    {
        let clock = system_now();
        match seconds_since_epoch(&clock) {
            Some(secs) => Timestamp::from_unix_seconds(secs),
            None => None,
        }
    }

    /// The compact ISO 8601 form `YYYYMMDDTHHMMSS`.
    pub fn to_compact(&self) -> (r: String)
        ensures
            r@ == timestamp_chars(*self),
    {
        let mut out = String::new();
        push_digits(&mut out, self.year, 4);
        push_digits(&mut out, self.month, 2);
        push_digits(&mut out, self.day, 2);
        proof {
            reveal_strlit("T");
        }
        out.append("T");
        push_digits(&mut out, self.hour, 2);
        push_digits(&mut out, self.minute, 2);
        push_digits(&mut out, self.second, 2);
        assert(out@ =~= timestamp_chars(*self));
        out
    }
}

} // verus!
