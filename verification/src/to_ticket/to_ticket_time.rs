//! The time at which a ticket was last changed.
//!
//! A time is held as seconds and nanoseconds since the start of 1970 in UTC.
//! Reading a time from text and writing it as text are chrono's work.

use vstd::prelude::*;

verus! {

#[verifier::external_type_specification]
#[verifier::external_body]
pub struct ExParseError(chrono::ParseError);

/// The first second that chrono can hold: the start of the year -262143.
pub const MIN_TIMESTAMP_SECS: i64 = -8_334_601_228_800;

/// The last second that chrono can hold: the end of the year 262142.
pub const MAX_TIMESTAMP_SECS: i64 = 8_210_266_876_799;

/// The number of days from the first day of the year 1 to the first day of
/// 1970, the former counted as day 1.
pub const UNIX_EPOCH_DAY: i64 = 719_163;

/// `secs` and `nanos` are a time that chrono can hold. A billion nanoseconds
/// or more stand for a leap second, which only the last second of a minute
/// can carry.
pub open spec fn valid_timestamp(secs: int, nanos: int) -> bool {
    &&& MIN_TIMESTAMP_SECS <= secs <= MAX_TIMESTAMP_SECS
    &&& 0 <= nanos < 2_000_000_000
    &&& nanos >= 1_000_000_000 ==> secs % 60 == 59
}

/// The format in which a ticket writes its time: year, month and day, then
/// hour, minute and second.
pub open spec fn timestamp_format() -> Seq<char> {
    "%Y-%m-%d %H:%M:%S"@
}

/// What chrono writes for the time `secs`, `nanos` in UTC under `format`.
pub uninterp spec fn timestamp_text(secs: int, nanos: int, format: Seq<char>) -> Seq<char>;

/// The time that chrono reads from `text` under `format`, as seconds and
/// nanoseconds; `None` where it reads none.
pub uninterp spec fn parsed_timestamp(text: Seq<char>, format: Seq<char>) -> Option<(int, int)>;

/// A time as plain values.
pub struct TimestampView {
    pub secs: int,
    pub nanos: int,
}

/// A moment, in UTC.
#[derive(Clone, Copy, Debug)]
pub struct ToTimestamp {
    secs: i64,
    nanos: u32,
}

impl View for ToTimestamp {
    type V = TimestampView;

    closed spec fn view(&self) -> TimestampView {
        TimestampView { secs: self.secs as int, nanos: self.nanos as int }
    }
}

/// `chrono::Utc::now`, as seconds and nanoseconds since the start of 1970.
/// Which moment comes back depends on the clock; it is one that chrono can
/// hold. chrono takes the clock to stand at or after the start of 1970.
#[verifier::external_body]
fn clock_now() -> (now: (i64, u32))
    ensures
        valid_timestamp(now.0 as int, now.1 as int),
{
    let now = chrono::Utc::now();
    (now.timestamp(), now.timestamp_subsec_nanos())
}

/// `chrono::DateTime::from_timestamp` and `DateTime::format`: the text of
/// the moment under `format`. The format is held to the one that tickets
/// use, whose every specifier chrono knows.
#[verifier::external_body]
fn chrono_format(secs: i64, nanos: u32, format: &str) -> (text: String)
    requires
        valid_timestamp(secs as int, nanos as int),
        format@ == timestamp_format(),
    ensures
        text@ == timestamp_text(secs as int, nanos as int, format@),
{
    chrono::DateTime::from_timestamp(secs, nanos).unwrap().format(format).to_string()
}

/// `chrono::NaiveDateTime::parse_from_str`: the moment that `text` names
/// under `format`, taken as UTC, or chrono's error. A moment that chrono
/// read is one that it can hold.
#[verifier::external_body]
fn chrono_parse(text: &str, format: &str) -> (read: Result<(i64, u32), chrono::ParseError>)
    ensures
        match read {
            Ok(moment) => {
                &&& parsed_timestamp(text@, format@) == Some((moment.0 as int, moment.1 as int))
                &&& valid_timestamp(moment.0 as int, moment.1 as int)
            },
            Err(_) => parsed_timestamp(text@, format@) is None,
        },
{
    let naive = chrono::NaiveDateTime::parse_from_str(text, format)?;
    let utc = naive.and_utc();
    Ok((utc.timestamp(), utc.timestamp_subsec_nanos()))
}

impl ToTimestamp {
    #[verifier::type_invariant]
    spec fn holds(self) -> bool {
        valid_timestamp(self.secs as int, self.nanos as int)
    }

    /// The moment `secs` seconds and `nanos` nanoseconds after the start of
    /// 1970, or `None` where chrono cannot hold it.
    pub fn from_timestamp(secs: i64, nanos: u32) -> (made: Option<ToTimestamp>)
        ensures
            match made {
                Some(t) => t@ == (TimestampView { secs: secs as int, nanos: nanos as int })
                    && valid_timestamp(secs as int, nanos as int),
                None => !valid_timestamp(secs as int, nanos as int),
            },
    {
        if secs < MIN_TIMESTAMP_SECS || secs > MAX_TIMESTAMP_SECS || nanos >= 2_000_000_000 {
            return None;
        }
        if nanos >= 1_000_000_000 {
            let shifted: u64 = (secs - MIN_TIMESTAMP_SECS) as u64;
            assert(MIN_TIMESTAMP_SECS == -138_910_020_480 * 60);
            assert((secs - MIN_TIMESTAMP_SECS) % 60 == secs % 60);
            if shifted % 60 != 59 {
                return None;
            }
        }
        Some(ToTimestamp { secs, nanos })
    }

    /// The moment at which the call is made.
    pub fn now() -> (t: ToTimestamp)
        ensures
            valid_timestamp(t@.secs, t@.nanos),
    {
        let (secs, nanos) = clock_now();
        ToTimestamp { secs, nanos }
    }

    /// The whole seconds since the start of 1970.
    pub fn secs(&self) -> (secs: i64)
        ensures
            secs == self@.secs,
            valid_timestamp(self@.secs, self@.nanos),
    {
        proof {
            use_type_invariant(self);
        }
        self.secs
    }

    /// The moment without what lies below its whole second.
    pub fn whole_seconds(&self) -> (t: ToTimestamp)
        ensures
            t@ == (TimestampView { secs: self@.secs, nanos: 0 }),
    {
        proof {
            use_type_invariant(self);
        }
        ToTimestamp { secs: self.secs, nanos: 0 }
    }

    /// The nanoseconds since the last whole second.
    pub fn nanos(&self) -> (nanos: u32)
        ensures
            nanos == self@.nanos,
    {
        self.nanos
    }

    /// The number of the day in which the moment falls, the first day of the
    /// year 1 counted as day 1.
    pub fn num_days_from_ce(&self) -> (days: i32)
        ensures
            days == self@.secs / 86_400 + UNIX_EPOCH_DAY,
    {
        proof {
            use_type_invariant(self);
        }
        let shifted: u64 = (self.secs - MIN_TIMESTAMP_SECS) as u64;
        let whole: u64 = shifted / 86_400;
        assert(MIN_TIMESTAMP_SECS == -96_465_292 * 86_400);
        assert((self.secs - MIN_TIMESTAMP_SECS) / 86_400 == self.secs / 86_400 + 96_465_292);
        (whole as i64 - 96_465_292 + UNIX_EPOCH_DAY) as i32
    }

    /// The moment as text: year, month and day, then hour, minute and
    /// second, with nothing below the second.
    pub fn format(&self) -> (text: String)
        ensures
            text@ == timestamp_text(self@.secs, self@.nanos, timestamp_format()),
    {
        proof {
            use_type_invariant(self);
        }
        chrono_format(self.secs, self.nanos, "%Y-%m-%d %H:%M:%S")
    }

    /// The moment that `text` names under `format`, or `None` where it names
    /// none.
    pub fn parse(text: &str, format: &str) -> (read: Option<ToTimestamp>)
        ensures
            match read {
                Some(t) => parsed_timestamp(text@, format@) == Some((t@.secs, t@.nanos)),
                None => parsed_timestamp(text@, format@) is None,
            },
    {
        match chrono_parse(text, format) {
            Ok(moment) => Some(ToTimestamp { secs: moment.0, nanos: moment.1 }),
            Err(_) => None,
        }
    }
}

} // verus!
