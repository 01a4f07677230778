//! The creation time of a task: an instant and the local offset it was
//! taken with, held as plain integers. The calendar work (date labels, the
//! timezone-aware text of the persisted format, the clock) is chrono's.

use vstd::prelude::*;
use crate::text::is_digit;

verus! {

/// Seconds since the epoch of 0000-01-01T00:00:00Z.
pub const MIN_SECS: i64 = -62_167_219_200;

/// Seconds since the epoch of 9999-12-31T23:59:59Z.
pub const MAX_SECS: i64 = 253_402_300_799;

/// Largest count of nanoseconds within a second.
pub const MAX_NANOS: u32 = 999_999_999;

/// Largest offset from UTC, in seconds, on either side.
pub const MAX_OFFSET: i32 = 86_399;

/// Whether the three numbers make a timestamp: the instant and the local
/// time both lie in the years 0 to 9999, the nanoseconds within one second
/// and the offset within a day.
pub open spec fn in_range(secs: int, nanos: int, offset: int) -> bool {
    &&& MIN_SECS <= secs <= MAX_SECS
    &&& MIN_SECS <= secs + offset <= MAX_SECS
    &&& 0 <= nanos <= MAX_NANOS
    &&& -MAX_OFFSET <= offset <= MAX_OFFSET
}

/// `value` moved to the nearest point of `low ..= high`.
pub open spec fn clamp(value: int, low: int, high: int) -> int {
    if value < low {
        low
    } else if value > high {
        high
    } else {
        value
    }
}

/// The timestamp nearest to the three numbers: the offset and the
/// nanoseconds are clamped first, then the seconds, so that the local time
/// stays in range too. Numbers in range are kept as they are.
pub open spec fn saturated(secs: int, nanos: int, offset: int) -> (int, int, int) {
    let off = clamp(offset, -MAX_OFFSET, MAX_OFFSET as int);
    let low = if off < 0 { MIN_SECS - off } else { MIN_SECS as int };
    let high = if off > 0 { MAX_SECS - off } else { MAX_SECS as int };
    (clamp(secs, low, high), clamp(nanos, 0, MAX_NANOS as int), off)
}

/// What chrono's `format("%d/%m/%y")` writes for the instant `secs`, `nanos`
/// seen at `offset` seconds east of UTC.
pub uninterp spec fn date_text(secs: i64, nanos: u32, offset: i32) -> Seq<char>;

/// What chrono's `to_rfc3339` writes for the instant `secs`, `nanos` seen at
/// `offset` seconds east of UTC.
pub uninterp spec fn rfc3339_text(secs: i64, nanos: u32, offset: i32) -> Seq<char>;

/// What chrono's `parse_from_rfc3339` reads from `text`: seconds since the
/// epoch, nanoseconds and offset in seconds east of UTC, or nothing where it
/// rejects the text.
pub uninterp spec fn rfc3339_parsed(text: Seq<char>) -> Option<(i64, u32, i32)>;

/// Whether `s` has the shape of a date label: three pairs of digits with a
/// slash between them.
pub open spec fn is_date_shape(s: Seq<char>) -> bool {
    &&& s.len() == 8
    &&& is_digit(s[0]) && is_digit(s[1]) && s[2] == '/'
    &&& is_digit(s[3]) && is_digit(s[4]) && s[5] == '/'
    &&& is_digit(s[6]) && is_digit(s[7])
}

/// Calls `DateTime::format` of chrono with the pattern `%d/%m/%y` on the
/// instant `secs`, `nanos` in the fixed zone `offset`. The result is named,
/// not computed here; chrono writes each of the three fields as two digits.
#[verifier::external_body]
fn chrono_date_label(secs: i64, nanos: u32, offset: i32) -> (out: String)
    requires
        in_range(secs as int, nanos as int, offset as int),
    ensures
        out@ == date_text(secs, nanos, offset),
        is_date_shape(out@),
{
    let zone = chrono::FixedOffset::east_opt(offset).unwrap();
    let at = chrono::DateTime::from_timestamp(secs, nanos).unwrap().with_timezone(&zone);
    at.format("%d/%m/%y").to_string()
}

/// Whether `s` can stand as one field of a line: it holds no tab, no line
/// feed and no carriage return.
pub open spec fn is_field_text(s: Seq<char>) -> bool {
    forall|i: int| 0 <= i < s.len() ==> #[trigger] s[i] != '\t' && s[i] != '\n' && s[i] != '\r'
}

/// Calls `DateTime::to_rfc3339` of chrono on the instant `secs`, `nanos` in
/// the fixed zone `offset`. The result is named, not computed here; chrono
/// writes it with digits, signs, colons, a dot and the letters `T` and `Z`.
#[verifier::external_body]
fn chrono_to_rfc3339(secs: i64, nanos: u32, offset: i32) -> (out: String)
    requires
        in_range(secs as int, nanos as int, offset as int),
    ensures
        out@ == rfc3339_text(secs, nanos, offset),
        is_field_text(out@),
{
    let zone = chrono::FixedOffset::east_opt(offset).unwrap();
    let at = chrono::DateTime::from_timestamp(secs, nanos).unwrap().with_timezone(&zone);
    at.to_rfc3339()
}

/// Calls `DateTime::parse_from_rfc3339` of chrono and hands out the parts of
/// what it read, or nothing where chrono reports an error. The result is
/// named, not computed here.
#[verifier::external_body]
fn chrono_parse_rfc3339(text: &str) -> (out: Option<(i64, u32, i32)>)
    ensures
        out == rfc3339_parsed(text@),
{
    match chrono::DateTime::parse_from_rfc3339(text) {
        Ok(at) => {
            Some((at.timestamp(), at.timestamp_subsec_nanos(), at.offset().local_minus_utc()))
        },
        Err(_) => None,
    }
}

/// Calls `Local::now` of chrono and hands out the parts of the current local
/// time. Nothing is promised of them: they depend on the clock and on the
/// zone of the machine. chrono stops the program where the clock reads a
/// time before 1970, which no argument can rule out.
#[verifier::external_body]
fn chrono_now() -> (out: (i64, u32, i32)) {
    let at = chrono::Local::now();
    (at.timestamp(), at.timestamp_subsec_nanos(), at.offset().local_minus_utc())
}

/// Calls `DateTime::with_timezone` of chrono with the zone `Local` on the
/// instant `secs`, `nanos` and hands out the offset that the machine's zone
/// has at that instant. Nothing is promised of it: it depends on the zone
/// data of the machine, and chrono stops the program where they hold no
/// offset for the instant.
#[verifier::external_body]
fn chrono_local_offset(secs: i64, nanos: u32) -> (out: i32)
    requires
        in_range(secs as int, nanos as int, 0),
{
    let at = chrono::DateTime::from_timestamp(secs, nanos).unwrap();
    at.with_timezone(&chrono::Local).offset().local_minus_utc()
}

/// An instant together with the local offset it is seen at.
#[derive(Clone, Copy, Debug, PartialEq, Eq)]
pub struct Timestamp {
    secs: i64,
    nanos: u32,
    offset: i32,
}

impl Timestamp {
    #[verifier::type_invariant]
    spec fn well_formed(self) -> bool {
        in_range(self.secs as int, self.nanos as int, self.offset as int)
    }

    /// Seconds since the Unix epoch, in UTC.
    pub closed spec fn secs(self) -> i64 {
        self.secs
    }

    /// Nanoseconds past the second.
    pub closed spec fn nanos(self) -> u32 {
        self.nanos
    }

    /// Seconds that local time is ahead of UTC.
    pub closed spec fn offset(self) -> i32 {
        self.offset
    }

    /// The three numbers of the timestamp.
    pub open spec fn parts(self) -> (int, int, int) {
        (self.secs() as int, self.nanos() as int, self.offset() as int)
    }

    /// The date label of the timestamp, day, month and year in two digits
    /// each, in its own offset.
    pub open spec fn date_label_text(self) -> Seq<char> {
        date_text(self.secs(), self.nanos(), self.offset())
    }

    /// The text of the timestamp in the persisted format.
    pub open spec fn rfc3339(self) -> Seq<char> {
        rfc3339_text(self.secs(), self.nanos(), self.offset())
    }

    /// Makes a timestamp of three numbers that are in range.
    pub fn new(secs: i64, nanos: u32, offset: i32) -> (out: Option<Timestamp>)
        ensures
            out is Some <==> in_range(secs as int, nanos as int, offset as int),
            out matches Some(t) ==> t.parts() == (secs as int, nanos as int, offset as int),
    {
        if MIN_SECS <= secs && secs <= MAX_SECS && nanos <= MAX_NANOS && -MAX_OFFSET <= offset
            && offset <= MAX_OFFSET {
            let local: i64 = secs + offset as i64;
            if MIN_SECS <= local && local <= MAX_SECS {
                return Some(Timestamp { secs, nanos, offset });
            }
        }
        None
    }

    /// Makes the timestamp nearest to three numbers, whatever they are.
    pub fn saturating(secs: i64, nanos: u32, offset: i32) -> (out: Timestamp)
        ensures
            out.parts() == saturated(secs as int, nanos as int, offset as int),
            in_range(secs as int, nanos as int, offset as int) ==> out.parts() == (
                secs as int,
                nanos as int,
                offset as int,
            ),
    {
        let off: i32 = if offset < -MAX_OFFSET {
            -MAX_OFFSET
        } else if offset > MAX_OFFSET {
            MAX_OFFSET
        } else {
            offset
        };
        let low: i64 = if off < 0 { MIN_SECS - off as i64 } else { MIN_SECS };
        let high: i64 = if off > 0 { MAX_SECS - off as i64 } else { MAX_SECS };
        let s: i64 = if secs < low { low } else if secs > high { high } else { secs };
        let n: u32 = if nanos > MAX_NANOS { MAX_NANOS } else { nanos };
        Timestamp { secs: s, nanos: n, offset: off }
    }

    /// Seconds since the Unix epoch, in UTC.
    pub fn seconds(&self) -> (out: i64)
        ensures
            out == self.secs(),
            MIN_SECS <= out <= MAX_SECS,
    {
        proof {
            use_type_invariant(self);
        }
        self.secs
    }

    /// Nanoseconds past the second.
    pub fn nanoseconds(&self) -> (out: u32)
        ensures
            out == self.nanos(),
            out <= MAX_NANOS,
    {
        proof {
            use_type_invariant(self);
        }
        self.nanos
    }

    /// Seconds that local time is ahead of UTC.
    pub fn offset_seconds(&self) -> (out: i32)
        ensures
            out == self.offset(),
            -MAX_OFFSET <= out <= MAX_OFFSET,
    {
        proof {
            use_type_invariant(self);
        }
        self.offset
    }

    /// The same instant seen at another offset; at the two ends of the range
    /// the instant gives way so that the local time stays in range.
    pub fn with_offset(&self, offset: i32) -> (out: Timestamp)
        ensures
            out.parts() == saturated(self.secs() as int, self.nanos() as int, offset as int),
    {
        Timestamp::saturating(self.secs, self.nanos, offset)
    }

    /// The current time as the clock and the zone of the machine give it,
    /// moved into range where it lies outside.
    pub fn now() -> (out: Timestamp)
        ensures
            in_range(out.secs() as int, out.nanos() as int, out.offset() as int),
    {
        let (secs, nanos, offset) = chrono_now();
        Timestamp::saturating(secs, nanos, offset)
    }

    /// The same instant seen at the offset that the machine's zone has at
    /// that instant.
    pub fn in_local_zone(&self) -> (out: Timestamp)
        ensures
            exists|offset: i32| out.parts() == saturated(
                self.secs() as int,
                self.nanos() as int,
                offset as int,
            ),
    {
        proof {
            use_type_invariant(self);
        }
        let offset = chrono_local_offset(self.secs, self.nanos);
        self.with_offset(offset)
    }

    /// The date label shown in the task table, `DD/MM/YY`.
    pub fn date_label(&self) -> (out: String)
        ensures
            out@ == self.date_label_text(),
            is_date_shape(out@),
    {
        proof {
            use_type_invariant(self);
        }
        chrono_date_label(self.secs, self.nanos, self.offset)
    }

    /// The text of the timestamp in the persisted format.
    pub fn to_rfc3339(&self) -> (out: String)
        ensures
            out@ == self.rfc3339(),
            is_field_text(out@),
    {
        proof {
            use_type_invariant(self);
        }
        chrono_to_rfc3339(self.secs, self.nanos, self.offset)
    }

    /// The numbers of the timestamp that stands for what chrono has read
    /// from a text: the nearest timestamp to it, or nothing where chrono has
    /// read nothing.
    pub open spec fn from_parsed(read: Option<(i64, u32, i32)>) -> Option<(int, int, int)> {
        match read {
            Some((secs, nanos, offset)) => Some(
                saturated(secs as int, nanos as int, offset as int),
            ),
            None => None,
        }
    }

    /// The numbers of the timestamp, if any.
    pub open spec fn parts_of(stamp: Option<Timestamp>) -> Option<(int, int, int)> {
        match stamp {
            Some(t) => Some(t.parts()),
            None => None,
        }
    }

    /// Reads a timestamp from its text in the persisted format.
    pub fn parse_rfc3339(text: &str) -> (out: Option<Timestamp>)
        ensures
            Timestamp::parts_of(out) == Timestamp::from_parsed(rfc3339_parsed(text@)),
    {
        match chrono_parse_rfc3339(text) {
            Some((secs, nanos, offset)) => Some(Timestamp::saturating(secs, nanos, offset)),
            None => None,
        }
    }
}

} // verus!
