//! Civil UTC instants.
//!
//! Archive versions are stamped with an upstream modification time (`mtime`)
//! and a last-check time (`utime`).  Both are UTC instants held as plain
//! calendar fields, so that the canonical `YYYYMMDDHHMMSS` file-name stamp is
//! a pure function of the value.  Ordering and durations go through
//! [`UtcTime::to_seconds`], the number of seconds since the proleptic
//! Gregorian epoch `0000-01-01T00:00:00Z`.

use vstd::prelude::*;

verus! {

/// A UTC instant, as calendar fields.  Valid values (see [`UtcTime::valid`])
/// range from year 0 to year 9999, so the stamp always has four year digits.
#[derive(Clone, Copy, Debug, PartialEq, Eq, Structural)]
pub struct UtcTime {
    pub year: u16,
    pub month: u8,
    pub day: u8,
    pub hour: u8,
    pub minute: u8,
    pub second: u8,
}

/// Leap years of the proleptic Gregorian calendar.
pub open spec fn is_leap_year(y: int) -> bool {
    y % 4 == 0 && (y % 100 != 0 || y % 400 == 0)
}

/// Number of days in a month.
pub open spec fn days_in_month(y: int, m: int) -> int {
    if m == 2 {
        if is_leap_year(y) {
            29
        } else {
            28
        }
    } else if m == 4 || m == 6 || m == 9 || m == 11 {
        30
    } else {
        31
    }
}

/// Days in the months of year `y` strictly before month `m`.
pub open spec fn days_before_month(y: int, m: int) -> int {
    let base: int = if m == 1 {
        0
    } else if m == 2 {
        31
    } else if m == 3 {
        59
    } else if m == 4 {
        90
    } else if m == 5 {
        120
    } else if m == 6 {
        151
    } else if m == 7 {
        181
    } else if m == 8 {
        212
    } else if m == 9 {
        243
    } else if m == 10 {
        273
    } else if m == 11 {
        304
    } else {
        334
    };
    if m > 2 && is_leap_year(y) {
        base + 1
    } else {
        base
    }
}

/// Number of leap years in `[0, y)`.
pub open spec fn leap_days_before(y: int) -> int {
    (y + 3) / 4 - (y + 99) / 100 + (y + 399) / 400
}

impl UtcTime {
    /// Calendar validity, with the year capped so the stamp is four digits.
    pub open spec fn valid(self) -> bool {
        &&& self.year <= 9999
        &&& 1 <= self.month <= 12
        &&& 1 <= self.day <= days_in_month(self.year as int, self.month as int)
        &&& self.hour < 24
        &&& self.minute < 60
        &&& self.second < 60
    }

    /// Days since 0000-01-01.
    pub open spec fn day_index(self) -> int {
        365 * self.year + leap_days_before(self.year as int) + days_before_month(
            self.year as int,
            self.month as int,
        ) + self.day - 1
    }

    /// Seconds since 0000-01-01T00:00:00Z.  Total order on valid instants.
    pub open spec fn sec_index(self) -> int {
        self.day_index() * 86400 + 3600 * self.hour + 60 * self.minute + self.second
    }
}

/// Whether the calendar fields form a valid instant; mirror of
/// [`UtcTime::valid`] over loose fields.
pub open spec fn fields_valid(
    year: u16,
    month: u8,
    day: u8,
    hour: u8,
    minute: u8,
    second: u8,
) -> bool {
    (UtcTime { year, month, day, hour, minute, second }).valid()
}

/// Number of days in the given month, executable mirror of [`days_in_month`].
pub fn month_length(year: u16, month: u8) -> (r: u8)
    requires
        1 <= month <= 12,
    ensures
        r as int == days_in_month(year as int, month as int),
{
    if month == 2 {
        if year % 4 == 0 && (year % 100 != 0 || year % 400 == 0) {
            29
        } else {
            28
        }
    } else if month == 4 || month == 6 || month == 9 || month == 11 {
        30
    } else {
        31
    }
}

impl UtcTime {
    /// Builds an instant from calendar fields, validating them.
    pub fn make(year: u16, month: u8, day: u8, hour: u8, minute: u8, second: u8) -> (r: Option<
        UtcTime,
    >)
        ensures
            r == if fields_valid(year, month, day, hour, minute, second) {
                Some(UtcTime { year, month, day, hour, minute, second })
            } else {
                None::<UtcTime>
            },
    {
        if year <= 9999 && 1 <= month && month <= 12 && 1 <= day && day <= month_length(
            year,
            month,
        ) && hour < 24 && minute < 60 && second < 60 {
            Some(UtcTime { year, month, day, hour, minute, second })
        } else {
            None
        }
    }

    /// Seconds since the epoch 0000-01-01T00:00:00Z, executable mirror of
    /// [`UtcTime::sec_index`].
    pub fn to_seconds(&self) -> (r: u64)
        requires
            self.valid(),
        ensures
            r as int == self.sec_index(),
    {
        let y: u64 = self.year as u64;
        let leaps: u64 = (y + 3) / 4 - (y + 99) / 100 + (y + 399) / 400;
        assert(leaps as int == leap_days_before(self.year as int));
        let before_month: u64 = self.month_offset();
        let days: u64 = 365 * y + leaps + before_month + (self.day as u64) - 1;
        assert(days as int == self.day_index());
        days * 86400 + 3600 * (self.hour as u64) + 60 * (self.minute as u64) + (self.second as u64)
    }

    /// Days before this month in this year, executable mirror of
    /// [`days_before_month`].
    fn month_offset(&self) -> (r: u64)
        requires
            1 <= self.month <= 12,
        ensures
            r as int == days_before_month(self.year as int, self.month as int),
{
        let base: u64 = if self.month == 1 {
            0
        } else if self.month == 2 {
            31
        } else if self.month == 3 {
            59
        } else if self.month == 4 {
            90
        } else if self.month == 5 {
            120
        } else if self.month == 6 {
            151
        } else if self.month == 7 {
            181
        } else if self.month == 8 {
            212
        } else if self.month == 9 {
            243
        } else if self.month == 10 {
            273
        } else if self.month == 11 {
            304
        } else {
            334
        };
        let leap: bool = self.year % 4 == 0 && (self.year % 100 != 0 || self.year % 400 == 0);
        if self.month > 2 && leap {
            base + 1
        } else {
            base
        }
    }

    /// Strictly-before, in timeline order.
    pub fn before(&self, other: &UtcTime) -> (r: bool)
        requires
            self.valid(),
            other.valid(),
        ensures
            r == (self.sec_index() < other.sec_index()),
    {
        self.to_seconds() < other.to_seconds()
    }
}

/// True of ASCII decimal digit bytes.
pub open spec fn is_digit(c: u8) -> bool {
    48 <= c <= 57
}

/// Value of an ASCII decimal digit byte.
pub open spec fn digit_val(c: u8) -> int {
    c - 48
}

/// The ASCII byte of a decimal digit.
pub open spec fn dec_digit(n: int) -> u8 {
    (48 + n) as u8
}

/// Two-digit zero-padded decimal, for `0 <= n < 100`.
pub open spec fn pad2(n: int) -> Seq<u8> {
    seq![dec_digit(n / 10), dec_digit(n % 10)]
}

/// Four-digit zero-padded decimal, for `0 <= n < 10000`.
pub open spec fn pad4(n: int) -> Seq<u8> {
    seq![
        dec_digit(n / 1000),
        dec_digit((n % 1000) / 100),
        dec_digit(((n % 1000) % 100) / 10),
        dec_digit(n % 10),
    ]
}

/// The 14-byte `YYYYMMDDHHMMSS` stamp of an instant, embedded in canonical
/// archive file names.
pub open spec fn stamp(t: UtcTime) -> Seq<u8> {
    pad4(t.year as int) + pad2(t.month as int) + pad2(t.day as int) + pad2(t.hour as int) + pad2(
        t.minute as int,
    ) + pad2(t.second as int)
}

/// Meaning of a 14-byte stamp: the valid instant it spells, if any.
pub open spec fn parse_stamp(s: Seq<u8>) -> Option<UtcTime> {
    if s.len() == 14 && (forall|i: int| 0 <= i < 14 ==> is_digit(#[trigger] s[i])) {
        let t = UtcTime {
            year: (digit_val(s[0]) * 1000 + digit_val(s[1]) * 100 + digit_val(s[2]) * 10
                + digit_val(s[3])) as u16,
            month: (digit_val(s[4]) * 10 + digit_val(s[5])) as u8,
            day: (digit_val(s[6]) * 10 + digit_val(s[7])) as u8,
            hour: (digit_val(s[8]) * 10 + digit_val(s[9])) as u8,
            minute: (digit_val(s[10]) * 10 + digit_val(s[11])) as u8,
            second: (digit_val(s[12]) * 10 + digit_val(s[13])) as u8,
        };
        if t.valid() {
            Some(t)
        } else {
            None
        }
    } else {
        None
    }
}

impl UtcTime {
    /// Writes the two digits of `n < 100` onto `out`.
    fn push_pad2(out: &mut Vec<u8>, n: u8)
        requires
            n < 100,
        ensures
            final(out)@ == old(out)@ + pad2(n as int),
    {
        out.push(48 + n / 10);
        out.push(48 + n % 10);
        assert(out@ =~= old(out)@ + pad2(n as int));
    }

    /// The `YYYYMMDDHHMMSS` stamp of this instant.
    pub fn format_stamp(&self) -> (r: Vec<u8>)
        requires
            self.valid(),
        ensures
            r@ == stamp(*self),
    {
        let mut out: Vec<u8> = Vec::new();
        let y: u16 = self.year;
        out.push(48 + (y / 1000) as u8);
        out.push(48 + ((y % 1000) / 100) as u8);
        out.push(48 + (((y % 1000) % 100) / 10) as u8);
        out.push(48 + (y % 10) as u8);
        assert(out@ =~= pad4(y as int));
        Self::push_pad2(&mut out, self.month);
        Self::push_pad2(&mut out, self.day);
        Self::push_pad2(&mut out, self.hour);
        Self::push_pad2(&mut out, self.minute);
        Self::push_pad2(&mut out, self.second);
        assert(out@ =~= stamp(*self));
        out
    }

    /// Reads a 14-byte `YYYYMMDDHHMMSS` stamp.
    pub fn parse_stamp_bytes(s: &[u8]) -> (r: Option<UtcTime>)
        ensures
            r == parse_stamp(s@),
    {
        if s.len() != 14 {
            return None;
        }
        let mut i: usize = 0;
        while i < 14
            invariant
                i <= 14,
                s@.len() == 14,
                forall|j: int| 0 <= j < i ==> is_digit(#[trigger] s@[j]),
            decreases 14 - i,
        {
            let c: u8 = s[i];
            if c < 48 || c > 57 {
                return None;
            }
            i += 1;
        }
        let year: u16 = (s[0] - 48) as u16 * 1000 + (s[1] - 48) as u16 * 100 + (s[2] - 48) as u16
            * 10 + (s[3] - 48) as u16;
        let month: u8 = (s[4] - 48) * 10 + (s[5] - 48);
        let day: u8 = (s[6] - 48) * 10 + (s[7] - 48);
        let hour: u8 = (s[8] - 48) * 10 + (s[9] - 48);
        let minute: u8 = (s[10] - 48) * 10 + (s[11] - 48);
        let second: u8 = (s[12] - 48) * 10 + (s[13] - 48);
        UtcTime::make(year, month, day, hour, minute, second)
    }
}

/// A stamp is fourteen ASCII digits.
pub proof fn lemma_stamp_digits(t: UtcTime)
    requires
        t.valid(),
    ensures
        stamp(t).len() == 14,
        forall|i: int| 0 <= i < 14 ==> is_digit(#[trigger] stamp(t)[i]),
{
    let s = stamp(t);
    assert(t.year / 1000 <= 9);
    assert forall|i: int| 0 <= i < 14 implies is_digit(#[trigger] s[i]) by {
        assert(s[0] == dec_digit(t.year as int / 1000));
        assert(s[1] == dec_digit((t.year as int % 1000) / 100));
        assert(s[2] == dec_digit(((t.year as int % 1000) % 100) / 10));
        assert(s[3] == dec_digit(t.year as int % 10));
        assert(s[4] == dec_digit(t.month as int / 10));
        assert(s[5] == dec_digit(t.month as int % 10));
        assert(s[6] == dec_digit(t.day as int / 10));
        assert(s[7] == dec_digit(t.day as int % 10));
        assert(s[8] == dec_digit(t.hour as int / 10));
        assert(s[9] == dec_digit(t.hour as int % 10));
        assert(s[10] == dec_digit(t.minute as int / 10));
        assert(s[11] == dec_digit(t.minute as int % 10));
        assert(s[12] == dec_digit(t.second as int / 10));
        assert(s[13] == dec_digit(t.second as int % 10));
    }
}

/// Round trip: reading back the stamp of a valid instant yields that instant.
pub proof fn lemma_stamp_round_trip(t: UtcTime)
    requires
        t.valid(),
    ensures
        parse_stamp(stamp(t)) == Some(t),
{
    let s = stamp(t);
    lemma_stamp_digits(t);
    let y: int = t.year as int;
    assert(digit_val(s[0]) == y / 1000);
    assert(digit_val(s[1]) == (y % 1000) / 100);
    assert(digit_val(s[2]) == ((y % 1000) % 100) / 10);
    assert(digit_val(s[3]) == y % 10);
    assert((y / 1000) * 1000 + ((y % 1000) / 100) * 100 + (((y % 1000) % 100) / 10) * 10 + y % 10
        == y);
    assert(digit_val(s[4]) * 10 + digit_val(s[5]) == t.month as int);
    assert(digit_val(s[6]) * 10 + digit_val(s[7]) == t.day as int);
    assert(digit_val(s[8]) * 10 + digit_val(s[9]) == t.hour as int);
    assert(digit_val(s[10]) * 10 + digit_val(s[11]) == t.minute as int);
    assert(digit_val(s[12]) * 10 + digit_val(s[13]) == t.second as int);
}

/// The Unix epoch, 1970-01-01T00:00:00Z.
pub open spec fn unix_epoch_time() -> UtcTime {
    UtcTime { year: 1970, month: 1, day: 1, hour: 0, minute: 0, second: 0 }
}

/// Seconds between an instant and the Unix epoch.
pub open spec fn spec_unix_secs(t: UtcTime) -> int {
    t.sec_index() - unix_epoch_time().sec_index()
}

impl UtcTime {
    /// Seconds since the Unix epoch, negative before it.
    pub fn to_unix_seconds(&self) -> (r: i64)
        requires
            self.valid(),
        ensures
            r as int == spec_unix_secs(*self),
    {
        let epoch = UtcTime { year: 1970, month: 1, day: 1, hour: 0, minute: 0, second: 0 };
        let own: u64 = self.to_seconds();
        let base: u64 = epoch.to_seconds();
        if own >= base {
            (own - base) as i64
        } else {
            -((base - own) as i64)
        }
    }
}

/// Every valid instant's second index lies between the start of year 0 and
/// the last second of year 9999.
pub proof fn lemma_sec_index_bounds(t: UtcTime)
    requires
        t.valid(),
    ensures
        0 <= t.sec_index() <= 315569519999,
{
    let y = t.year as int;
    let m = t.month as int;
    let d1 = (y + 3) / 4;
    let d2 = (y + 99) / 100;
    let d3 = (y + 399) / 400;
    assert(4 * d1 <= y + 3 < 4 * d1 + 4);
    assert(100 * d2 <= y + 99 < 100 * d2 + 100);
    assert(400 * d3 <= y + 399 < 400 * d3 + 400);
    assert(leap_days_before(y) >= 0);
    assert(0 <= days_before_month(y, m) <= 335);
    assert(1 <= t.day as int <= 31);
    if y == 9999 {
        assert(!is_leap_year(y));
        assert(days_before_month(y, m) <= 334);
        assert(leap_days_before(9999) == 2425);
        assert(t.day_index() <= 3652424);
    } else {
        assert(d1 <= 2500);
        assert(d3 <= 25);
        assert(leap_days_before(y) <= d1 + d3);
        assert(t.day_index() <= 365 * 9998 + 2525 + 335 + 30);
    }
    assert(t.day_index() >= 0);
    assert(t.sec_index() <= 3652424 * 86400 + 3600 * 23 + 60 * 59 + 59);
}

/// Every valid instant lies within the second range both calendar crates
/// can format and parse: from `0000-01-01T00:00:00Z` up to the last second
/// of year 9999.
pub proof fn lemma_unix_secs_bounds(t: UtcTime)
    requires
        t.valid(),
    ensures
        -62167219200 <= spec_unix_secs(t) <= 253402300799,
{
    lemma_sec_index_bounds(t);
    assert(leap_days_before(1970) == 478);
    assert(unix_epoch_time().day_index() == 719528);
    assert(unix_epoch_time().sec_index() == 62167219200);
}

/// The running day count at the start of year `y`.
pub open spec fn days_before_year(y: int) -> int {
    365 * y + leap_days_before(y)
}

/// Moving the leap-day count one year up adds one exactly for a leap year.
proof fn lemma_leap_days_step(y: int)
    requires
        0 <= y,
    ensures
        leap_days_before(y + 1) == leap_days_before(y) + if is_leap_year(y) {
            1int
        } else {
            0int
        },
{
    let q4 = y / 4;
    let r4 = y % 4;
    vstd::arithmetic::div_mod::lemma_fundamental_div_mod(y, 4);
    if r4 == 0 {
        assert(y + 3 == 4 * q4 + 3);
        vstd::arithmetic::div_mod::lemma_div_multiples_vanish_fancy(q4, 3, 4);
        assert(y + 4 == 4 * (q4 + 1) + 0);
        vstd::arithmetic::div_mod::lemma_div_multiples_vanish_fancy(q4 + 1, 0, 4);
    } else {
        assert(y + 3 == 4 * (q4 + 1) + (r4 - 1));
        vstd::arithmetic::div_mod::lemma_div_multiples_vanish_fancy(q4 + 1, r4 - 1, 4);
        assert(y + 4 == 4 * (q4 + 1) + r4);
        vstd::arithmetic::div_mod::lemma_div_multiples_vanish_fancy(q4 + 1, r4, 4);
    }
    let q100 = y / 100;
    let r100 = y % 100;
    vstd::arithmetic::div_mod::lemma_fundamental_div_mod(y, 100);
    if r100 == 0 {
        assert(y + 99 == 100 * q100 + 99);
        vstd::arithmetic::div_mod::lemma_div_multiples_vanish_fancy(q100, 99, 100);
        assert(y + 100 == 100 * (q100 + 1) + 0);
        vstd::arithmetic::div_mod::lemma_div_multiples_vanish_fancy(q100 + 1, 0, 100);
    } else {
        assert(y + 99 == 100 * (q100 + 1) + (r100 - 1));
        vstd::arithmetic::div_mod::lemma_div_multiples_vanish_fancy(q100 + 1, r100 - 1, 100);
        assert(y + 100 == 100 * (q100 + 1) + r100);
        vstd::arithmetic::div_mod::lemma_div_multiples_vanish_fancy(q100 + 1, r100, 100);
    }
    let q400 = y / 400;
    let r400 = y % 400;
    vstd::arithmetic::div_mod::lemma_fundamental_div_mod(y, 400);
    if r400 == 0 {
        assert(y + 399 == 400 * q400 + 399);
        vstd::arithmetic::div_mod::lemma_div_multiples_vanish_fancy(q400, 399, 400);
        assert(y + 400 == 400 * (q400 + 1) + 0);
        vstd::arithmetic::div_mod::lemma_div_multiples_vanish_fancy(q400 + 1, 0, 400);
    } else {
        assert(y + 399 == 400 * (q400 + 1) + (r400 - 1));
        vstd::arithmetic::div_mod::lemma_div_multiples_vanish_fancy(q400 + 1, r400 - 1, 400);
        assert(y + 400 == 400 * (q400 + 1) + r400);
        vstd::arithmetic::div_mod::lemma_div_multiples_vanish_fancy(q400 + 1, r400, 400);
    }
    if r400 == 0 {
        assert(y == 100 * (4 * q400));
        vstd::arithmetic::div_mod::lemma_div_multiples_vanish_fancy(4 * q400, 0, 100);
        vstd::arithmetic::div_mod::lemma_fundamental_div_mod(y, 100);
        assert(r100 == 0);
    }
    if r100 == 0 {
        assert(y == 4 * (25 * q100));
        vstd::arithmetic::div_mod::lemma_div_multiples_vanish_fancy(25 * q100, 0, 4);
        vstd::arithmetic::div_mod::lemma_fundamental_div_mod(y, 4);
        assert(r4 == 0);
    }
}

/// The day count at the start of a year never decreases as years pass.
proof fn lemma_days_before_year_monotone(a: int, b: int)
    requires
        0 <= a <= b,
    ensures
        days_before_year(a) <= days_before_year(b),
    decreases b - a,
{
    if a < b {
        lemma_leap_days_step(b - 1);
        lemma_days_before_year_monotone(a, b - 1);
    }
}

/// A valid instant's day index falls inside its own year's day range.
proof fn lemma_day_index_in_year(t: UtcTime)
    requires
        t.valid(),
    ensures
        days_before_year(t.year as int) <= t.day_index() < days_before_year(t.year as int + 1),
{
    let y = t.year as int;
    let m = t.month as int;
    lemma_leap_days_step(y);
    assert(days_before_month(y, m) + days_in_month(y, m) <= 365 + if is_leap_year(y) {
        1int
    } else {
        0int
    });
}

/// Within one year, month offsets do not overlap: a month's days end where
/// the next month's begin.
proof fn lemma_month_offsets(y: int, m: int)
    requires
        1 <= m < 12,
    ensures
        days_before_month(y, m) + days_in_month(y, m) == days_before_month(y, m + 1),
{
}

/// Month offsets grow with the month.
proof fn lemma_month_offsets_monotone(y: int, a: int, b: int)
    requires
        1 <= a <= b <= 12,
    ensures
        days_before_month(y, a) <= days_before_month(y, b),
    decreases b - a,
{
    if a < b {
        lemma_month_offsets(y, b - 1);
        lemma_month_offsets_monotone(y, a, b - 1);
    }
}

/// Two valid instants with the same day index share year, month and day.
proof fn lemma_day_index_injective(t1: UtcTime, t2: UtcTime)
    requires
        t1.valid(),
        t2.valid(),
        t1.day_index() == t2.day_index(),
    ensures
        t1.year == t2.year,
        t1.month == t2.month,
        t1.day == t2.day,
{
    let y1 = t1.year as int;
    let y2 = t2.year as int;
    lemma_day_index_in_year(t1);
    lemma_day_index_in_year(t2);
    if y1 < y2 {
        lemma_days_before_year_monotone(y1 + 1, y2);
        assert(false);
    }
    if y2 < y1 {
        lemma_days_before_year_monotone(y2 + 1, y1);
        assert(false);
    }
    let m1 = t1.month as int;
    let m2 = t2.month as int;
    if m1 < m2 {
        lemma_month_offsets(y1, m1);
        lemma_month_offsets_monotone(y1, m1 + 1, m2);
        assert(false);
    }
    if m2 < m1 {
        lemma_month_offsets(y1, m2);
        lemma_month_offsets_monotone(y1, m2 + 1, m1);
        assert(false);
    }
}

/// Two valid instants spelling the same second are the same instant: the
/// second index is a faithful timeline.  So any text that names an
/// instant's second — the side file's RFC 2822 line, an HTTP-date header —
/// reads back as exactly that instant.
pub proof fn lemma_sec_index_injective(t1: UtcTime, t2: UtcTime)
    requires
        t1.valid(),
        t2.valid(),
        t1.sec_index() == t2.sec_index(),
    ensures
        t1 == t2,
{
    let x1 = 3600 * (t1.hour as int) + 60 * (t1.minute as int) + (t1.second as int);
    let x2 = 3600 * (t2.hour as int) + 60 * (t2.minute as int) + (t2.second as int);
    assert(0 <= x1 < 86400);
    assert(0 <= x2 < 86400);
    assert(t1.day_index() == t2.day_index());
    lemma_day_index_injective(t1, t2);
    assert(x1 == x2);
    assert(t1.hour == t2.hour);
    assert(t1.minute == t2.minute);
    assert(t1.second == t2.second);
}

/// The same, over Unix seconds.
pub proof fn lemma_unix_secs_injective(t1: UtcTime, t2: UtcTime)
    requires
        t1.valid(),
        t2.valid(),
        spec_unix_secs(t1) == spec_unix_secs(t2),
    ensures
        t1 == t2,
{
    lemma_sec_index_injective(t1, t2);
}

} // verus!

