//! Turns a fixed-layout ASCII capture-time string, `YYYY:MM:DD HH:MM:SS`,
//! into a naive local date-time.  Any deviation from the layout or an
//! out-of-range field is a parse failure.  No timezone is inferred: values
//! compare as wall-clock times, as camera firmware records them.

use vstd::prelude::*;

verus! {

/// A naive local date-time with no timezone offset attached.
#[derive(Clone, Copy, Debug, PartialEq, Eq, Structural)]
pub struct DateTime {
    pub year: u16,
    pub month: u8,
    pub day: u8,
    pub hour: u8,
    pub minute: u8,
    pub second: u8,
}

/// The proleptic Gregorian leap-year rule.
pub open spec fn is_leap_year(y: int) -> bool {
    (y % 4 == 0 && y % 100 != 0) || y % 400 == 0
}

/// How many days month `m` of year `y` has.
pub open spec fn days_in_month(y: int, m: int) -> int {
    if m == 2 {
        if is_leap_year(y) {
            29
        } else {
            28
        }
    } else if m == 4 || m == 6 || m == 9 || m == 11 {
        30
    } else {
        31
    }
}

/// A date-time is valid when every field lies in its calendar range.
pub open spec fn dt_valid(dt: DateTime) -> bool {
    &&& dt.year <= 9999
    &&& 1 <= dt.month <= 12
    &&& 1 <= dt.day <= days_in_month(dt.year as int, dt.month as int)
    &&& dt.hour <= 23
    &&& dt.minute <= 59
    &&& dt.second <= 59
}

/// ASCII decimal digit.
pub open spec fn is_digit(b: u8) -> bool {
    48 <= b <= 57
}

/// The value of one ASCII digit.
pub open spec fn digit(b: u8) -> int {
    b - 48
}

/// The value of the two digits at `i`, `i + 1`.
pub open spec fn two_digits(s: Seq<u8>, i: int) -> int {
    10 * digit(s[i]) + digit(s[i + 1])
}

/// The value of the four digits at `i` .. `i + 3`.
pub open spec fn four_digits(s: Seq<u8>, i: int) -> int {
    1000 * digit(s[i]) + 100 * digit(s[i + 1]) + 10 * digit(s[i + 2]) + digit(s[i + 3])
}

/// The string has exactly the layout `YYYY:MM:DD HH:MM:SS`: 19 bytes,
/// digits in the six number positions, colons and one space between them.
pub open spec fn timestamp_layout_ok(s: Seq<u8>) -> bool {
    &&& s.len() == 19
    &&& is_digit(s[0]) && is_digit(s[1]) && is_digit(s[2]) && is_digit(s[3])
    &&& s[4] == 58
    &&& is_digit(s[5]) && is_digit(s[6])
    &&& s[7] == 58
    &&& is_digit(s[8]) && is_digit(s[9])
    &&& s[10] == 32
    &&& is_digit(s[11]) && is_digit(s[12])
    &&& s[13] == 58
    &&& is_digit(s[14]) && is_digit(s[15])
    &&& s[16] == 58
    &&& is_digit(s[17]) && is_digit(s[18])
}

/// Given the layout, every field lies in its calendar range.
pub open spec fn timestamp_fields_ok(s: Seq<u8>) -> bool {
    let y = four_digits(s, 0);
    let mo = two_digits(s, 5);
    let d = two_digits(s, 8);
    &&& 1 <= mo <= 12
    &&& 1 <= d <= days_in_month(y, mo)
    &&& two_digits(s, 11) <= 23
    &&& two_digits(s, 14) <= 59
    &&& two_digits(s, 17) <= 59
}

/// A string parses iff it has the exact layout and in-range fields.
pub open spec fn timestamp_parses(s: Seq<u8>) -> bool {
    timestamp_layout_ok(s) && timestamp_fields_ok(s)
}

/// A strictly monotone encoding of a valid date-time: later wall-clock
/// times give strictly larger keys, equal times equal keys.
pub open spec fn time_key(dt: DateTime) -> int {
    ((((dt.year * 12 + dt.month) * 31 + dt.day) * 24 + dt.hour) * 60 + dt.minute) * 60 + dt.second
}

/// Two valid date-times with the same key are the same date-time: the
/// key encoding is injective on calendar-valid values.
pub proof fn lemma_time_key_injective(a: DateTime, b: DateTime)
    requires
        dt_valid(a),
        dt_valid(b),
        time_key(a) == time_key(b),
    ensures
        a == b,
{
    assert(a.day <= 31 && b.day <= 31);
    let a5 = (((a.year * 12 + a.month) * 31 + a.day) * 24 + a.hour) * 60 + a.minute;
    let b5 = (((b.year * 12 + b.month) * 31 + b.day) * 24 + b.hour) * 60 + b.minute;
    assert(a5 == b5 && a.second == b.second);
    let a4 = ((a.year * 12 + a.month) * 31 + a.day) * 24 + a.hour;
    let b4 = ((b.year * 12 + b.month) * 31 + b.day) * 24 + b.hour;
    assert(a4 == b4 && a.minute == b.minute);
    let a3 = (a.year * 12 + a.month) * 31 + a.day;
    let b3 = (b.year * 12 + b.month) * 31 + b.day;
    assert(a3 == b3 && a.hour == b.hour);
    let a2 = a.year * 12 + a.month;
    let b2 = b.year * 12 + b.month;
    assert(a2 == b2 && a.day == b.day);
    assert(a.year == b.year && a.month == b.month);
}

/// Computes `time_key` for any field values without overflow.
pub fn capture_key(dt: &DateTime) -> (r: u64)
    ensures
        r == time_key(*dt),
{
    let y = dt.year as u64;
    let mo = dt.month as u64;
    let d = dt.day as u64;
    let h = dt.hour as u64;
    let mi = dt.minute as u64;
    let s = dt.second as u64;
    ((((y * 12 + mo) * 31 + d) * 24 + h) * 60 + mi) * 60 + s
}

fn digit_at(s: &Vec<u8>, i: usize) -> (r: Option<u8>)
    requires
        i < s@.len(),
    ensures
        match r {
            Some(v) => is_digit(s@[i as int]) && v == digit(s@[i as int]),
            None => !is_digit(s@[i as int]),
        },
{
    let b = s[i];
    if 48 <= b && b <= 57 {
        Some(b - 48)
    } else {
        None
    }
}

fn read_two(s: &Vec<u8>, i: usize) -> (r: Option<u8>)
    requires
        i + 1 < s@.len(),
    ensures
        match r {
            Some(v) => is_digit(s@[i as int]) && is_digit(s@[i + 1]) && v == two_digits(
                s@,
                i as int,
            ),
            None => !(is_digit(s@[i as int]) && is_digit(s@[i + 1])),
        },
{
    let _n = s.len();
    match (digit_at(s, i), digit_at(s, i + 1)) {
        (Some(a), Some(b)) => Some(10 * a + b),
        _ => None,
    }
}

fn read_four(s: &Vec<u8>, i: usize) -> (r: Option<u16>)
    requires
        i + 3 < s@.len(),
    ensures
        match r {
            Some(v) => is_digit(s@[i as int]) && is_digit(s@[i + 1]) && is_digit(s@[i + 2])
                && is_digit(s@[i + 3]) && v == four_digits(s@, i as int) && v <= 9999,
            None => !(is_digit(s@[i as int]) && is_digit(s@[i + 1]) && is_digit(s@[i + 2])
                && is_digit(s@[i + 3])),
        },
{
    let _n = s.len();
    match (digit_at(s, i), digit_at(s, i + 1), digit_at(s, i + 2), digit_at(s, i + 3)) {
        (Some(a), Some(b), Some(c), Some(d)) => Some(
            1000 * (a as u16) + 100 * (b as u16) + 10 * (c as u16) + (d as u16),
        ),
        _ => None,
    }
}

/// How many days the month has, by the proleptic Gregorian calendar.
pub fn month_length(year: u16, month: u8) -> (r: u8)
    ensures
        r == days_in_month(year as int, month as int),
{
    if month == 2 {
        if (year % 4 == 0 && year % 100 != 0) || year % 400 == 0 {
            29
        } else {
            28
        }
    } else if month == 4 || month == 6 || month == 9 || month == 11 {
        30
    } else {
        31
    }
}

/// Parses a capture-time string.  Returns `Ok` exactly when the bytes have
/// the `YYYY:MM:DD HH:MM:SS` layout and every field is in range; the
/// result's fields are then exactly the decimal values written in the
/// string.
pub fn parse_timestamp(s: &Vec<u8>) -> (r: Result<DateTime, ()>)
    ensures
        r is Ok <==> timestamp_parses(s@),
        r matches Ok(dt) ==> {
            &&& dt.year == four_digits(s@, 0)
            &&& dt.month == two_digits(s@, 5)
            &&& dt.day == two_digits(s@, 8)
            &&& dt.hour == two_digits(s@, 11)
            &&& dt.minute == two_digits(s@, 14)
            &&& dt.second == two_digits(s@, 17)
            &&& dt_valid(dt)
        },
{
    if s.len() != 19 {
        return Err(());
    }
    if !(s[4] == 58 && s[7] == 58 && s[10] == 32 && s[13] == 58 && s[16] == 58) {
        return Err(());
    }
    let year = match read_four(s, 0) {
        Some(v) => v,
        None => {
            return Err(());
        },
    };
    let month = match read_two(s, 5) {
        Some(v) => v,
        None => {
            return Err(());
        },
    };
    let day = match read_two(s, 8) {
        Some(v) => v,
        None => {
            return Err(());
        },
    };
    let hour = match read_two(s, 11) {
        Some(v) => v,
        None => {
            return Err(());
        },
    };
    let minute = match read_two(s, 14) {
        Some(v) => v,
        None => {
            return Err(());
        },
    };
    let second = match read_two(s, 17) {
        Some(v) => v,
        None => {
            return Err(());
        },
    };
    if month < 1 || month > 12 {
        return Err(());
    }
    if day < 1 || day > month_length(year, month) {
        return Err(());
    }
    if hour > 23 || minute > 59 || second > 59 {
        return Err(());
    }
    Ok(DateTime { year, month, day, hour, minute, second })
}

} // verus!
