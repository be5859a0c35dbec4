//! The simulation epoch, given as an ISO 8601 date-time ("YYYY-MM-DDTHH:MM:SSZ").

use vstd::prelude::*;
use vstd::string::*;
use vstd::utf8::{
    encode_utf8, decode_utf8, is_char_boundary, valid_utf8, valid_utf8_split,
    is_char_boundary_iff_not_is_continuation_byte, is_char_boundary_start_end_of_seq,
};
use crate::text::{trim, trim_s, signed_decimal, i64_to_decimal, field_text};

verus! {

broadcast use vstd::utf8::encode_utf8_valid_utf8;

/// ASCII '0'..='9'.
pub open spec fn is_digit_byte(x: u8) -> bool {
    48 <= x && x <= 57
}

/// Value of a run of ASCII digits.
pub open spec fn digits_value(ds: Seq<u8>) -> int
    decreases ds.len(),
{
    if ds.len() == 0 {
        0
    } else {
        digits_value(ds.drop_last()) * 10 + (ds.last() - 48)
    }
}

/// Every byte is an ASCII digit.
pub open spec fn all_digits(ds: Seq<u8>) -> bool {
    forall|i: int| 0 <= i < ds.len() ==> is_digit_byte(#[trigger] ds[i])
}

/// `bs` without a leading '+' or '-'.
pub open spec fn unsigned_part(bs: Seq<u8>) -> Seq<u8> {
    if bs.len() > 0 && (bs[0] == 43 || bs[0] == 45) {
        bs.drop_first()
    } else {
        bs
    }
}

/// What `str::parse::<i64>` gives for these bytes (too few for an overflow):
/// an optional sign followed by at least one ASCII digit, and nothing else.
pub open spec fn parse_int(bs: Seq<u8>) -> Option<int> {
    if bs.len() == 0 {
        None
    } else if (bs[0] == 43 || bs[0] == 45) && bs.len() == 1 {
        None
    } else if all_digits(unsigned_part(bs)) {
        Some(
            if bs[0] == 45 {
                -digits_value(unsigned_part(bs))
            } else {
                digits_value(unsigned_part(bs))
            },
        )
    } else {
        None
    }
}

/// Reading one fixed-width field `lo..hi` of the date-time.
pub enum FieldRead {
    /// The field is not an integer.
    Bad,
    Value(int),
}

pub open spec fn read_field(b: Seq<u8>, lo: int, hi: int) -> FieldRead {
    match parse_int(b.subrange(lo, hi)) {
        None => FieldRead::Bad,
        Some(v) => FieldRead::Value(v),
    }
}

/// What parsing a date-time gives.
pub enum EpochOutcome {
    Fails(Seq<char>),
    Gives(int),
}

/// The bytes have the shape "YYYY-MM-DDTHH:MM:SSZ": twenty bytes, with '-' at 4 and 7,
/// 'T' at 10, ':' at 13 and 16, and 'Z' last.
pub open spec fn epoch_shape(b: Seq<u8>) -> bool {
    &&& b.len() == 20
    &&& b[4] == 45
    &&& b[7] == 45
    &&& b[10] == 84
    &&& b[13] == 58
    &&& b[16] == 58
    &&& b[19] == 90
}

/// The error for a field that is not an integer.
pub open spec fn invalid_field(name: Seq<char>, b: Seq<u8>, lo: int, hi: int) -> Seq<char> {
    "Invalid "@ + name + ": '"@ + decode_utf8(b.subrange(lo, hi)) + "'"@
}

/// Division rounding toward zero, as Rust's `/` on integers.
pub open spec fn div_toward_zero(a: int, b: int) -> int {
    if a >= 0 {
        a / b
    } else {
        -((-a) / b)
    }
}

/// Days from 1970-01-01 to the given civil date, by the shifted-year (March-based) algorithm.
pub open spec fn days_from_civil(year: int, month: int, day: int) -> int {
    let y = if month <= 2 { year - 1 } else { year };
    let m = if month <= 2 { month + 9 } else { month - 3 };
    365 * y + div_toward_zero(y, 4) - div_toward_zero(y, 100) + div_toward_zero(y, 400) + (m * 306
        + 5) / 10 + (day - 1) - 719468
}

/// Seconds since the Unix epoch of the given fields.
pub open spec fn unix_seconds(year: int, month: int, day: int, hour: int, min: int, sec: int) -> int {
    days_from_civil(year, month, day) * 86400 + hour * 3600 + min * 60 + sec
}

/// Outcome once year, month and day are read.
pub open spec fn epoch_after_date(b: Seq<u8>, year: int, month: int, day: int) -> EpochOutcome {
    match read_field(b, 11, 13) {
        FieldRead::Bad => EpochOutcome::Fails(invalid_field("hour"@, b, 11, 13)),
        FieldRead::Value(hour) => match read_field(b, 14, 16) {
                FieldRead::Bad => EpochOutcome::Fails(invalid_field("minute"@, b, 14, 16)),
            FieldRead::Value(min) => match read_field(b, 17, 19) {
                        FieldRead::Bad => EpochOutcome::Fails(invalid_field("second"@, b, 17, 19)),
                FieldRead::Value(sec) => if month < 1 || month > 12 || day < 1 || day > 31 {
                    EpochOutcome::Fails(
                        "Invalid date: "@ + signed_decimal(year) + seq!['-'] + signed_decimal(
                            month,
                        ) + seq!['-'] + signed_decimal(day),
                    )
                } else {
                    EpochOutcome::Gives(unix_seconds(year, month, day, hour, min, sec))
                },
            },
        },
    }
}

/// What `iso8601_to_unix` gives for `s`: the text is trimmed and must be at least 19
/// bytes long and have the shape "YYYY-MM-DDTHH:MM:SSZ"; its fields are then read from
/// their fixed byte positions, in order, stopping at the first that is not an integer.
pub open spec fn epoch_outcome(s: Seq<char>) -> EpochOutcome {
    let t = trim_s(s);
    let b = encode_utf8(t);
    if b.len() < 19 {
        EpochOutcome::Fails("Too short: '"@ + t + "'"@)
    } else if !epoch_shape(b) {
        EpochOutcome::Fails("Invalid format: '"@ + t + "'"@)
    } else {
        match read_field(b, 0, 4) {
            FieldRead::Bad => EpochOutcome::Fails(invalid_field("year"@, b, 0, 4)),
            FieldRead::Value(year) => match read_field(b, 5, 7) {
                FieldRead::Bad => EpochOutcome::Fails(invalid_field("month"@, b, 5, 7)),
                FieldRead::Value(month) => match read_field(b, 8, 10) {
                    FieldRead::Bad => EpochOutcome::Fails(invalid_field("day"@, b, 8, 10)),
                    FieldRead::Value(day) => epoch_after_date(b, year, month, day),
                },
            },
        }
    }
}

/// Bound on a value of `k` decimal digits.
spec fn digits_bound(k: int) -> int {
    if k <= 0 {
        1
    } else if k == 1 {
        10
    } else if k == 2 {
        100
    } else if k == 3 {
        1000
    } else {
        10000
    }
}

/// Parse the bytes `lo..hi` (at most four) as `str::parse::<i64>` does.
fn parse_field(b: &[u8], lo: usize, hi: usize) -> (r: Option<i64>)
    requires
        lo <= hi <= b@.len(),
        hi - lo <= 4,
    ensures
        match parse_int(b@.subrange(lo as int, hi as int)) {
            None => r.is_none(),
            Some(v) => r == Some(v as i64) && -9999 <= v <= 9999,
        },
{
    let ghost bs = b@.subrange(lo as int, hi as int);
    if lo == hi {
        return None;
    }
    let first = b[lo];
    let signed = first == 43 || first == 45;
    if signed && hi - lo == 1 {
        return None;
    }
    let start = if signed { lo + 1 } else { lo };
    let ghost ds = if signed { bs.drop_first() } else { bs };
    proof {
        assert(ds =~= b@.subrange(start as int, hi as int));
    }
    let mut v: i64 = 0;
    let mut k: usize = start;
    while k < hi
        invariant
            lo <= start <= k <= hi <= b@.len(),
            hi - start <= 4,
            ds == b@.subrange(start as int, hi as int),
            bs == b@.subrange(lo as int, hi as int),
            first == b@[lo as int],
            signed == (first == 43 || first == 45),
            start == (if signed { lo + 1 } else { lo as int }),
            ds == (if signed { bs.drop_first() } else { bs }),
            !(signed && hi - lo == 1),
            lo < hi,
            forall|i: int| start <= i < k ==> is_digit_byte(#[trigger] b@[i]),
            v == digits_value(b@.subrange(start as int, k as int)),
            0 <= v < digits_bound(k - start),
        decreases hi - k,
    {
        let x = b[k];
        if x < 48 || x > 57 {
            proof {
                assert(ds[k - start] == x);
                assert(!is_digit_byte(ds[k - start]));
                assert(bs[0] == first);
                assert(ds == unsigned_part(bs));
                assert(!all_digits(ds));
                assert(bs.len() > 0);
                assert(!((bs[0] == 43 || bs[0] == 45) && bs.len() == 1));
                assert(parse_int(bs).is_none());
            }
            return None;
        }
        proof {
            assert(b@.subrange(start as int, k + 1).drop_last() =~= b@.subrange(
                start as int,
                k as int,
            ));
        }
        v = v * 10 + (x - 48) as i64;
        k = k + 1;
    }
    proof {
        assert forall|i: int| 0 <= i < ds.len() implies is_digit_byte(#[trigger] ds[i]) by {
            assert(ds[i] == b@[start + i]);
        }
        assert(ds == unsigned_part(bs));
        assert(b@.subrange(start as int, hi as int) == ds);
    }
    if first == 45 {
        Some(-v)
    } else {
        Some(v)
    }
}

fn invalid_field_msg(name: &str, t: &str, lo: usize, hi: usize) -> (r: String)
    requires
        lo <= hi <= t.spec_bytes().len(),
        is_char_boundary(t.spec_bytes(), lo as int),
        is_char_boundary(t.spec_bytes(), hi as int),
    ensures
        r@ == invalid_field(name@, t.spec_bytes(), lo as int, hi as int),
{
    proof {
        reveal_strlit("Invalid ");
        reveal_strlit(": '");
        reveal_strlit("'");
    }
    let mut r = String::from_str("Invalid ");
    r.append(name);
    r.append(": '");
    r.append(field_text(t, lo, hi));
    r.append("'");
    r
}

/// Read field `lo..hi` of `t`: `Ok(value)`, or `Err` with the message for a bad field.
fn read_field_exec(t: &str, b: &[u8], lo: usize, hi: usize, name: &str) -> (r: Result<i64, String>)
    requires
        b@ == t.spec_bytes(),
        lo <= hi <= b@.len(),
        hi - lo <= 4,
        is_char_boundary(b@, lo as int),
        is_char_boundary(b@, hi as int),
    ensures
        match read_field(b@, lo as int, hi as int) {
            FieldRead::Value(v) => r == Ok::<i64, String>(v as i64) && -9999 <= v <= 9999,
            FieldRead::Bad => r is Err && r->Err_0@ == invalid_field(name@, b@, lo as int, hi as int),
        },
{
    match parse_field(b, lo, hi) {
        Some(v) => Ok(v),
        None => Err(invalid_field_msg(name, t, lo, hi)),
    }
}

/// A byte that is not a continuation byte starts a character, and so does the byte
/// after an ASCII byte.
proof fn lemma_boundary_after_ascii(b: Seq<u8>, k: int)
    requires
        valid_utf8(b),
        0 <= k,
        k + 1 < b.len(),
        b[k] < 128,
    ensures
        is_char_boundary(b, k),
        is_char_boundary(b, k + 1),
{
    is_char_boundary_iff_not_is_continuation_byte(b, k);
    let rest = b.subrange(k, b.len() as int);
    valid_utf8_split(b, k);
    assert(rest[0] == b[k]);
    assert(rest[1] == b[k + 1]);
    reveal_with_fuel(is_char_boundary, 2);
    reveal_with_fuel(valid_utf8, 2);
    assert(is_char_boundary(rest, 1));
    is_char_boundary_iff_not_is_continuation_byte(rest, 1);
    is_char_boundary_iff_not_is_continuation_byte(b, k + 1);
}

/// In text of the date-time's shape, every field starts and ends on a character.
proof fn lemma_epoch_boundaries(b: Seq<u8>)
    requires
        valid_utf8(b),
        epoch_shape(b),
    ensures
        is_char_boundary(b, 0),
        is_char_boundary(b, 4),
        is_char_boundary(b, 5),
        is_char_boundary(b, 7),
        is_char_boundary(b, 8),
        is_char_boundary(b, 10),
        is_char_boundary(b, 11),
        is_char_boundary(b, 13),
        is_char_boundary(b, 14),
        is_char_boundary(b, 16),
        is_char_boundary(b, 17),
        is_char_boundary(b, 19),
{
    is_char_boundary_start_end_of_seq(b);
    lemma_boundary_after_ascii(b, 4);
    lemma_boundary_after_ascii(b, 7);
    lemma_boundary_after_ascii(b, 10);
    lemma_boundary_after_ascii(b, 13);
    lemma_boundary_after_ascii(b, 16);
    is_char_boundary_iff_not_is_continuation_byte(b, 19);
}

/// Whether `year` is a leap year of the Gregorian calendar.
pub open spec fn is_leap_year(year: int) -> bool {
    year % 4 == 0 && (year % 100 != 0 || year % 400 == 0)
}

/// Number of days in `month` (1 to 12) of `year`.
pub open spec fn days_in_month(year: int, month: int) -> int {
    if month == 2 {
        if is_leap_year(year) {
            29
        } else {
            28
        }
    } else if month == 4 || month == 6 || month == 9 || month == 11 {
        30
    } else {
        31
    }
}

/// The calendar day after `year`-`month`-`day`.
pub open spec fn next_day(year: int, month: int, day: int) -> (int, int, int) {
    if day < days_in_month(year, month) {
        (year, month, day + 1)
    } else if month < 12 {
        (year, month + 1, 1)
    } else {
        (year + 1, 1, 1)
    }
}

proof fn lemma_leap_step(y: int)
    requires
        y >= 1,
    ensures
        div_toward_zero(y, 4) - div_toward_zero(y, 100) + div_toward_zero(y, 400) - (
        div_toward_zero(y - 1, 4) - div_toward_zero(y - 1, 100) + div_toward_zero(y - 1, 400))
            == (if is_leap_year(y) { 1int } else { 0int }),
{
    assert(y / 4 - (y - 1) / 4 == (if y % 4 == 0 { 1int } else { 0int }));
    assert(y / 100 - (y - 1) / 100 == (if y % 100 == 0 { 1int } else { 0int }));
    assert(y / 400 - (y - 1) / 400 == (if y % 400 == 0 { 1int } else { 0int }));
    assert(y % 400 == 0 ==> y % 100 == 0 && y % 4 == 0);
    assert(y % 100 == 0 ==> y % 4 == 0);
}

/// The epoch is midnight of 1970-01-01.
pub proof fn epoch_starts_at_1970()
    ensures
        unix_seconds(1970, 1, 1, 0, 0, 0) == 0,
{
}

/// Midnight of each calendar day (from year 1 on) comes exactly 86400 seconds after
/// midnight of the day before, across the ends of months, of leap and common
/// Februaries and of years. With `epoch_starts_at_1970` this makes the seconds of a
/// date its proleptic Gregorian day count since 1970-01-01, times 86400.
pub proof fn epoch_days_are_consecutive(year: int, month: int, day: int)
    requires
        year >= 1,
        1 <= month <= 12,
        1 <= day <= days_in_month(year, month),
    ensures
        ({
            let (y2, m2, d2) = next_day(year, month, day);
            unix_seconds(y2, m2, d2, 0, 0, 0) == unix_seconds(year, month, day, 0, 0, 0) + 86400
        }),
{
    if day < days_in_month(year, month) {
    } else if month == 2 {
        lemma_leap_step(year);
    } else if month < 12 {
    } else {
    }
}

/// The time of day adds its seconds to midnight of the date.
pub proof fn epoch_time_of_day(year: int, month: int, day: int, hour: int, min: int, sec: int)
    ensures
        unix_seconds(year, month, day, hour, min, sec) == unix_seconds(year, month, day, 0, 0, 0) + hour
            * 3600 + min * 60 + sec,
{
}

/// Seconds since the Unix epoch of validated fields.
fn unix_from_fields(year: i64, month: i64, day: i64, hour: i64, min: i64, sec: i64) -> (r: i64)
    requires
        -9999 <= year <= 9999,
        1 <= month <= 12,
        1 <= day <= 31,
        -9999 <= hour <= 9999,
        -9999 <= min <= 9999,
        -9999 <= sec <= 9999,
    ensures
        r == unix_seconds(year as int, month as int, day as int, hour as int, min as int, sec as int),
{
    let y = if month <= 2 { year - 1 } else { year };
    let m = if month <= 2 { month + 9 } else { month - 3 };
    let days = 365 * y + y / 4 - y / 100 + y / 400 + (m * 306 + 5) / 10 + (day - 1) - 719468;
    days * 86400 + hour * 3600 + min * 60 + sec
}

/// The rest of the parse once year, month and day are read.
fn finish_epoch(t: &str, b: &[u8], year: i64, month: i64, day: i64) -> (r: Result<i64, String>)
    requires
        b@ == t.spec_bytes(),
        epoch_shape(b@),
        -9999 <= year <= 9999,
        -9999 <= month <= 9999,
        -9999 <= day <= 9999,
    ensures
        match epoch_after_date(b@, year as int, month as int, day as int) {
            EpochOutcome::Gives(v) => r == Ok::<i64, String>(v as i64),
            EpochOutcome::Fails(msg) => r is Err && r->Err_0@ == msg,
        },
{
    proof {
        lemma_epoch_boundaries(b@);
        reveal_strlit("hour");
        reveal_strlit("minute");
        reveal_strlit("second");
    }
    let hour = match read_field_exec(t, b, 11, 13, "hour") {
        Ok(v) => v,
        Err(e) => return Err(e),
    };
    let min = match read_field_exec(t, b, 14, 16, "minute") {
        Ok(v) => v,
        Err(e) => return Err(e),
    };
    let sec = match read_field_exec(t, b, 17, 19, "second") {
        Ok(v) => v,
        Err(e) => return Err(e),
    };
    if month < 1 || month > 12 || day < 1 || day > 31 {
        proof {
            reveal_strlit("Invalid date: ");
            reveal_strlit("-");
        }
        let mut m = String::from_str("Invalid date: ");
        let ys = i64_to_decimal(year);
        m.append(ys.as_str());
        m.append("-");
        let ms = i64_to_decimal(month);
        m.append(ms.as_str());
        m.append("-");
        let ds = i64_to_decimal(day);
        m.append(ds.as_str());
        return Err(m);
    }
    Ok(unix_from_fields(year, month, day, hour, min, sec))
}

/// Parse a subset of ISO 8601: "YYYY-MM-DDTHH:MM:SSZ" to seconds since the Unix epoch.
/// Returns Err with a message if the format doesn't match.
pub fn iso8601_to_unix(s: &str) -> (r: Result<i64, String>)
    ensures
        match epoch_outcome(s@) {
            EpochOutcome::Gives(v) => r == Ok::<i64, String>(v as i64),
            EpochOutcome::Fails(msg) => r is Err && r->Err_0@ == msg,
        },
{
    let t = trim(s);
    let b = t.as_bytes();
    if b.len() < 19 {
        proof {
            reveal_strlit("Too short: '");
            reveal_strlit("'");
        }
        let mut m = String::from_str("Too short: '");
        m.append(t);
        m.append("'");
        return Err(m);
    }
    if !(b.len() == 20 && b[4] == 45 && b[7] == 45 && b[10] == 84 && b[13] == 58 && b[16] == 58
        && b[19] == 90) {
        proof {
            reveal_strlit("Invalid format: '");
            reveal_strlit("'");
        }
        let mut m = String::from_str("Invalid format: '");
        m.append(t);
        m.append("'");
        return Err(m);
    }
    proof {
        lemma_epoch_boundaries(b@);
    }
    proof {
        reveal_strlit("year");
        reveal_strlit("month");
        reveal_strlit("day");
    }
    let year = match read_field_exec(t, b, 0, 4, "year") {
        Ok(v) => v,
        Err(e) => return Err(e),
    };
    let month = match read_field_exec(t, b, 5, 7, "month") {
        Ok(v) => v,
        Err(e) => return Err(e),
    };
    let day = match read_field_exec(t, b, 8, 10, "day") {
        Ok(v) => v,
        Err(e) => return Err(e),
    };
    finish_epoch(t, b, year, month, day)
}

} // verus!
