//! Two-line element sets (TLE): finding the element lines in a CelesTrak reply and
//! cutting the orbital elements out of their fixed columns.

use vstd::prelude::*;
use vstd::string::*;
use vstd::utf8::{encode_utf8, decode_utf8, is_char_boundary};
use crate::text::{first_index, lemma_first_index_range, trim, trim_s, field_text, chars_vec, find_char};

verus! {

/// The first line of `s` (split at '\n', each piece trimmed) that starts with `c`
/// followed by a space.
pub open spec fn first_line_with(s: Seq<char>, c: char) -> Option<Seq<char>>
    decreases s.len(),
{
    let k = first_index(s, '\n');
    let line = trim_s(s.take(k));
    proof {
        lemma_first_index_range(s, '\n');
    }
    if line.len() >= 2 && line[0] == c && line[1] == ' ' {
        Some(line)
    } else if k >= s.len() {
        None
    } else {
        first_line_with(s.skip(k + 1), c)
    }
}

/// The trimmed text of bytes `lo..hi` of `line`, when both are character boundaries.
pub open spec fn column(line: Seq<char>, lo: int, hi: int) -> Option<Seq<char>> {
    let b = encode_utf8(line);
    if is_char_boundary(b, lo) && is_char_boundary(b, hi) {
        Some(trim_s(decode_utf8(b.subrange(lo, hi))))
    } else {
        None
    }
}

/// The orbital elements of a TLE, as the numerals written in its second line.
pub struct TleFields {
    /// Inclination (degrees)
    pub inclination: String,
    /// Right ascension of the ascending node (degrees)
    pub raan: String,
    /// Eccentricity, with its implied leading "0." written out
    pub eccentricity: String,
    /// Argument of perigee (degrees)
    pub arg_periapsis: String,
    /// Mean anomaly (degrees)
    pub mean_anomaly: String,
    /// Mean motion (revolutions per day)
    pub mean_motion: String,
}

/// The element columns of a TLE text: both element lines present and at least
/// 68 bytes long, and every column of line 2 cut on character boundaries.
pub open spec fn tle_columns(text: Seq<char>) -> Option<
    (Seq<char>, Seq<char>, Seq<char>, Seq<char>, Seq<char>, Seq<char>),
> {
    match (first_line_with(text, '1'), first_line_with(text, '2')) {
        (Some(l1), Some(l2)) => {
            if encode_utf8(l1).len() < 68 || encode_utf8(l2).len() < 68 {
                None
            } else {
                match (
                    column(l2, 8, 16),
                    column(l2, 17, 25),
                    column(l2, 26, 33),
                    column(l2, 34, 42),
                    column(l2, 43, 51),
                    column(l2, 52, 63),
                ) {
                    (Some(inc), Some(raan), Some(ecc), Some(argp), Some(ma), Some(mm)) => Some(
                        (inc, raan, "0."@ + ecc, argp, ma, mm),
                    ),
                    _ => None,
                }
            }
        },
        _ => None,
    }
}

/// The first line of `text` that starts with `c` and a space (see `first_line_with`).
fn find_line(text: &str, c: char) -> (r: Option<&str>)
    ensures
        match first_line_with(text@, c) {
            Some(l) => r.is_some() && r.unwrap()@ == l,
            None => r.is_none(),
        },
{
    let chars = chars_vec(text);
    let mut pos: usize = 0;
    proof {
        assert(text@.skip(0) =~= text@);
    }
    while pos <= chars.len()
        invariant
            chars@ == text@,
            pos <= chars.len(),
            first_line_with(text@, c) == first_line_with(text@.skip(pos as int), c),
        decreases chars.len() - pos,
    {
        let k = find_char(&chars, pos, '\n');
        let ghost rest = text@.skip(pos as int);
        proof {
            assert(chars@.skip(pos as int) == rest);
            assert(rest.take(k - pos) =~= text@.subrange(pos as int, k as int));
        }
        let piece = text.substring_char(pos, k);
        let line = trim(piece);
        let lc = chars_vec(line);
        if lc.len() >= 2 && lc[0] == c && lc[1] == ' ' {
            return Some(line);
        }
        if k >= chars.len() {
            return None;
        }
        proof {
            assert(rest.skip(k - pos + 1) =~= text@.skip(k + 1));
        }
        pos = k + 1;
    }
    None
}

/// Trimmed text of bytes `lo..hi` of `line`, or `None` when they do not fall on
/// character boundaries (as `str::get` gives).
fn column_exec(line: &str, lo: usize, hi: usize) -> (r: Option<String>)
    requires
        lo <= hi <= line.spec_bytes().len(),
    ensures
        match column(line@, lo as int, hi as int) {
            Some(t) => r.is_some() && r.unwrap()@ == t,
            None => r.is_none(),
        },
{
    if line.is_char_boundary(lo) && line.is_char_boundary(hi) {
        let f = field_text(line, lo, hi);
        Some(String::from_str(trim(f)))
    } else {
        None
    }
}

/// Find the element lines of a TLE (2LE or 3LE text) and cut out the orbital
/// elements of line 2; `None` when a line is missing or too short, or a column
/// cannot be cut.
pub fn tle_fields(text: &str) -> (r: Option<TleFields>)
    ensures
        match tle_columns(text@) {
            Some(t) => r.is_some() && (
                r.unwrap().inclination@,
                r.unwrap().raan@,
                r.unwrap().eccentricity@,
                r.unwrap().arg_periapsis@,
                r.unwrap().mean_anomaly@,
                r.unwrap().mean_motion@,
            ) == t,
            None => r.is_none(),
        },
{
    let line1 = match find_line(text, '1') {
        Some(l) => l,
        None => return None,
    };
    let line2 = match find_line(text, '2') {
        Some(l) => l,
        None => return None,
    };
    if line1.as_bytes().len() < 68 || line2.as_bytes().len() < 68 {
        return None;
    }
    let inclination = match column_exec(line2, 8, 16) {
        Some(f) => f,
        None => return None,
    };
    let raan = match column_exec(line2, 17, 25) {
        Some(f) => f,
        None => return None,
    };
    let ecc = match column_exec(line2, 26, 33) {
        Some(f) => f,
        None => return None,
    };
    let arg_periapsis = match column_exec(line2, 34, 42) {
        Some(f) => f,
        None => return None,
    };
    let mean_anomaly = match column_exec(line2, 43, 51) {
        Some(f) => f,
        None => return None,
    };
    let mean_motion = match column_exec(line2, 52, 63) {
        Some(f) => f,
        None => return None,
    };
    let mut eccentricity = String::from_str("0.");
    proof {
        reveal_strlit("0.");
    }
    eccentricity.append(ecc.as_str());
    Some(TleFields { inclination, raan, eccentricity, arg_periapsis, mean_anomaly, mean_motion })
}

} // verus!
