//! FAA phraseology: how digits, altitudes, headings, runways and
//! frequencies are spoken on the radio.

use vstd::prelude::*;
use vstd::string::*;
use crate::text::{padded_decimal, u64_to_decimal, split_at_dot, first_part, second_part, join_words, lemma_join_push, is_digit, digit_value, decimal, zero_padded, chars_vec};

verus! {

// --- Digit pronunciation ---

/// FAA pronunciation of a single digit ("niner" for 9); "?" outside 0..=9.
pub open spec fn digit_word_s(d: int) -> Seq<char> {
    if d == 0 {
        "zero"@
    } else if d == 1 {
        "one"@
    } else if d == 2 {
        "two"@
    } else if d == 3 {
        "three"@
    } else if d == 4 {
        "four"@
    } else if d == 5 {
        "five"@
    } else if d == 6 {
        "six"@
    } else if d == 7 {
        "seven"@
    } else if d == 8 {
        "eight"@
    } else if d == 9 {
        "niner"@
    } else {
        "?"@
    }
}

/// Pronounce a single digit per FAA convention.
pub fn digit_word(d: u8) -> (r: &'static str)
    ensures
        r@ == digit_word_s(d as int),
{
    match d {
        0 => "zero",
        1 => "one",
        2 => "two",
        3 => "three",
        4 => "four",
        5 => "five",
        6 => "six",
        7 => "seven",
        8 => "eight",
        9 => "niner",
        _ => "?",
    }
}

/// The spoken words of the decimal digits of `s`, in order; other characters are skipped.
pub open spec fn digit_words(s: Seq<char>) -> Seq<Seq<char>>
    decreases s.len(),
{
    if s.len() == 0 {
        Seq::empty()
    } else if is_digit(s.last()) {
        digit_words(s.drop_last()).push(digit_word_s(digit_value(s.last()) as int))
    } else {
        digit_words(s.drop_last())
    }
}

/// What `speak_digits` says for `s`: the digit words joined by '-'.
pub open spec fn spoken_digits(s: Seq<char>) -> Seq<char> {
    join_words(digit_words(s), seq!['-'])
}

/// Speak digits individually: "2451" -> "two-four-five-one"
pub fn speak_digits(s: &str) -> (r: String)
    ensures
        r@ == spoken_digits(s@),
{
    let chars = chars_vec(s);
    let mut r = String::new();
    let mut any = false;
    let mut i: usize = 0;
    while i < chars.len()
        invariant
            chars@ == s@,
            i <= chars.len(),
            any == (digit_words(s@.take(i as int)).len() > 0),
            r@ == join_words(digit_words(s@.take(i as int)), seq!['-']),
        decreases chars.len() - i,
    {
        let c = chars[i];
        proof {
            assert(s@.take(i + 1).drop_last() =~= s@.take(i as int));
            assert(s@.take(i + 1).last() == c);
        }
        if '0' <= c && c <= '9' {
            let d = (c as u32 - '0' as u32) as u8;
            let w = digit_word(d);
            proof {
                lemma_join_push(digit_words(s@.take(i as int)), w@, seq!['-']);
            }
            if any {
                r.append("-");
                proof {
                    reveal_strlit("-");
                }
            }
            r.append(w);
            any = true;
        }
        i = i + 1;
    }
    proof {
        assert(s@.take(chars.len() as int) =~= s@);
    }
    r
}

/// Speak a squawk code: 2451 -> "two-four-five-one"
pub fn speak_squawk(code: u16) -> (r: String)
    ensures
        r@ == spoken_digits(zero_padded(decimal(code as nat), 4)),
{
    let s = padded_decimal(code as u64, 4);
    speak_digits(s.as_str())
}


// --- Altitude ---

/// Word for 1..=12 ("niner" for 9); "?" otherwise.
pub open spec fn number_word_s(n: int) -> Seq<char> {
    if 1 <= n <= 9 {
        digit_word_s(n)
    } else if n == 10 {
        "ten"@
    } else if n == 11 {
        "eleven"@
    } else if n == 12 {
        "twelve"@
    } else {
        "?"@
    }
}

fn number_word(n: i32) -> (r: &'static str)
    ensures
        r@ == number_word_s(n as int),
{
    match n {
        1 => "one",
        2 => "two",
        3 => "three",
        4 => "four",
        5 => "five",
        6 => "six",
        7 => "seven",
        8 => "eight",
        9 => "niner",
        10 => "ten",
        11 => "eleven",
        12 => "twelve",
        _ => "?",
    }
}

/// Altitude phrase for a number of whole thousands and remaining hundreds.
pub open spec fn altitude_phrase(thousands: int, hundreds: int) -> Seq<char> {
    if thousands == 0 && hundreds == 0 {
        "field elevation"@
    } else if thousands == 0 {
        number_word_s(hundreds) + " hundred"@
    } else if hundreds == 0 {
        number_word_s(thousands) + " thousand"@
    } else if hundreds == 5 {
        number_word_s(thousands) + " thousand five hundred"@
    } else {
        number_word_s(thousands) + " thousand "@ + number_word_s(hundreds) + " hundred"@
    }
}

/// What is spoken for an altitude already rounded to `hundreds` hundreds of feet;
/// negative altitudes are spoken as zero.
pub open spec fn spoken_altitude(hundreds: int) -> Seq<char> {
    let feet = if hundreds * 100 < 0 { 0 } else { hundreds * 100 };
    altitude_phrase(feet / 1000, (feet % 1000) / 100)
}

/// Speak an altitude rounded to the nearest hundred feet (`hundreds` is the
/// altitude in feet divided by 100 and rounded): 24 -> "two thousand four hundred".
pub fn speak_altitude(hundreds: i32) -> (r: String)
    ensures
        r@ == spoken_altitude(hundreds as int),
{
    let feet: i64 = hundreds as i64 * 100;
    let feet: i64 = if feet < 0 { 0 } else { feet };
    let thousands: i32 = (feet / 1000) as i32;
    let hundreds_left: i32 = ((feet % 1000) / 100) as i32;
    proof {
        reveal_strlit("field elevation");
        reveal_strlit(" hundred");
        reveal_strlit(" thousand");
        reveal_strlit(" thousand five hundred");
        reveal_strlit(" thousand ");
    }
    if thousands == 0 && hundreds_left == 0 {
        String::from_str("field elevation")
    } else if thousands == 0 {
        let mut r = String::from_str(number_word(hundreds_left));
        r.append(" hundred");
        r
    } else if hundreds_left == 0 {
        let mut r = String::from_str(number_word(thousands));
        r.append(" thousand");
        r
    } else if hundreds_left == 5 {
        let mut r = String::from_str(number_word(thousands));
        r.append(" thousand five hundred");
        r
    } else {
        let mut r = String::from_str(number_word(thousands));
        r.append(" thousand ");
        r.append(number_word(hundreds_left));
        r.append(" hundred");
        r
    }
}

// --- Heading ---

/// Heading spoken digit by digit.
pub open spec fn spoken_heading(deg: int) -> Seq<char> {
    digit_word_s(deg / 100) + seq!['-'] + digit_word_s((deg / 10) % 10) + seq!['-']
        + digit_word_s(deg % 10)
}

/// Speak a heading in whole degrees (already normalised and rounded, so at most 360):
/// 280 -> "two-eight-zero"
pub fn speak_heading(deg: u32) -> (r: String)
    requires
        deg <= 360,
    ensures
        r@ == spoken_heading(deg as int),
{
    let d1 = (deg / 100) as u8;
    let d2 = ((deg / 10) % 10) as u8;
    let d3 = (deg % 10) as u8;
    let mut r = String::from_str(digit_word(d1));
    proof {
        reveal_strlit("-");
    }
    r.append("-");
    r.append(digit_word(d2));
    r.append("-");
    r.append(digit_word(d3));
    r
}

// --- Runway ---

/// Spoken word of one character of a runway designator, if it has one.
pub open spec fn runway_char_word(c: char) -> Option<Seq<char>> {
    if is_digit(c) {
        Some(digit_word_s(digit_value(c) as int))
    } else if c == 'L' {
        Some("left"@)
    } else if c == 'R' {
        Some("right"@)
    } else if c == 'C' {
        Some("center"@)
    } else {
        None
    }
}

/// What a runway designator sounds like, with the kind of its last word
/// (0: none yet, 1: a digit, 2: a side). Consecutive digit words are joined
/// by a hyphen; any other two neighbouring words by a space.
pub open spec fn runway_speech(s: Seq<char>) -> (Seq<char>, int)
    decreases s.len(),
{
    if s.len() == 0 {
        (Seq::empty(), 0)
    } else {
        let prev = runway_speech(s.drop_last());
        let c = s.last();
        match runway_char_word(c) {
            Some(w) => {
                let sep: Seq<char> = if prev.1 == 0 {
                    Seq::empty()
                } else if prev.1 == 1 && is_digit(c) {
                    seq!['-']
                } else {
                    seq![' ']
                };
                (prev.0 + sep + w, if is_digit(c) { 1 } else { 2 })
            },
            None => prev,
        }
    }
}

/// Speak a runway designator: "28L" -> "two-eight left"
pub fn speak_runway(rwy: &str) -> (r: String)
    ensures
        r@ == runway_speech(rwy@).0,
{
    let chars = chars_vec(rwy);
    let mut r = String::new();
    let mut kind: u8 = 0;
    let mut i: usize = 0;
    while i < chars.len()
        invariant
            chars@ == rwy@,
            i <= chars.len(),
            kind as int == runway_speech(rwy@.take(i as int)).1,
            r@ == runway_speech(rwy@.take(i as int)).0,
        decreases chars.len() - i,
    {
        let c = chars[i];
        proof {
            assert(rwy@.take(i + 1).drop_last() =~= rwy@.take(i as int));
            assert(rwy@.take(i + 1).last() == c);
            reveal_strlit("left");
            reveal_strlit("right");
            reveal_strlit("center");
            reveal_strlit(" ");
            reveal_strlit("-");
        }
        let digit = '0' <= c && c <= '9';
        let word: Option<&'static str> = if digit {
            Some(digit_word((c as u32 - '0' as u32) as u8))
        } else if c == 'L' {
            Some("left")
        } else if c == 'R' {
            Some("right")
        } else if c == 'C' {
            Some("center")
        } else {
            None
        };
        match word {
            Some(w) => {
                if kind == 1 && digit {
                    r.append("-");
                } else if kind != 0 {
                    r.append(" ");
                }
                r.append(w);
                kind = if digit { 1 } else { 2 };
            },
            None => {},
        }
        i = i + 1;
    }
    proof {
        assert(rwy@.take(chars.len() as int) =~= rwy@);
    }
    r
}

// --- Two-digit numbers ---

/// Word for the tens of a two-digit number 20..=99; "?" for anything else.
pub open spec fn tens_word_s(tens: int) -> Seq<char> {
    if tens == 2 {
        "twenty"@
    } else if tens == 3 {
        "thirty"@
    } else if tens == 4 {
        "forty"@
    } else if tens == 5 {
        "fifty"@
    } else if tens == 6 {
        "sixty"@
    } else if tens == 7 {
        "seventy"@
    } else if tens == 8 {
        "eighty"@
    } else if tens == 9 {
        "ninety"@
    } else {
        "?"@
    }
}

/// Word for 10..=19.
pub open spec fn teen_word_s(ones: int) -> Seq<char> {
    if ones == 0 {
        "ten"@
    } else if ones == 1 {
        "eleven"@
    } else if ones == 2 {
        "twelve"@
    } else if ones == 3 {
        "thirteen"@
    } else if ones == 4 {
        "fourteen"@
    } else if ones == 5 {
        "fifteen"@
    } else if ones == 6 {
        "sixteen"@
    } else if ones == 7 {
        "seventeen"@
    } else if ones == 8 {
        "eighteen"@
    } else if ones == 9 {
        "nineteen"@
    } else {
        "?"@
    }
}

/// A two-digit number spoken naturally: 35 -> "thirty-five", 20 -> "twenty", 7 -> "seven".
pub open spec fn spoken_two_digit(n: int) -> Seq<char> {
    let tens = n / 10;
    let ones = n % 10;
    if tens == 1 {
        teen_word_s(ones)
    } else if tens == 0 {
        if ones == 0 {
            "zero"@
        } else {
            digit_word_s(ones)
        }
    } else if ones == 0 {
        tens_word_s(tens)
    } else {
        tens_word_s(tens) + seq!['-'] + digit_word_s(ones)
    }
}

fn tens_word(tens: u32) -> (r: &'static str)
    ensures
        r@ == tens_word_s(tens as int),
{
    match tens {
        2 => "twenty",
        3 => "thirty",
        4 => "forty",
        5 => "fifty",
        6 => "sixty",
        7 => "seventy",
        8 => "eighty",
        9 => "ninety",
        _ => "?",
    }
}

fn teen_word(ones: u32) -> (r: &'static str)
    ensures
        r@ == teen_word_s(ones as int),
{
    match ones {
        0 => "ten",
        1 => "eleven",
        2 => "twelve",
        3 => "thirteen",
        4 => "fourteen",
        5 => "fifteen",
        6 => "sixteen",
        7 => "seventeen",
        8 => "eighteen",
        9 => "nineteen",
        _ => "?",
    }
}

/// Speak a two-digit number naturally: 35 -> "thirty-five", 20 -> "twenty"
pub fn speak_two_digit(n: u32) -> (r: String)
    ensures
        r@ == spoken_two_digit(n as int),
{
    let tens = n / 10;
    let ones = n % 10;
    if tens == 1 {
        return String::from_str(teen_word(ones));
    }
    if tens == 0 {
        proof {
            reveal_strlit("zero");
        }
        return if ones == 0 {
            String::from_str("zero")
        } else {
            String::from_str(digit_word(ones as u8))
        };
    }
    let mut r = String::from_str(tens_word(tens));
    if ones != 0 {
        proof {
            reveal_strlit("-");
        }
        r.append("-");
        r.append(digit_word(ones as u8));
    }
    r
}

// --- Wind and altimeter ---

/// The wind, which is fixed: "two-seven-zero at eight"
pub fn speak_wind() -> (r: &'static str)
    ensures
        r@ == "two-seven-zero at eight"@,
{
    "two-seven-zero at eight"
}

/// Fixed altimeter: "three-zero-one-niner"
pub fn speak_altimeter() -> (r: &'static str)
    ensures
        r@ == "three-zero-one-niner"@,
{
    "three-zero-one-niner"
}

// --- Compass direction and clock position ---

/// Cardinal direction for a bearing in whole degrees (the normalised bearing truncated).
pub open spec fn compass_word(b: int) -> Seq<char> {
    if (338 <= b && b <= 360) || b <= 22 {
        "north"@
    } else if b <= 67 {
        "northeast"@
    } else if b <= 112 {
        "east"@
    } else if b <= 157 {
        "southeast"@
    } else if b <= 202 {
        "south"@
    } else if b <= 247 {
        "southwest"@
    } else if b <= 292 {
        "west"@
    } else if b <= 337 {
        "northwest"@
    } else {
        "north"@
    }
}

/// Cardinal direction from a bearing in whole degrees: "north", "northeast", etc.
pub fn compass_direction(bearing: u32) -> (r: &'static str)
    ensures
        r@ == compass_word(bearing as int),
{
    if (338 <= bearing && bearing <= 360) || bearing <= 22 {
        "north"
    } else if bearing <= 67 {
        "northeast"
    } else if bearing <= 112 {
        "east"
    } else if bearing <= 157 {
        "southeast"
    } else if bearing <= 202 {
        "south"
    } else if bearing <= 247 {
        "southwest"
    } else if bearing <= 292 {
        "west"
    } else if bearing <= 337 {
        "northwest"
    } else {
        "north"
    }
}

/// The bearing, in degrees clockwise from north, that a compass word names; -1000
/// for anything else.
pub open spec fn compass_heading_of(w: Seq<char>) -> int {
    if w == "north"@ {
        0
    } else if w == "northeast"@ {
        45
    } else if w == "east"@ {
        90
    } else if w == "southeast"@ {
        135
    } else if w == "south"@ {
        180
    } else if w == "southwest"@ {
        225
    } else if w == "west"@ {
        270
    } else if w == "northwest"@ {
        315
    } else {
        -1000
    }
}

/// Distance in degrees between two bearings in `[0, 360)`, the short way round.
pub open spec fn angle_between(a: int, b: int) -> int {
    let d = if a >= b { a - b } else { b - a };
    if d > 180 {
        360 - d
    } else {
        d
    }
}

/// The compass word of a bearing in `[0, 360)` names the octant nearest to it: the
/// bearing lies within 22 degrees of the direction the word names. As the eight
/// directions are 45 degrees apart, no other word is that close.
pub proof fn compass_word_is_nearest_octant(bearing: u32)
    requires
        bearing < 360,
    ensures
        angle_between(bearing as int, compass_heading_of(compass_word(bearing as int))) <= 22,
{
    lemma_compass_headings();
}

proof fn lemma_compass_headings()
    ensures
        compass_heading_of("north"@) == 0,
        compass_heading_of("northeast"@) == 45,
        compass_heading_of("east"@) == 90,
        compass_heading_of("southeast"@) == 135,
        compass_heading_of("south"@) == 180,
        compass_heading_of("southwest"@) == 225,
        compass_heading_of("west"@) == 270,
        compass_heading_of("northwest"@) == 315,
{
    reveal_strlit("north");
    reveal_strlit("northeast");
    reveal_strlit("east");
    reveal_strlit("southeast");
    reveal_strlit("south");
    reveal_strlit("southwest");
    reveal_strlit("west");
    reveal_strlit("northwest");
    assert("north"@.len() == 5 && "south"@.len() == 5 && "north"@[0] != "south"@[0]);
    assert("east"@.len() == 4 && "west"@.len() == 4 && "east"@[0] != "west"@[0]);
    assert("northeast"@.len() == 9 && "southeast"@.len() == 9 && "southwest"@.len() == 9
        && "northwest"@.len() == 9);
    assert("northeast"@[0] != "southeast"@[0] && "northeast"@[0] != "southwest"@[0]);
    assert("northwest"@[0] != "southeast"@[0] && "northwest"@[0] != "southwest"@[0]);
    assert("northeast"@[5] != "northwest"@[5] && "southeast"@[5] != "southwest"@[5]);
}

/// Clock position for an hour sector (the relative bearing plus 15 degrees, divided by 30).
pub open spec fn clock_word(sector: int) -> Seq<char> {
    let hour = sector % 12;
    if hour == 0 {
        "twelve o'clock"@
    } else if hour == 1 {
        "one o'clock"@
    } else if hour == 2 {
        "two o'clock"@
    } else if hour == 3 {
        "three o'clock"@
    } else if hour == 4 {
        "four o'clock"@
    } else if hour == 5 {
        "five o'clock"@
    } else if hour == 6 {
        "six o'clock"@
    } else if hour == 7 {
        "seven o'clock"@
    } else if hour == 8 {
        "eight o'clock"@
    } else if hour == 9 {
        "nine o'clock"@
    } else if hour == 10 {
        "ten o'clock"@
    } else {
        "eleven o'clock"@
    }
}

/// Clock position from an hour sector of the relative bearing: "twelve o'clock", "three o'clock", etc.
pub fn clock_position(sector: u32) -> (r: &'static str)
    ensures
        r@ == clock_word(sector as int),
{
    match sector % 12 {
        0 => "twelve o'clock",
        1 => "one o'clock",
        2 => "two o'clock",
        3 => "three o'clock",
        4 => "four o'clock",
        5 => "five o'clock",
        6 => "six o'clock",
        7 => "seven o'clock",
        8 => "eight o'clock",
        9 => "nine o'clock",
        10 => "ten o'clock",
        _ => "eleven o'clock",
    }
}


// --- Frequency ---

/// A decimal numeral spoken as its two dot-separated parts: "120.55" -> "one-two-zero-point-five-five".
pub open spec fn spoken_decimal(t: Seq<char>) -> Seq<char> {
    spoken_digits(first_part(t)) + "-point-"@ + spoken_digits(second_part(t))
}

/// Speak a numeral with a decimal point, digit by digit around the word "point".
pub fn speak_decimal(t: &str) -> (r: String)
    requires
        t@.contains('.'),
    ensures
        r@ == spoken_decimal(t@),
{
    let (a, b) = split_at_dot(t);
    let mut r = speak_digits(a);
    proof {
        reveal_strlit("-point-");
    }
    r.append("-point-");
    let rb = speak_digits(b);
    r.append(rb.as_str());
    r
}

/// A frequency given in hundredths of a MHz, rounded to tenths (halves to even).
pub open spec fn tenths_of(hundredths: int) -> int {
    let q = hundredths / 10;
    let r = hundredths % 10;
    if r > 5 || (r == 5 && q % 2 == 1) {
        q + 1
    } else {
        q
    }
}

/// A frequency written with one decimal and spoken digit by digit around "point":
/// 10820 hundredths -> "one-zero-eight-point-two".
pub open spec fn spoken_one_decimal(hundredths: int) -> Seq<char> {
    let t = tenths_of(hundredths);
    spoken_digits(decimal((t / 10) as nat)) + "-point-"@ + spoken_digits(decimal((t % 10) as nat))
}

/// What is spoken for a frequency given in hundredths of a MHz. In the 118-136 MHz
/// band a frequency with two significant decimals takes the informal shorthand of two
/// two-digit groups and a whole number of MHz is spoken digit by digit with "point
/// zero"; anything else is spoken digit by digit with one decimal.
pub open spec fn spoken_frequency(hundredths: int) -> Seq<char> {
    let whole = hundredths / 100;
    let frac = hundredths % 100;
    if 118 <= whole && whole <= 136 {
        let last_two = whole % 100;
        if frac == 0 {
            digit_word_s(whole / 100) + seq!['-'] + spoken_digits(
                zero_padded(decimal(last_two as nat), 2),
            ) + "-point-zero"@
        } else if frac % 10 != 0 {
            spoken_two_digit(last_two) + seq![' '] + spoken_two_digit(frac)
        } else {
            spoken_one_decimal(hundredths)
        }
    } else {
        spoken_one_decimal(hundredths)
    }
}

/// Speak a frequency written with one decimal, digit by digit around "point".
fn speak_one_decimal(hundredths: u32) -> (r: String)
    ensures
        r@ == spoken_one_decimal(hundredths as int),
{
    let q = hundredths / 10;
    let rem = hundredths % 10;
    let t = if rem > 5 || (rem == 5 && q % 2 == 1) {
        q + 1
    } else {
        q
    };
    let whole = u64_to_decimal((t / 10) as u64);
    let mut r = speak_digits(whole.as_str());
    proof {
        reveal_strlit("-point-");
    }
    r.append("-point-");
    let tenth = u64_to_decimal((t % 10) as u64);
    let d = speak_digits(tenth.as_str());
    r.append(d.as_str());
    r
}

/// Speak a frequency given in hundredths of a MHz: 120.5 -> "one-two-zero-point-five",
/// and the informal shorthand of the 118-136 MHz band: 135.65 -> "thirty-five sixty-five".
pub fn speak_frequency(hundredths: u32) -> (r: String)
    ensures
        r@ == spoken_frequency(hundredths as int),
{
    let whole = hundredths / 100;
    let frac = hundredths % 100;
    if whole >= 118 && whole <= 136 {
        let last_two = whole % 100;
        if frac == 0 {
            let mut r = String::from_str(digit_word((whole / 100) as u8));
            proof {
                reveal_strlit("-");
                reveal_strlit("-point-zero");
            }
            r.append("-");
            let p = padded_decimal(last_two as u64, 2);
            let spoken = speak_digits(p.as_str());
            r.append(spoken.as_str());
            r.append("-point-zero");
            r
        } else if frac % 10 != 0 {
            let mut r = speak_two_digit(last_two);
            proof {
                reveal_strlit(" ");
            }
            r.append(" ");
            let g2 = speak_two_digit(frac);
            r.append(g2.as_str());
            r
        } else {
            speak_one_decimal(hundredths)
        }
    } else {
        speak_one_decimal(hundredths)
    }
}

} // verus!
