//! Background ("ambient") radio traffic that is not tied to a visible plane.

use vstd::prelude::*;
use vstd::string::*;
use rand::rngs::StdRng;
use crate::random::{draw_usize, draw_u32, draw_u8, draw_u16, draw_i32};
use crate::speech::{spoken_altitude, spoken_heading, spoken_frequency, spoken_digits, speak_altitude, speak_heading, speak_frequency, speak_squawk};
use crate::text::{decimal, zero_padded};

verus! {

/// A callsign heard in filler transmissions, as spoken and as displayed.
#[derive(Clone, Copy, Debug)]
pub struct AmbientCallsign {
    pub spoken: &'static str,
    pub display: &'static str,
}

/// The pool of ambient callsigns, as (spoken, display) pairs.
pub open spec fn ambient_pool() -> Seq<(Seq<char>, Seq<char>)> {
    seq![
        ("Cessna three-two-six-papa-delta"@, "C326PD"@),
        ("Skylane niner-one-four-tango"@, "N914T"@),
        ("United four-twelve heavy"@, "UAL412"@),
        ("Southwest two-niner-eight"@, "SWA298"@),
        ("Alaska six-five-one"@, "ASA651"@),
        ("Bonanza eight-three-niner-charlie"@, "N839C"@),
        ("Cherokee five-five-two-alpha"@, "N552A"@),
        ("Cirrus seven-eight-delta-echo"@, "N78DE"@),
        ("Cessna one-four-seven-bravo"@, "N147B"@),
        ("Skylane six-niner-two-tango-mike"@, "N692TM"@),
        ("United eight-seven-three heavy"@, "UAL873"@),
        ("Alaska three-two-seven"@, "ASA327"@),
    ]
}

/// Pool of ambient callsigns for filler transmissions.
pub fn ambient_callsigns() -> (r: Vec<AmbientCallsign>)
    ensures
        r@.len() == ambient_pool().len(),
        forall|i: int|
            0 <= i < r@.len() ==> (#[trigger] r@[i]).spoken@ == ambient_pool()[i].0
                && r@[i].display@ == ambient_pool()[i].1,
{
    let r = vec![
        AmbientCallsign { spoken: "Cessna three-two-six-papa-delta", display: "C326PD" },
        AmbientCallsign { spoken: "Skylane niner-one-four-tango", display: "N914T" },
        AmbientCallsign { spoken: "United four-twelve heavy", display: "UAL412" },
        AmbientCallsign { spoken: "Southwest two-niner-eight", display: "SWA298" },
        AmbientCallsign { spoken: "Alaska six-five-one", display: "ASA651" },
        AmbientCallsign { spoken: "Bonanza eight-three-niner-charlie", display: "N839C" },
        AmbientCallsign { spoken: "Cherokee five-five-two-alpha", display: "N552A" },
        AmbientCallsign { spoken: "Cirrus seven-eight-delta-echo", display: "N78DE" },
        AmbientCallsign { spoken: "Cessna one-four-seven-bravo", display: "N147B" },
        AmbientCallsign { spoken: "Skylane six-niner-two-tango-mike", display: "N692TM" },
        AmbientCallsign { spoken: "United eight-seven-three heavy", display: "UAL873" },
        AmbientCallsign { spoken: "Alaska three-two-seven", display: "ASA327" },
    ];
    r
}


/// Destination of a flight-following request, by draw.
pub open spec fn destination_name(i: int) -> Seq<char> {
    if i == 0 {
        "Sacramento"@
    } else if i == 1 {
        "Monterey"@
    } else if i == 2 {
        "Santa Rosa"@
    } else {
        "Stockton"@
    }
}

/// Tower that a frequency change hands off to, by draw.
pub open spec fn handoff_tower_name(i: int) -> Seq<char> {
    if i == 0 {
        "San Francisco Tower"@
    } else if i == 1 {
        "Oakland Tower"@
    } else if i == 2 {
        "San Jose Tower"@
    } else if i == 3 {
        "Palo Alto Tower"@
    } else {
        "San Carlos Tower"@
    }
}

/// Frequency of that tower, in hundredths of a MHz.
pub open spec fn handoff_tower_hundredths(i: int) -> int {
    if i == 0 {
        12050
    } else if i == 1 {
        11830
    } else if i == 2 {
        12400
    } else if i == 3 {
        11860
    } else {
        11920
    }
}

/// The pair of ambient transmissions (pilot text, pilot label, controller text,
/// controller label) for the given draws: callsign `cs`, reported level `level`
/// (hundreds of feet), `template`, and the draws that only some templates use
/// (`dest`, `squawk`, `new_alt` in hundreds of feet, `hdg` in tens of degrees, `tower`).
pub open spec fn ambient_exchange(
    cs: int,
    level: int,
    template: int,
    dest: int,
    squawk: int,
    new_alt: int,
    hdg: int,
    tower: int,
) -> (Seq<char>, Seq<char>, Seq<char>, Seq<char>) {
    let spoken = ambient_pool()[cs].0;
    let display = ambient_pool()[cs].1;
    if template == 0 {
        (
            "NorCal Approach, "@ + spoken + ", request flight following to "@ + destination_name(
                dest,
            ),
            display,
            spoken + ", NorCal Approach, squawk "@ + spoken_digits(
                zero_padded(decimal(squawk as nat), 4),
            ) + ", say altitude"@,
            "NorCal"@,
        )
    } else if template == 1 {
        (
            spoken + ", NorCal Approach, descend and maintain "@ + spoken_altitude(new_alt),
            "NorCal"@,
            "Descending "@ + spoken_altitude(new_alt) + ", "@ + spoken,
            display,
        )
    } else if template == 2 {
        (
            spoken + ", turn right heading "@ + spoken_heading(hdg * 10),
            "NorCal"@,
            "Right heading "@ + spoken_heading(hdg * 10) + ", "@ + spoken,
            display,
        )
    } else if template == 3 {
        let f = spoken_frequency(handoff_tower_hundredths(tower));
        (
            spoken + ", contact "@ + handoff_tower_name(tower) + " on "@ + f,
            "NorCal"@,
            handoff_tower_name(tower) + " on "@ + f + ", "@ + spoken,
            display,
        )
    } else {
        (
            "NorCal Approach, "@ + spoken + ", level "@ + spoken_altitude(level),
            display,
            spoken + ", NorCal Approach, roger"@,
            "NorCal"@,
        )
    }
}

fn destination(i: usize) -> (r: &'static str)
    ensures
        r@ == destination_name(i as int),
{
    match i {
        0 => "Sacramento",
        1 => "Monterey",
        2 => "Santa Rosa",
        _ => "Stockton",
    }
}

fn handoff_tower(i: usize) -> (r: (&'static str, u32))
    ensures
        r.0@ == handoff_tower_name(i as int),
        r.1 == handoff_tower_hundredths(i as int),
{
    match i {
        0 => ("San Francisco Tower", 12050),
        1 => ("Oakland Tower", 11830),
        2 => ("San Jose Tower", 12400),
        3 => ("Palo Alto Tower", 11860),
        _ => ("San Carlos Tower", 11920),
    }
}

/// Build the ambient exchange for the given draws (see `ambient_exchange`).
pub fn ambient_exchange_text(
    cs: usize,
    level: u32,
    template: u8,
    dest: usize,
    squawk: u16,
    new_alt: i32,
    hdg: i32,
    tower: usize,
) -> (r: (String, String, String, String))
    requires
        cs < 12,
        15 <= level < 80,
        dest < 4,
        20 <= new_alt < 60,
        0 <= hdg < 36,
        tower < 5,
    ensures
        (r.0@, r.1@, r.2@, r.3@) == ambient_exchange(
            cs as int,
            level as int,
            template as int,
            dest as int,
            squawk as int,
            new_alt as int,
            hdg as int,
            tower as int,
        ),
{
    let pool = ambient_callsigns();
    let c = pool[cs];
    proof {
        reveal_strlit("NorCal Approach, ");
        reveal_strlit(", request flight following to ");
        reveal_strlit(", NorCal Approach, squawk ");
        reveal_strlit(", say altitude");
        reveal_strlit("NorCal");
        reveal_strlit(", NorCal Approach, descend and maintain ");
        reveal_strlit("Descending ");
        reveal_strlit(", ");
        reveal_strlit(", turn right heading ");
        reveal_strlit("Right heading ");
        reveal_strlit(", contact ");
        reveal_strlit(" on ");
        reveal_strlit(", level ");
        reveal_strlit(", NorCal Approach, roger");
    }
    if template == 0 {
        let mut p = String::from_str("NorCal Approach, ");
        p.append(c.spoken);
        p.append(", request flight following to ");
        p.append(destination(dest));
        let mut a = String::from_str(c.spoken);
        a.append(", NorCal Approach, squawk ");
        let sq = speak_squawk(squawk);
        a.append(sq.as_str());
        a.append(", say altitude");
        (p, String::from_str(c.display), a, String::from_str("NorCal"))
    } else if template == 1 {
        let alt = speak_altitude(new_alt);
        let mut p = String::from_str(c.spoken);
        p.append(", NorCal Approach, descend and maintain ");
        p.append(alt.as_str());
        let mut a = String::from_str("Descending ");
        a.append(alt.as_str());
        a.append(", ");
        a.append(c.spoken);
        (p, String::from_str("NorCal"), a, String::from_str(c.display))
    } else if template == 2 {
        let h = speak_heading((hdg * 10) as u32);
        let mut p = String::from_str(c.spoken);
        p.append(", turn right heading ");
        p.append(h.as_str());
        let mut a = String::from_str("Right heading ");
        a.append(h.as_str());
        a.append(", ");
        a.append(c.spoken);
        (p, String::from_str("NorCal"), a, String::from_str(c.display))
    } else if template == 3 {
        let (name, hundredths) = handoff_tower(tower);
        let f = speak_frequency(hundredths);
        let mut p = String::from_str(c.spoken);
        p.append(", contact ");
        p.append(name);
        p.append(" on ");
        p.append(f.as_str());
        let mut a = String::from_str(name);
        a.append(" on ");
        a.append(f.as_str());
        a.append(", ");
        a.append(c.spoken);
        (p, String::from_str("NorCal"), a, String::from_str(c.display))
    } else {
        let alt = speak_altitude(level as i32);
        let mut p = String::from_str("NorCal Approach, ");
        p.append(c.spoken);
        p.append(", level ");
        p.append(alt.as_str());
        let mut a = String::from_str(c.spoken);
        a.append(", NorCal Approach, roger");
        (p, String::from_str(c.display), a, String::from_str("NorCal"))
    }
}

/// `(pilot_text, pilot_display, controller_text, controller_display)` is one of the
/// ambient exchanges, for some choice of callsign, level, template and the template's
/// parameters within the ranges they are drawn from.
pub open spec fn is_ambient_pair(p: Seq<char>, pd: Seq<char>, a: Seq<char>, ad: Seq<char>) -> bool {
    exists|
        cs: int,
        level: int,
        template: int,
        dest: int,
        squawk: int,
        new_alt: int,
        hdg: int,
        tower: int,
    |
        #![trigger ambient_exchange(cs, level, template, dest, squawk, new_alt, hdg, tower)]
        0 <= cs < 12 && 15 <= level < 80 && 0 <= template < 5 && 0 <= dest < 4 && 2000 <= squawk
            < 5000 && 20 <= new_alt < 60 && 0 <= hdg < 36 && 0 <= tower < 5 && (p, pd, a, ad)
            == ambient_exchange(cs, level, template, dest, squawk, new_alt, hdg, tower)
}

/// Generate a pair of ambient transmissions (pilot + controller), drawing from `rng`
/// in the order: callsign, level, template, then what the template needs.
/// Returns (pilot_text, pilot_display, controller_text, controller_display).
pub fn generate_ambient_pair(rng: &mut StdRng) -> (r: (String, String, String, String))
    ensures
        is_ambient_pair(r.0@, r.1@, r.2@, r.3@),
{
    let cs = draw_usize(rng, 0, 12);
    let level = draw_u32(rng, 15, 80);
    let template = draw_u8(rng, 0, 5);
    let mut dest: usize = 0;
    let mut squawk: u16 = 2000;
    let mut new_alt: i32 = 20;
    let mut hdg: i32 = 0;
    let mut tower: usize = 0;
    if template == 0 {
        dest = draw_usize(rng, 0, 4);
        squawk = draw_u16(rng, 2000, 5000);
    } else if template == 1 {
        new_alt = draw_i32(rng, 20, 60);
    } else if template == 2 {
        hdg = draw_i32(rng, 0, 36);
    } else if template == 3 {
        tower = draw_usize(rng, 0, 5);
    }
    let r = ambient_exchange_text(cs, level, template, dest, squawk, new_alt, hdg, tower);
    proof {
        let w = ambient_exchange(
            cs as int,
            level as int,
            template as int,
            dest as int,
            squawk as int,
            new_alt as int,
            hdg as int,
            tower as int,
        );
    }
    r
}

} // verus!
