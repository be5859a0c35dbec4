//! ATC radio chatter: callsigns, per-plane radio state, and the transmissions
//! that each leg of the traffic pattern or of an en-route flight produces.

use vstd::prelude::*;
use vstd::string::*;
use rand::rngs::StdRng;
use crate::random::{draw_u8, draw_u32};
use crate::speech::{number_word_s, spoken_altitude, spoken_digits, spoken_frequency, clock_word, speak_altitude, speak_squawk, speak_frequency, clock_position, speak_altimeter};
use crate::text::{decimal, zero_padded, u64_to_decimal};
use crate::traffic::WAYPOINT_COUNT;
use crate::facilities::is_bay_area_table;

verus! {

/// Callsign: aircraft type + tail number.
#[derive(Clone, Copy, Debug)]
pub struct Callsign {
    pub aircraft_type: &'static str,
    pub tail_number: &'static str,
    pub tail_phonetic: &'static str,
}

impl Callsign {
    pub open spec fn full_s(self) -> Seq<char> {
        self.aircraft_type@ + seq![' '] + self.tail_phonetic@
    }

    pub open spec fn display_full_s(self) -> Seq<char> {
        self.aircraft_type@ + seq![' '] + self.tail_number@
    }

    /// Full callsign: "Ki-61 niner-seven-bravo"
    pub fn full(&self) -> (res: String)
        ensures
            res@ == self.full_s(),
    {
        let mut s = String::from_str(self.aircraft_type);
        s.append(" ");
        proof {
            reveal_strlit(" ");
        }
        s.append(self.tail_phonetic);
        s
    }

    /// Short callsign (after initial contact): "niner-seven-bravo"
    pub fn short(&self) -> (res: String)
        ensures
            res@ == self.tail_phonetic@,
    {
        String::from_str(self.tail_phonetic)
    }

    /// Display-friendly short: "97B"
    pub fn display_short(&self) -> (res: String)
        ensures
            res@ == self.tail_number@,
    {
        String::from_str(self.tail_number)
    }

    /// Display-friendly full: "Ki-61 97B"
    pub fn display_full(&self) -> (res: String)
        ensures
            res@ == self.display_full_s(),
    {
        let mut s = String::from_str(self.aircraft_type);
        s.append(" ");
        proof {
            reveal_strlit(" ");
        }
        s.append(self.tail_number);
        s
    }
}

/// Who is speaking on the radio.
#[derive(Clone, Debug)]
pub enum Speaker {
    /// AI plane index
    Pilot(usize),
    /// facility name, e.g. "SFO Tower"
    Controller(String),
    /// background traffic (not tied to a visible AI plane)
    Ambient,
}

/// Flight phase drives what ATC messages are generated.
#[derive(Clone, Copy, Debug, PartialEq, Eq, Structural)]
pub enum FlightPhase {
    /// En-route planes (figure-8 between waypoints, on NorCal Approach)
    EnRoute,
    Downwind,
    Base,
    Final,
    TouchAndGo,
    Crosswind,
    Departure,
}

/// The two frequencies the simulated traffic talks on.
#[derive(Clone, Copy, Debug, PartialEq, Eq, Structural)]
pub enum Channel {
    /// SFO Tower, 120.5 MHz
    Tower,
    /// NorCal Approach, 135.65 MHz
    Approach,
}

/// When a transmission is heard, relative to the moment the exchange starts.
#[derive(Clone, Copy, Debug, PartialEq, Eq, Structural)]
pub enum Timing {
    /// At once.
    Now,
    /// After the controller's (or pilot's) response delay.
    Response,
    /// A second and a half after the response.
    Readback,
}

/// A radio transmission, before it is given its time stamp.
#[derive(Clone, Debug)]
pub struct Transmission {
    pub timing: Timing,
    pub channel: Channel,
    pub speaker: Speaker,
    /// the spoken text (FAA phraseology)
    pub text: String,
    /// short speaker label for display: "SFO TWR", "97B", "NorCal"
    pub display_speaker: String,
    pub voice_id: u8,
}

/// Voice used by NorCal Approach.
pub const NORCAL_VOICE: u8 = 100;

/// Voice used by SFO Tower.
pub const TOWER_VOICE: u8 = 101;

/// A pilot's transmission from plane `idx`.
pub open spec fn pilot_tx(
    t: Transmission,
    timing: Timing,
    channel: Channel,
    idx: usize,
    cs: Callsign,
    text: Seq<char>,
) -> bool {
    &&& t.timing == timing
    &&& t.channel == channel
    &&& t.speaker == Speaker::Pilot(idx)
    &&& t.text@ == text
    &&& t.display_speaker@ == cs.tail_number@
    &&& t.voice_id == idx as u8
}

/// A controller's transmission.
pub open spec fn controller_tx(
    t: Transmission,
    timing: Timing,
    channel: Channel,
    name: Seq<char>,
    text: Seq<char>,
    display: Seq<char>,
    voice: u8,
) -> bool {
    &&& t.timing == timing
    &&& t.channel == channel
    &&& (match t.speaker {
        Speaker::Controller(n) => n@ == name,
        _ => false,
    })
    &&& t.text@ == text
    &&& t.display_speaker@ == display
    &&& t.voice_id == voice
}

/// A transmission by NorCal Approach.
pub open spec fn norcal_tx(t: Transmission, timing: Timing, text: Seq<char>) -> bool {
    controller_tx(t, timing, Channel::Approach, "NorCal Approach"@, text, "NorCal"@, NORCAL_VOICE)
}

/// A transmission by SFO Tower.
pub open spec fn tower_tx(t: Transmission, timing: Timing, text: Seq<char>) -> bool {
    controller_tx(t, timing, Channel::Tower, "SFO Tower"@, text, "SFO TWR"@, TOWER_VOICE)
}

/// Per-plane ATC state, attached to each AI plane.
#[derive(Clone, Copy, Debug)]
pub struct AiPlaneAtcState {
    pub callsign: Callsign,
    pub squawk: u16,
    /// The frequency the plane is tuned to.
    pub channel: Channel,
    pub flight_phase: FlightPhase,
    /// sim time of the plane's last radio call, in milliseconds
    pub last_transmission_ms: i64,
    /// whether initial contact with ATC has been done
    pub initial_contact_made: bool,
    /// whether cleared for the option (pattern plane)
    pub cleared_option: bool,
}

/// Tail number and its phonetic spelling of AI plane `plane_idx`.
pub open spec fn tail_of(plane_idx: int) -> (Seq<char>, Seq<char>) {
    if plane_idx == 0 {
        ("97B"@, "niner-seven-bravo"@)
    } else if plane_idx == 1 {
        ("42A"@, "four-two-alpha"@)
    } else if plane_idx == 2 {
        ("66C"@, "six-six-charlie"@)
    } else if plane_idx == 3 {
        ("31D"@, "three-one-delta"@)
    } else if plane_idx == 4 {
        ("58E"@, "five-eight-echo"@)
    } else if plane_idx == 5 {
        ("14F"@, "one-four-foxtrot"@)
    } else if plane_idx == 6 {
        ("73G"@, "seven-three-golf"@)
    } else {
        ("99X"@, "niner-niner-x-ray"@)
    }
}

/// Build ATC state for the plane at the given index: plane 0 flies the pattern at SFO
/// (on Tower, downwind), the others are en route on NorCal Approach. The squawk is
/// 2401 plus the index, which must keep it within a `u16`.
pub fn build_atc_state(plane_idx: usize) -> (r: AiPlaneAtcState)
    requires
        plane_idx % 65536 <= 63134,
    ensures
        r.callsign.aircraft_type@ == "Ki-61"@,
        (r.callsign.tail_number@, r.callsign.tail_phonetic@) == tail_of(plane_idx as int),
        r.squawk == 2401 + plane_idx % 65536,
        r.channel == (if plane_idx == 0 { Channel::Tower } else { Channel::Approach }),
        r.flight_phase == (if plane_idx == 0 { FlightPhase::Downwind } else { FlightPhase::EnRoute }),
        r.last_transmission_ms == -30_000,
        !r.initial_contact_made,
        !r.cleared_option,
{
    let (tail_number, tail_phonetic) = match plane_idx {
        0 => ("97B", "niner-seven-bravo"),
        1 => ("42A", "four-two-alpha"),
        2 => ("66C", "six-six-charlie"),
        3 => ("31D", "three-one-delta"),
        4 => ("58E", "five-eight-echo"),
        5 => ("14F", "one-four-foxtrot"),
        6 => ("73G", "seven-three-golf"),
        _ => ("99X", "niner-niner-x-ray"),
    };
    let is_pattern_plane = plane_idx == 0;
    assert((plane_idx as u16) == plane_idx % 65536) by (bit_vector);
    let low = plane_idx as u16;
    AiPlaneAtcState {
        callsign: Callsign { aircraft_type: "Ki-61", tail_number, tail_phonetic },
        squawk: 2401 + low,
        channel: if is_pattern_plane { Channel::Tower } else { Channel::Approach },
        flight_phase: if is_pattern_plane { FlightPhase::Downwind } else { FlightPhase::EnRoute },
        last_transmission_ms: -30_000,
        initial_contact_made: false,
        cleared_option: false,
    }
}

/// Simple number word for small numbers (1-12).
pub open spec fn number_word_simple_s(n: int) -> Seq<char> {
    if n == 1 {
        "one"@
    } else if n == 2 {
        "two"@
    } else if n == 3 {
        "three"@
    } else if n == 4 {
        "four"@
    } else if n == 5 {
        "five"@
    } else if n == 6 {
        "six"@
    } else if n == 7 {
        "seven"@
    } else if n == 8 {
        "eight"@
    } else if n == 9 {
        "niner"@
    } else if n == 10 {
        "ten"@
    } else if n == 11 {
        "eleven"@
    } else if n == 12 {
        "twelve"@
    } else {
        "?"@
    }
}

/// Simple number word for small numbers (1-12).
pub fn number_word_simple(n: u32) -> (r: &'static str)
    ensures
        r@ == number_word_simple_s(n as int),
{
    match n {
        1 => "one",
        2 => "two",
        3 => "three",
        4 => "four",
        5 => "five",
        6 => "six",
        7 => "seven",
        8 => "eight",
        9 => "niner",
        10 => "ten",
        11 => "eleven",
        12 => "twelve",
        _ => "?",
    }
}

proof fn lemma_number_words()
    ensures
        forall|n: int| 1 <= n <= 12 ==> {
            let w = #[trigger] number_word_simple_s(n);
            &&& w.len() >= 3
            &&& n == 1 ==> w.len() == 3 && w[0] == 'o' && w[1] == 'n'
            &&& n == 2 ==> w.len() == 3 && w[0] == 't' && w[1] == 'w'
            &&& n == 3 ==> w.len() == 5 && w[0] == 't' && w[1] == 'h'
            &&& n == 4 ==> w.len() == 4 && w[0] == 'f' && w[1] == 'o'
            &&& n == 5 ==> w.len() == 4 && w[0] == 'f' && w[1] == 'i'
            &&& n == 6 ==> w.len() == 3 && w[0] == 's' && w[1] == 'i'
            &&& n == 7 ==> w.len() == 5 && w[0] == 's' && w[1] == 'e'
            &&& n == 8 ==> w.len() == 5 && w[0] == 'e' && w[1] == 'i'
            &&& n == 9 ==> w.len() == 5 && w[0] == 'n' && w[1] == 'i'
            &&& n == 10 ==> w.len() == 3 && w[0] == 't' && w[1] == 'e'
            &&& n == 11 ==> w.len() == 6 && w[0] == 'e' && w[1] == 'l'
            &&& n == 12 ==> w.len() == 6 && w[0] == 't' && w[1] == 'w'
        },
{
    reveal_strlit("one");
    reveal_strlit("two");
    reveal_strlit("three");
    reveal_strlit("four");
    reveal_strlit("five");
    reveal_strlit("six");
    reveal_strlit("seven");
    reveal_strlit("eight");
    reveal_strlit("niner");
    reveal_strlit("ten");
    reveal_strlit("eleven");
    reveal_strlit("twelve");
}

/// The numbers one to twelve each have a word of their own: never "?", no two numbers
/// share a word, and it is the word the phraseology uses for those numbers elsewhere
/// (thousands of feet).
pub proof fn number_words_name_one_to_twelve(a: int, b: int)
    requires
        1 <= a <= 12,
        1 <= b <= 12,
    ensures
        number_word_simple_s(a) != "?"@,
        a != b ==> number_word_simple_s(a) != number_word_simple_s(b),
        number_word_simple_s(a) == number_word_s(a),
{
    lemma_number_words();
    reveal_strlit("?");
    let wa = number_word_simple_s(a);
    let wb = number_word_simple_s(b);
    assert(wa.len() != "?"@.len());
    if a != b {
        assert(wa.len() != wb.len() || wa[0] != wb[0] || wa[1] != wb[1]);
    }
}

/// Name of the waypoint an en-route plane flies toward.
pub open spec fn waypoint_name_s(wp: int) -> Seq<char> {
    if wp == 0 {
        "San Francisco"@
    } else if wp == 1 {
        "Emeryville"@
    } else if wp == 2 {
        "Golden Gate"@
    } else {
        "Bay Area"@
    }
}

/// Get the waypoint name for an en-route plane's current waypoint.
pub fn nearest_waypoint_name(wp: usize) -> (r: &'static str)
    ensures
        r@ == waypoint_name_s(wp as int),
{
    match wp {
        0 => "San Francisco",
        1 => "Emeryville",
        2 => "Golden Gate",
        _ => "Bay Area",
    }
}

/// The waypoints the traffic flies between (those below `WAYPOINT_COUNT`) each have a
/// name of their own; any other index is only "Bay Area".
pub proof fn waypoints_have_their_own_names(a: int, b: int)
    requires
        0 <= a,
        0 <= b,
    ensures
        (waypoint_name_s(a) == "Bay Area"@) == (a >= WAYPOINT_COUNT),
        a < WAYPOINT_COUNT && b < WAYPOINT_COUNT && a != b ==> waypoint_name_s(a) != waypoint_name_s(b),
{
    reveal_strlit("San Francisco");
    reveal_strlit("Emeryville");
    reveal_strlit("Golden Gate");
    reveal_strlit("Bay Area");
    assert("San Francisco"@.len() == 13);
    assert("Emeryville"@.len() == 10);
    assert("Golden Gate"@.len() == 11);
    assert("Bay Area"@.len() == 8);
}

/// The first waypoint is the one at SFO: it is named after the city whose tower the
/// facility table lists second ("San Francisco Tower").
pub proof fn first_waypoint_is_at_sfo(fs: Seq<crate::facilities::AtcFacility>)
    requires
        is_bay_area_table(fs),
    ensures
        waypoint_name_s(0) + " Tower"@ == fs[1].callsign@,
{
    reveal(is_bay_area_table);
    reveal_strlit("San Francisco");
    reveal_strlit(" Tower");
    reveal_strlit("San Francisco Tower");
    assert(waypoint_name_s(0) + " Tower"@ =~= "San Francisco Tower"@);
}

// --- The traffic pattern at SFO ---

/// The leg that follows `p` in the touch-and-go circuit; en-route planes stay en route.
pub open spec fn next_pattern_phase(p: FlightPhase) -> FlightPhase {
    match p {
        FlightPhase::Downwind => FlightPhase::Base,
        FlightPhase::Base => FlightPhase::Final,
        FlightPhase::Final => FlightPhase::TouchAndGo,
        FlightPhase::TouchAndGo => FlightPhase::Crosswind,
        FlightPhase::Crosswind => FlightPhase::Departure,
        FlightPhase::Departure => FlightPhase::Downwind,
        FlightPhase::EnRoute => FlightPhase::EnRoute,
    }
}

/// Six legs of the circuit bring every plane back to the leg it started on.
pub proof fn pattern_circuit_closes(p: FlightPhase)
    ensures
        next_pattern_phase(
            next_pattern_phase(
                next_pattern_phase(next_pattern_phase(next_pattern_phase(next_pattern_phase(p)))),
            ),
        ) == p,
{
}

/// Frequency of NorCal Approach (135.65 MHz) as spoken.
pub open spec fn norcal_frequency_spoken() -> Seq<char> {
    spoken_frequency(13565)
}

fn make_pilot_tx(
    idx: usize,
    cs: &Callsign,
    timing: Timing,
    channel: Channel,
    text: String,
) -> (t: Transmission)
    ensures
        pilot_tx(t, timing, channel, idx, *cs, text@),
{
    Transmission {
        timing,
        channel,
        speaker: Speaker::Pilot(idx),
        text,
        display_speaker: cs.display_short(),
        voice_id: idx as u8,
    }
}

fn make_norcal_tx(timing: Timing, text: String) -> (t: Transmission)
    ensures
        norcal_tx(t, timing, text@),
{
    proof {
        reveal_strlit("NorCal Approach");
        reveal_strlit("NorCal");
    }
    Transmission {
        timing,
        channel: Channel::Approach,
        speaker: Speaker::Controller(String::from_str("NorCal Approach")),
        text,
        display_speaker: String::from_str("NorCal"),
        voice_id: NORCAL_VOICE,
    }
}

fn make_tower_tx(timing: Timing, text: String) -> (t: Transmission)
    ensures
        tower_tx(t, timing, text@),
{
    proof {
        reveal_strlit("SFO Tower");
        reveal_strlit("SFO TWR");
    }
    Transmission {
        timing,
        channel: Channel::Tower,
        speaker: Speaker::Controller(String::from_str("SFO Tower")),
        text,
        display_speaker: String::from_str("SFO TWR"),
        voice_id: TOWER_VOICE,
    }
}

/// The downwind exchange: the pilot reports left downwind; the tower either clears the
/// plane for the option (`clears`, with the pilot's readback) or gives its number `seq`
/// in the sequence.
pub open spec fn downwind_msgs(
    r: Seq<Transmission>,
    idx: usize,
    cs: Callsign,
    clears: bool,
    seq: int,
) -> bool {
    &&& pilot_tx(
        r[0],
        Timing::Now,
        Channel::Tower,
        idx,
        cs,
        "San Francisco Tower, "@ + cs.full_s() + ", left downwind runway two-eight left"@,
    )
    &&& if clears {
        &&& r.len() == 3
        &&& tower_tx(
            r[1],
            Timing::Response,
            cs.display_full_s() + ", San Francisco Tower, cleared for the option runway two-eight left"@,
        )
        &&& pilot_tx(
            r[2],
            Timing::Readback,
            Channel::Tower,
            idx,
            cs,
            "Cleared for the option two-eight left, "@ + cs.tail_phonetic@,
        )
    } else {
        &&& r.len() == 2
        &&& tower_tx(
            r[1],
            Timing::Response,
            cs.display_full_s() + ", number "@ + number_word_simple_s(seq) + ", follow traffic on base"@,
        )
    }
}

/// Downwind leg done: turn base. With `template` 0 a plane not yet cleared for the
/// option is cleared now (with the pilot's readback); otherwise the tower gives it
/// its number `seq` in the sequence.
pub fn downwind_exchange(state: &mut AiPlaneAtcState, idx: usize, template: u8, seq: u32) -> (r: Vec<
    Transmission,
>)
    ensures
        final(state).flight_phase == FlightPhase::Base,
        final(state).callsign == old(state).callsign,
        final(state).squawk == old(state).squawk,
        final(state).channel == old(state).channel,
        final(state).initial_contact_made == old(state).initial_contact_made,
        final(state).last_transmission_ms == old(state).last_transmission_ms,
        template == 0 && !old(state).cleared_option ==> final(state).cleared_option && downwind_msgs(
            r@,
            idx,
            old(state).callsign,
            true,
            0,
        ),
        !(template == 0 && !old(state).cleared_option) ==> final(state).cleared_option
            == old(state).cleared_option && downwind_msgs(r@, idx, old(state).callsign, false, seq as int),
{
    state.flight_phase = FlightPhase::Base;
    let cs = state.callsign;
    proof {
        reveal_strlit("San Francisco Tower, ");
        reveal_strlit(", left downwind runway two-eight left");
        reveal_strlit(", San Francisco Tower, cleared for the option runway two-eight left");
        reveal_strlit("Cleared for the option two-eight left, ");
        reveal_strlit(", number ");
        reveal_strlit(", follow traffic on base");
    }
    let mut report = String::from_str("San Francisco Tower, ");
    let full = cs.full();
    report.append(full.as_str());
    report.append(", left downwind runway two-eight left");
    let mut r: Vec<Transmission> = Vec::new();
    r.push(make_pilot_tx(idx, &cs, Timing::Now, Channel::Tower, report));
    if template == 0 && !state.cleared_option {
        state.cleared_option = true;
        let mut clr = cs.display_full();
        clr.append(", San Francisco Tower, cleared for the option runway two-eight left");
        r.push(make_tower_tx(Timing::Response, clr));
        let mut rb = String::from_str("Cleared for the option two-eight left, ");
        rb.append(cs.tail_phonetic);
        r.push(make_pilot_tx(idx, &cs, Timing::Readback, Channel::Tower, rb));
        proof {
            assert(downwind_msgs(r@, idx, cs, true, 0));
        }
    } else {
        let mut num = cs.display_full();
        num.append(", number ");
        num.append(number_word_simple(seq));
        num.append(", follow traffic on base");
        r.push(make_tower_tx(Timing::Response, num));
        proof {
            assert(downwind_msgs(r@, idx, cs, false, seq as int));
        }
    }
    r
}

/// Downwind leg done: turn base. Draws from `rng` the template (0 or 1) and, when the
/// plane is not cleared for the option now, its number in the sequence (1 to 3); the
/// exchange is `downwind_exchange` for those draws.
pub fn generate_downwind(state: &mut AiPlaneAtcState, idx: usize, rng: &mut StdRng) -> (r: Vec<
    Transmission,
>)
    ensures
        final(state).flight_phase == FlightPhase::Base,
        final(state).callsign == old(state).callsign,
        final(state).squawk == old(state).squawk,
        final(state).channel == old(state).channel,
        final(state).initial_contact_made == old(state).initial_contact_made,
        final(state).last_transmission_ms == old(state).last_transmission_ms,
        2 <= r@.len() <= 3,
        (final(state).cleared_option && !old(state).cleared_option && downwind_msgs(
            r@,
            idx,
            old(state).callsign,
            true,
            0,
        )) || (final(state).cleared_option == old(state).cleared_option && exists|seq: int|
            1 <= seq < 4 && #[trigger] downwind_msgs(r@, idx, old(state).callsign, false, seq)),
{
    let template = draw_u8(rng, 0, 2);
    let seq = if template == 0 && !state.cleared_option {
        0
    } else {
        draw_u32(rng, 1, 4)
    };
    let r = downwind_exchange(state, idx, template, seq);
    proof {
        if !(template == 0 && !old(state).cleared_option) {
            assert(downwind_msgs(r@, idx, old(state).callsign, false, seq as int));
        }
    }
    r
}

/// Fields other than the flight phase and option clearance stay as they were.
pub open spec fn same_identity(a: AiPlaneAtcState, b: AiPlaneAtcState) -> bool {
    &&& a.callsign == b.callsign
    &&& a.squawk == b.squawk
    &&& a.channel == b.channel
    &&& a.initial_contact_made == b.initial_contact_made
    &&& a.last_transmission_ms == b.last_transmission_ms
}

/// The base exchange: the pilot reports turning base, the tower acknowledges.
pub open spec fn base_msgs(r: Seq<Transmission>, idx: usize, cs: Callsign) -> bool {
    &&& r.len() == 2
    &&& pilot_tx(r[0], Timing::Now, Channel::Tower, idx, cs, cs.display_full_s() + ", turning base"@)
    &&& tower_tx(r[1], Timing::Response, cs.display_full_s() + ", roger"@)
}

/// Base leg done: turn final.
pub fn generate_base(state: &mut AiPlaneAtcState, idx: usize) -> (r: Vec<Transmission>)
    ensures
        final(state).flight_phase == FlightPhase::Final,
        same_identity(*final(state), *old(state)),
        final(state).cleared_option == old(state).cleared_option,
        base_msgs(r@, idx, old(state).callsign),
{
    state.flight_phase = FlightPhase::Final;
    let cs = state.callsign;
    proof {
        reveal_strlit(", turning base");
        reveal_strlit(", roger");
    }
    let mut a = cs.display_full();
    a.append(", turning base");
    let mut b = cs.display_full();
    b.append(", roger");
    let mut r: Vec<Transmission> = Vec::new();
    r.push(make_pilot_tx(idx, &cs, Timing::Now, Channel::Tower, a));
    r.push(make_tower_tx(Timing::Response, b));
    r
}

/// The short-final exchange, with the tower's reported wind speed `wind` (knots).
pub open spec fn final_msgs(r: Seq<Transmission>, idx: usize, cs: Callsign, wind: int) -> bool {
    &&& r.len() == 3
    &&& pilot_tx(
        r[0],
        Timing::Now,
        Channel::Tower,
        idx,
        cs,
        cs.display_full_s() + ", short final two-eight left"@,
    )
    &&& tower_tx(
        r[1],
        Timing::Response,
        cs.display_full_s() + ", cleared touch and go runway two-eight left, wind two-seven-zero at "@
            + number_word_simple_s(wind),
    )
    &&& pilot_tx(
        r[2],
        Timing::Readback,
        Channel::Tower,
        idx,
        cs,
        "Cleared touch and go, "@ + cs.tail_phonetic@,
    )
}

/// Final leg done: touch and go, with the tower's wind speed `wind` (knots).
pub fn final_exchange(state: &mut AiPlaneAtcState, idx: usize, wind: u32) -> (r: Vec<Transmission>)
    ensures
        final(state).flight_phase == FlightPhase::TouchAndGo,
        same_identity(*final(state), *old(state)),
        final(state).cleared_option == old(state).cleared_option,
        final_msgs(r@, idx, old(state).callsign, wind as int),
{
    state.flight_phase = FlightPhase::TouchAndGo;
    let cs = state.callsign;
    proof {
        reveal_strlit(", short final two-eight left");
        reveal_strlit(", cleared touch and go runway two-eight left, wind two-seven-zero at ");
        reveal_strlit("Cleared touch and go, ");
    }
    let mut a = cs.display_full();
    a.append(", short final two-eight left");
    let mut b = cs.display_full();
    b.append(", cleared touch and go runway two-eight left, wind two-seven-zero at ");
    b.append(number_word_simple(wind));
    let mut c = String::from_str("Cleared touch and go, ");
    c.append(cs.tail_phonetic);
    let mut r: Vec<Transmission> = Vec::new();
    r.push(make_pilot_tx(idx, &cs, Timing::Now, Channel::Tower, a));
    r.push(make_tower_tx(Timing::Response, b));
    r.push(make_pilot_tx(idx, &cs, Timing::Readback, Channel::Tower, c));
    proof {
        assert(final_msgs(r@, idx, cs, wind as int));
    }
    r
}

/// Final leg done: touch and go. The wind speed is drawn from `rng` (6 to 11 knots);
/// the exchange is `final_exchange` for that wind.
pub fn generate_final(state: &mut AiPlaneAtcState, idx: usize, rng: &mut StdRng) -> (r: Vec<
    Transmission,
>)
    ensures
        final(state).flight_phase == FlightPhase::TouchAndGo,
        same_identity(*final(state), *old(state)),
        final(state).cleared_option == old(state).cleared_option,
        r@.len() == 3,
        exists|wind: int| 6 <= wind < 12 && #[trigger] final_msgs(r@, idx, old(state).callsign, wind),
{
    let wind = draw_u32(rng, 6, 12);
    let r = final_exchange(state, idx, wind);
    proof {
        assert(final_msgs(r@, idx, old(state).callsign, wind as int));
    }
    r
}

/// Touch and go done: climb out on crosswind. Nobody talks during the roll.
pub fn generate_touchandgo(state: &mut AiPlaneAtcState) -> (r: Vec<Transmission>)
    ensures
        final(state).flight_phase == FlightPhase::Crosswind,
        same_identity(*final(state), *old(state)),
        final(state).cleared_option == old(state).cleared_option,
        r@.len() == 0,
{
    state.flight_phase = FlightPhase::Crosswind;
    Vec::new()
}

/// The crosswind exchange: the tower hands the plane off to NorCal, the pilot reads
/// the frequency back.
pub open spec fn crosswind_msgs(r: Seq<Transmission>, idx: usize, cs: Callsign) -> bool {
    &&& r.len() == 2
    &&& tower_tx(
        r[0],
        Timing::Now,
        cs.display_full_s() + ", make left crosswind departure, contact NorCal on "@
            + norcal_frequency_spoken(),
    )
    &&& pilot_tx(
        r[1],
        Timing::Response,
        Channel::Tower,
        idx,
        cs,
        "Left crosswind, NorCal on "@ + norcal_frequency_spoken() + ", "@ + cs.tail_phonetic@,
    )
}

/// Crosswind leg done: depart, handed off to NorCal Approach on 135.65.
pub fn generate_crosswind(state: &mut AiPlaneAtcState, idx: usize) -> (r: Vec<Transmission>)
    ensures
        final(state).flight_phase == FlightPhase::Departure,
        same_identity(*final(state), *old(state)),
        final(state).cleared_option == old(state).cleared_option,
        crosswind_msgs(r@, idx, old(state).callsign),
{
    state.flight_phase = FlightPhase::Departure;
    let cs = state.callsign;
    proof {
        reveal_strlit(", make left crosswind departure, contact NorCal on ");
        reveal_strlit("Left crosswind, NorCal on ");
        reveal_strlit(", ");
    }
    let f = speak_frequency(13565);
    let mut a = cs.display_full();
    a.append(", make left crosswind departure, contact NorCal on ");
    a.append(f.as_str());
    let mut b = String::from_str("Left crosswind, NorCal on ");
    b.append(f.as_str());
    b.append(", ");
    b.append(cs.tail_phonetic);
    let mut r: Vec<Transmission> = Vec::new();
    r.push(make_tower_tx(Timing::Now, a));
    r.push(make_pilot_tx(idx, &cs, Timing::Response, Channel::Tower, b));
    r
}

/// The departure exchange: the pilot re-enters the downwind, the tower asks for a
/// midfield report.
pub open spec fn departure_msgs(r: Seq<Transmission>, idx: usize, cs: Callsign) -> bool {
    &&& r.len() == 2
    &&& pilot_tx(
        r[0],
        Timing::Now,
        Channel::Tower,
        idx,
        cs,
        "San Francisco Tower, "@ + cs.full_s()
            + ", re-entering left downwind two-eight left, one thousand five hundred"@,
    )
    &&& tower_tx(r[1], Timing::Response, cs.display_full_s() + ", report midfield downwind"@)
}

/// Departure leg done: re-enter downwind for the next circuit, which may be
/// cleared for the option again.
pub fn generate_departure(state: &mut AiPlaneAtcState, idx: usize) -> (r: Vec<Transmission>)
    ensures
        final(state).flight_phase == FlightPhase::Downwind,
        same_identity(*final(state), *old(state)),
        !final(state).cleared_option,
        departure_msgs(r@, idx, old(state).callsign),
{
    state.flight_phase = FlightPhase::Downwind;
    state.cleared_option = false;
    let cs = state.callsign;
    proof {
        reveal_strlit("San Francisco Tower, ");
        reveal_strlit(", re-entering left downwind two-eight left, one thousand five hundred");
        reveal_strlit(", report midfield downwind");
    }
    let mut a = String::from_str("San Francisco Tower, ");
    let full = cs.full();
    a.append(full.as_str());
    a.append(", re-entering left downwind two-eight left, one thousand five hundred");
    let mut b = cs.display_full();
    b.append(", report midfield downwind");
    let mut r: Vec<Transmission> = Vec::new();
    r.push(make_pilot_tx(idx, &cs, Timing::Now, Channel::Tower, a));
    r.push(make_tower_tx(Timing::Response, b));
    r
}

// --- En-route traffic on NorCal Approach ---

/// The initial-contact exchange of an en-route plane.
pub open spec fn initial_contact_msgs(
    r: Seq<Transmission>,
    idx: usize,
    cs: Callsign,
    squawk: u16,
    alt_hundreds: int,
    waypoint: int,
) -> bool {
    &&& r.len() == 2
    &&& pilot_tx(
        r[0],
        Timing::Now,
        Channel::Approach,
        idx,
        cs,
        "NorCal Approach, "@ + cs.full_s() + ", "@ + spoken_altitude(alt_hundreds)
            + " feet, proceeding direct "@ + waypoint_name_s(waypoint),
    )
    &&& norcal_tx(
        r[1],
        Timing::Response,
        cs.display_full_s() + ", NorCal Approach, radar contact, squawk "@ + spoken_digits(
            zero_padded(decimal(squawk as nat), 4),
        ),
    )
}

/// First call of an en-route plane: it reports its altitude (`alt_hundreds`, hundreds
/// of feet) and the waypoint it proceeds to; NorCal gives radar contact and its squawk.
/// Marks initial contact as made.
pub fn enroute_initial_contact(
    state: &mut AiPlaneAtcState,
    idx: usize,
    alt_hundreds: i32,
    waypoint: usize,
) -> (r: Vec<Transmission>)
    ensures
        final(state).initial_contact_made,
        final(state).callsign == old(state).callsign,
        final(state).squawk == old(state).squawk,
        final(state).channel == old(state).channel,
        final(state).flight_phase == old(state).flight_phase,
        final(state).cleared_option == old(state).cleared_option,
        final(state).last_transmission_ms == old(state).last_transmission_ms,
        initial_contact_msgs(r@, idx, old(state).callsign, old(state).squawk, alt_hundreds as int, waypoint as int),
{
    state.initial_contact_made = true;
    let cs = state.callsign;
    proof {
        reveal_strlit("NorCal Approach, ");
        reveal_strlit(", ");
        reveal_strlit(" feet, proceeding direct ");
        reveal_strlit(", NorCal Approach, radar contact, squawk ");
    }
    let alt = speak_altitude(alt_hundreds);
    let mut a = String::from_str("NorCal Approach, ");
    let full = cs.full();
    a.append(full.as_str());
    a.append(", ");
    a.append(alt.as_str());
    a.append(" feet, proceeding direct ");
    a.append(nearest_waypoint_name(waypoint));
    let mut b = cs.display_full();
    b.append(", NorCal Approach, radar contact, squawk ");
    let sq = speak_squawk(state.squawk);
    b.append(sq.as_str());
    let mut r: Vec<Transmission> = Vec::new();
    r.push(make_pilot_tx(idx, &cs, Timing::Now, Channel::Approach, a));
    r.push(make_norcal_tx(Timing::Response, b));
    r
}

/// Periodic check-in of an en-route plane, one of three templates: a level report
/// (`template` 0), a traffic advisory at clock sector `sector`, `dist` miles and
/// `traffic_hundreds` hundreds of feet (1), or an altimeter update (anything else).
pub open spec fn checkin_msgs(
    r: Seq<Transmission>,
    idx: usize,
    cs: Callsign,
    alt_hundreds: int,
    template: int,
    sector: int,
    dist: int,
    traffic_hundreds: int,
) -> bool {
    &&& r.len() == 2
    &&& if template == 0 {
        &&& pilot_tx(
            r[0],
            Timing::Now,
            Channel::Approach,
            idx,
            cs,
            "NorCal Approach, "@ + cs.full_s() + ", level "@ + spoken_altitude(alt_hundreds),
        )
        &&& norcal_tx(r[1], Timing::Response, cs.display_full_s() + ", roger"@)
    } else if template == 1 {
        &&& norcal_tx(
            r[0],
            Timing::Now,
            cs.display_full_s() + ", traffic "@ + clock_word(sector) + ", "@ + decimal(
                dist as nat,
            ) + " miles, "@ + spoken_altitude(traffic_hundreds) + ", type unknown"@,
        )
        &&& pilot_tx(
            r[1],
            Timing::Response,
            Channel::Approach,
            idx,
            cs,
            "Looking for traffic, "@ + cs.tail_phonetic@,
        )
    } else {
        &&& norcal_tx(
            r[0],
            Timing::Now,
            cs.display_full_s() + ", altimeter "@ + "three-zero-one-niner"@,
        )
        &&& pilot_tx(
            r[1],
            Timing::Response,
            Channel::Approach,
            idx,
            cs,
            "three-zero-one-niner"@ + ", "@ + cs.tail_phonetic@,
        )
    }
}

/// Periodic check-in of an en-route plane (see `checkin_msgs`).
pub fn enroute_checkin(
    state: &AiPlaneAtcState,
    idx: usize,
    alt_hundreds: i32,
    template: u8,
    sector: u32,
    dist: u32,
    traffic_hundreds: i32,
) -> (r: Vec<Transmission>)
    ensures
        checkin_msgs(
            r@,
            idx,
            state.callsign,
            alt_hundreds as int,
            template as int,
            sector as int,
            dist as int,
            traffic_hundreds as int,
        ),
{
    let cs = state.callsign;
    proof {
        reveal_strlit("NorCal Approach, ");
        reveal_strlit(", level ");
        reveal_strlit(", roger");
        reveal_strlit(", traffic ");
        reveal_strlit(", ");
        reveal_strlit(" miles, ");
        reveal_strlit(", type unknown");
        reveal_strlit("Looking for traffic, ");
        reveal_strlit(", altimeter ");
        reveal_strlit("three-zero-one-niner");
    }
    let mut r: Vec<Transmission> = Vec::new();
    if template == 0 {
        let alt = speak_altitude(alt_hundreds);
        let mut a = String::from_str("NorCal Approach, ");
        let full = cs.full();
        a.append(full.as_str());
        a.append(", level ");
        a.append(alt.as_str());
        let mut b = cs.display_full();
        b.append(", roger");
        r.push(make_pilot_tx(idx, &cs, Timing::Now, Channel::Approach, a));
        r.push(make_norcal_tx(Timing::Response, b));
    } else if template == 1 {
        let traf = speak_altitude(traffic_hundreds);
        let d = u64_to_decimal(dist as u64);
        let mut a = cs.display_full();
        a.append(", traffic ");
        a.append(clock_position(sector));
        a.append(", ");
        a.append(d.as_str());
        a.append(" miles, ");
        a.append(traf.as_str());
        a.append(", type unknown");
        let mut b = String::from_str("Looking for traffic, ");
        b.append(cs.tail_phonetic);
        r.push(make_norcal_tx(Timing::Now, a));
        r.push(make_pilot_tx(idx, &cs, Timing::Response, Channel::Approach, b));
    } else {
        let mut a = cs.display_full();
        a.append(", altimeter ");
        a.append(speak_altimeter());
        let mut b = String::from_str(speak_altimeter());
        b.append(", ");
        b.append(cs.tail_phonetic);
        r.push(make_norcal_tx(Timing::Now, a));
        r.push(make_pilot_tx(idx, &cs, Timing::Response, Channel::Approach, b));
    }
    r
}

} // verus!
