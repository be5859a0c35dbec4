//! The ATC radio scheduler: it keeps the simulated clock, decides when each AI plane
//! may key the microphone, stamps the exchanges of `radio` with the times they are
//! heard, delivers them in order and keeps a bounded log of what was said.
//!
//! Time is kept in whole milliseconds of simulated time.

use vstd::prelude::*;
use std::collections::VecDeque;
use rand::rngs::StdRng;
use crate::ambient::{generate_ambient_pair, is_ambient_pair};
use crate::facilities::{AtcFacility, build_facilities, is_bay_area_table};
use crate::random::{seeded_rng, draw_ratio, draw_u64, draw_u8, draw_u32, draw_i32};
use crate::radio::{
    AiPlaneAtcState, Channel, Speaker, Timing, Transmission, FlightPhase, next_pattern_phase,
    downwind_msgs, base_msgs, final_msgs, crosswind_msgs, departure_msgs, initial_contact_msgs,
    checkin_msgs, generate_downwind, generate_base, generate_final, generate_touchandgo,
    generate_crosswind, generate_departure, enroute_initial_contact, enroute_checkin,
};

verus! {

/// Minimum time between transmission pairs from the same plane.
pub const MIN_PLANE_INTERVAL_MS: i64 = 20_000;
/// Minimum time between any two exchanges, system-wide.
pub const MIN_GLOBAL_INTERVAL_MS: i64 = 4_500;
/// Range of the delay between a call and its response.
pub const RESPONSE_DELAY_MIN_MS: u64 = 1_500;
pub const RESPONSE_DELAY_MAX_MS: u64 = 4_000;
/// Gap between a response and the readback that follows it.
pub const READBACK_GAP_MS: i64 = 1_500;
/// Range of the periodic en-route check-in interval.
pub const ENROUTE_CHECKIN_MIN_MS: u64 = 60_000;
pub const ENROUTE_CHECKIN_MAX_MS: u64 = 120_000;
/// Range of the interval between ambient filler exchanges.
pub const AMBIENT_MIN_MS: u64 = 30_000;
pub const AMBIENT_MAX_MS: u64 = 90_000;
/// Time spent on each leg of the traffic pattern before its call.
pub const DOWNWIND_CALL_MS: u64 = 7_500;
pub const BASE_CALL_MS: u64 = 7_500;
pub const FINAL_CALL_MS: u64 = 10_000;
pub const TOUCHANDGO_MS: u64 = 8_000;
pub const CROSSWIND_MS: u64 = 15_000;
pub const DEPARTURE_MS: u64 = 20_000;
/// Number of delivered messages kept in the log.
pub const MAX_LOG_SIZE: usize = 50;
/// The clock stops here (about 146 million years of simulated time).
pub const CLOCK_LIMIT_MS: i64 = 4_611_686_018_427_387_904;
/// Seed of the radio chatter's random generator.
pub const ATC_SEED: u64 = 0xA7C0;

/// A single radio transmission.
#[derive(Debug)]
pub struct RadioMessage {
    /// sim time when this should be heard, in milliseconds
    pub timestamp_ms: i64,
    pub channel: Channel,
    pub speaker: Speaker,
    /// the spoken text (FAA phraseology)
    pub text: String,
    /// short speaker label for display: "SFO TWR", "97B", "NorCal"
    pub display_speaker: String,
    pub voice_id: u8,
}

impl RadioMessage {
    /// An identical copy of this message.
    pub fn duplicate(&self) -> (r: Self)
        ensures
            r == *self,
    {
        let speaker = match &self.speaker {
            Speaker::Pilot(i) => Speaker::Pilot(*i),
            Speaker::Controller(n) => Speaker::Controller(n.clone()),
            Speaker::Ambient => Speaker::Ambient,
        };
        RadioMessage {
            timestamp_ms: self.timestamp_ms,
            channel: self.channel,
            speaker,
            text: self.text.clone(),
            display_speaker: self.display_speaker.clone(),
            voice_id: self.voice_id,
        }
    }
}

/// Number of messages at the front of `q` that are due at time `now`: delivery stops
/// at the first message still in the future.
pub open spec fn due_count(q: Seq<RadioMessage>, now: int) -> nat
    decreases q.len(),
{
    if q.len() == 0 || q[0].timestamp_ms > now {
        0
    } else {
        1 + due_count(q.drop_first(), now)
    }
}

/// The last `m` elements of `s` (all of `s` when it is shorter).
pub open spec fn keep_last(s: Seq<RadioMessage>, m: nat) -> Seq<RadioMessage> {
    if s.len() <= m {
        s
    } else {
        s.skip(s.len() - m)
    }
}

proof fn lemma_keep_last_push(s: Seq<RadioMessage>, x: RadioMessage, m: nat)
    ensures
        keep_last(keep_last(s, m).push(x), m) == keep_last(s.push(x), m),
{
    if s.len() > m {
        assert(keep_last(s, m).push(x).skip(1) =~= s.push(x).skip(s.len() + 1 - m));
    }
}

proof fn lemma_keep_last_drop_first(s: Seq<RadioMessage>, m: nat)
    requires
        s.len() > m,
    ensures
        keep_last(s.drop_first(), m) == keep_last(s, m),
{
    assert(s.drop_first().skip(s.len() - 1 - m) =~= s.skip(s.len() - m));
}

/// The messages of `s` heard less than `window` milliseconds before `now`, in order.
pub open spec fn recent_of(s: Seq<RadioMessage>, now: int, window: int) -> Seq<RadioMessage>
    decreases s.len(),
{
    if s.len() == 0 {
        s
    } else {
        let p = recent_of(s.drop_last(), now, window);
        if now - s.last().timestamp_ms < window {
            p.push(s.last())
        } else {
            p
        }
    }
}

/// Start of the en-route check-in timer of plane `i`, staggered so that the planes do
/// not all talk at once: plane 1 at 5 s, plane 2 at 17 s, and so on; plane 0 flies the
/// pattern and does not use it. Saturates at `u64::MAX`.
pub open spec fn enroute_offset(i: int) -> u64 {
    if i == 0 {
        0
    } else if 5_000 + (i - 1) * 12_000 > u64::MAX {
        u64::MAX
    } else {
        (5_000 + (i - 1) * 12_000) as u64
    }
}

/// `t + dt`, or `u64::MAX` when that does not fit.
pub open spec fn sat_add(t: u64, dt: u64) -> u64 {
    if t + dt > u64::MAX {
        u64::MAX
    } else {
        (t + dt) as u64
    }
}

/// The clock advanced by `dt` milliseconds, stopping at `CLOCK_LIMIT_MS`.
pub open spec fn clock_after(now: int, dt: int) -> int {
    if now + dt > CLOCK_LIMIT_MS {
        CLOCK_LIMIT_MS as int
    } else {
        now + dt
    }
}

/// What the radio logic reads of an AI plane.
#[derive(Clone, Copy, Debug)]
pub struct PlaneReport {
    /// altitude, rounded to hundreds of feet
    pub altitude_hundreds: i32,
    /// index of the waypoint the plane flies from
    pub current_waypoint: usize,
}

/// Time a plane spends on a leg of the pattern before making its call.
pub open spec fn leg_call_ms(phase: FlightPhase) -> u64 {
    match phase {
        FlightPhase::Downwind => DOWNWIND_CALL_MS,
        FlightPhase::Base => BASE_CALL_MS,
        FlightPhase::Final => FINAL_CALL_MS,
        FlightPhase::TouchAndGo => TOUCHANDGO_MS,
        FlightPhase::Crosswind => CROSSWIND_MS,
        FlightPhase::Departure => DEPARTURE_MS,
        FlightPhase::EnRoute => 0,
    }
}

/// When a transmission of the given timing is heard, for an exchange starting at `now`
/// with response delay `delay`.
pub open spec fn stamp_time(t: Timing, now: int, delay: int) -> int {
    match t {
        Timing::Now => now,
        Timing::Response => now + delay,
        Timing::Readback => now + delay + READBACK_GAP_MS,
    }
}

/// `m` is the transmission `t`, heard at its time in an exchange starting at `now`.
pub open spec fn stamped_as(m: RadioMessage, t: Transmission, now: int, delay: int) -> bool {
    &&& m.timestamp_ms == stamp_time(t.timing, now, delay)
    &&& m.channel == t.channel
    &&& m.speaker == t.speaker
    &&& m.text == t.text
    &&& m.display_speaker == t.display_speaker
    &&& m.voice_id == t.voice_id
}

/// The messages `ms` are the transmissions `txs`, in order, given their times.
pub open spec fn stamped(ms: Seq<RadioMessage>, txs: Seq<Transmission>, now: int, delay: int) -> bool {
    &&& ms.len() == txs.len()
    &&& forall|i: int| 0 <= i < ms.len() ==> #[trigger] stamped_as(ms[i], txs[i], now, delay)
}

/// The pattern call of a plane on leg `phase`, taking it from `before` to `after`.
pub open spec fn pattern_exchange(
    phase: FlightPhase,
    idx: usize,
    before: AiPlaneAtcState,
    after: AiPlaneAtcState,
    txs: Seq<Transmission>,
) -> bool {
    let cs = before.callsign;
    &&& after.callsign == before.callsign
    &&& after.squawk == before.squawk
    &&& after.channel == before.channel
    &&& after.initial_contact_made == before.initial_contact_made
    &&& after.flight_phase == next_pattern_phase(phase)
    &&& match phase {
        FlightPhase::Downwind => (after.cleared_option && !before.cleared_option && downwind_msgs(
            txs,
            idx,
            cs,
            true,
            0,
        )) || (after.cleared_option == before.cleared_option && exists|seq: int|
            1 <= seq < 4 && #[trigger] downwind_msgs(txs, idx, cs, false, seq)),
        FlightPhase::Base => after.cleared_option == before.cleared_option && base_msgs(txs, idx, cs),
        FlightPhase::Final => after.cleared_option == before.cleared_option && exists|wind: int|
            6 <= wind < 12 && #[trigger] final_msgs(txs, idx, cs, wind),
        FlightPhase::TouchAndGo => after.cleared_option == before.cleared_option && txs.len() == 0,
        FlightPhase::Crosswind => after.cleared_option == before.cleared_option && crosswind_msgs(
            txs,
            idx,
            cs,
        ),
        FlightPhase::Departure => !after.cleared_option && departure_msgs(txs, idx, cs),
        FlightPhase::EnRoute => false,
    }
}

/// The pattern call of plane `idx`, taking it from `st0` to `st1`, stamped at `now`.
pub open spec fn pattern_heard(
    r: Seq<RadioMessage>,
    now: int,
    idx: usize,
    st0: AiPlaneAtcState,
    st1: AiPlaneAtcState,
) -> bool {
    exists|delay: int, txs: Seq<Transmission>|
        #![trigger stamped(r, txs, now, delay)]
        RESPONSE_DELAY_MIN_MS <= delay < RESPONSE_DELAY_MAX_MS && stamped(r, txs, now, delay)
            && pattern_exchange(st0.flight_phase, idx, st0, st1, txs)
}

/// The initial contact of plane `idx` whose state is `st`, stamped at `now`.
pub open spec fn contact_heard(
    r: Seq<RadioMessage>,
    now: int,
    idx: usize,
    st: AiPlaneAtcState,
    plane: PlaneReport,
) -> bool {
    exists|delay: int, txs: Seq<Transmission>|
        #![trigger stamped(r, txs, now, delay)]
        RESPONSE_DELAY_MIN_MS <= delay < RESPONSE_DELAY_MAX_MS && stamped(r, txs, now, delay)
            && initial_contact_msgs(
            txs,
            idx,
            st.callsign,
            st.squawk,
            plane.altitude_hundreds as int,
            plane.current_waypoint as int,
        )
}

/// A periodic check-in of plane `idx` whose state is `st`, stamped at `now`.
pub open spec fn checkin_heard(
    r: Seq<RadioMessage>,
    now: int,
    idx: usize,
    st: AiPlaneAtcState,
    plane: PlaneReport,
) -> bool {
    exists|delay: int, txs: Seq<Transmission>, template: int, sector: int, dist: int, traffic: int|
        #![trigger stamped(r, txs, now, delay), checkin_msgs(txs, idx, st.callsign, plane.altitude_hundreds as int, template, sector, dist, traffic)]
        RESPONSE_DELAY_MIN_MS <= delay < RESPONSE_DELAY_MAX_MS && 0 <= template < 3 && 0 <= sector
            < 12 && 3 <= dist < 12 && 10 <= traffic < 50 && stamped(r, txs, now, delay)
            && checkin_msgs(
            txs,
            idx,
            st.callsign,
            plane.altitude_hundreds as int,
            template,
            sector,
            dist,
            traffic,
        )
}

/// `r` is what plane `idx` says on its turn, going from state `st0` to `st1` (its last
/// call aside): a pattern call, an en-route plane's initial contact, or its check-in.
pub open spec fn exchange_heard(
    r: Seq<RadioMessage>,
    now: int,
    idx: usize,
    st0: AiPlaneAtcState,
    st1: AiPlaneAtcState,
    plane: PlaneReport,
) -> bool {
    if st0.flight_phase != FlightPhase::EnRoute {
        pattern_heard(r, now, idx, st0, st1)
    } else {
        &&& st1.callsign == st0.callsign
        &&& st1.squawk == st0.squawk
        &&& st1.channel == st0.channel
        &&& st1.flight_phase == st0.flight_phase
        &&& st1.cleared_option == st0.cleared_option
        &&& st1.initial_contact_made
        &&& if !st0.initial_contact_made {
            contact_heard(r, now, idx, st0, plane)
        } else {
            checkin_heard(r, now, idx, st0, plane)
        }
    }
}

/// `r` is an ambient filler exchange starting at `now`: a pilot and a controller who
/// are not among the simulated planes, on one of the two frequencies.
pub open spec fn ambient_heard(r: Seq<RadioMessage>, now: int) -> bool {
    &&& r.len() == 2
    &&& r[0].timestamp_ms == now
    &&& now + RESPONSE_DELAY_MIN_MS <= r[1].timestamp_ms < now + RESPONSE_DELAY_MAX_MS
    &&& r[0].channel == r[1].channel
    &&& r[0].speaker == Speaker::Ambient
    &&& r[1].speaker == Speaker::Ambient
    &&& r[0].voice_id == 200
    &&& r[1].voice_id == 201
    &&& is_ambient_pair(r[0].text@, r[0].display_speaker@, r[1].text@, r[1].display_speaker@)
}

/// What a plane said on its turn does not depend on the time of its last call.
proof fn lemma_exchange_heard_last(
    r: Seq<RadioMessage>,
    now: int,
    idx: usize,
    st0: AiPlaneAtcState,
    st1: AiPlaneAtcState,
    st2: AiPlaneAtcState,
    plane: PlaneReport,
)
    requires
        exchange_heard(r, now, idx, st0, st1, plane),
        st2.callsign == st1.callsign,
        st2.squawk == st1.squawk,
        st2.channel == st1.channel,
        st2.flight_phase == st1.flight_phase,
        st2.initial_contact_made == st1.initial_contact_made,
        st2.cleared_option == st1.cleared_option,
    ensures
        exchange_heard(r, now, idx, st0, st2, plane),
{
    if pattern_heard(r, now, idx, st0, st1) {
        let (delay, txs) = choose|delay: int, txs: Seq<Transmission>|
            RESPONSE_DELAY_MIN_MS <= delay < RESPONSE_DELAY_MAX_MS && stamped(r, txs, now, delay)
                && pattern_exchange(st0.flight_phase, idx, st0, st1, txs);
        assert(pattern_exchange(st0.flight_phase, idx, st0, st2, txs));
        assert(stamped(r, txs, now, delay));
    }
}

/// Whether a plane with radio state `st` must say something on its turn, given its
/// pattern leg timer and en-route check-in timer at that moment: a pattern plane whose
/// leg is done (except the silent touch and go), an en-route plane that has not made
/// initial contact, or one whose check-in is two minutes due.
pub open spec fn must_speak(st: AiPlaneAtcState, pattern_timer: u64, enroute_timer: u64) -> bool {
    if st.flight_phase == FlightPhase::EnRoute {
        !st.initial_contact_made || enroute_timer >= ENROUTE_CHECKIN_MAX_MS
    } else {
        st.flight_phase != FlightPhase::TouchAndGo && pattern_timer >= leg_call_ms(st.flight_phase)
    }
}

/// The one turn that changes a plane's radio state without a word: the touch and go,
/// after which the plane is on the crosswind leg.
pub open spec fn touch_and_go_step(st0: AiPlaneAtcState, st1: AiPlaneAtcState) -> bool {
    &&& st0.flight_phase == FlightPhase::TouchAndGo
    &&& st1.flight_phase == FlightPhase::Crosswind
    &&& st1.callsign == st0.callsign
    &&& st1.squawk == st0.squawk
    &&& st1.channel == st0.channel
    &&& st1.last_transmission_ms == st0.last_transmission_ms
    &&& st1.initial_contact_made == st0.initial_contact_made
    &&& st1.cleared_option == st0.cleared_option
}

/// One plane's turn at the microphone, once it is allowed to transmit: what it says
/// (`r`), how its radio state goes from `st0` to `st1` and how the manager's timers go
/// from `m0` to `m1`.
///
/// A plane flying the pattern makes its call once it has been on its leg long enough,
/// moving to the next leg and restarting the leg timer; before that it stays quiet. An
/// en-route plane makes initial contact first; after that it checks in once its
/// check-in timer reaches a minute, certainly by two minutes, and stays quiet before.
pub open spec fn plane_turn(
    m0: AtcManager,
    m1: AtcManager,
    idx: int,
    plane: PlaneReport,
    st0: AiPlaneAtcState,
    st1: AiPlaneAtcState,
    r: Seq<RadioMessage>,
) -> bool {
    let now = m0.now();
    let quiet = r.len() == 0 && st1 == st0 && m1.pattern_timers() == m0.pattern_timers()
        && m1.enroute_timers() == m0.enroute_timers();
    if st0.flight_phase != FlightPhase::EnRoute {
        if m0.pattern_timers()[idx] >= leg_call_ms(st0.flight_phase) {
            &&& m1.pattern_timers() == m0.pattern_timers().update(idx, 0)
            &&& m1.enroute_timers() == m0.enroute_timers()
            &&& st1.last_transmission_ms == st0.last_transmission_ms
            &&& pattern_heard(r, now, idx as usize, st0, st1)
        } else {
            quiet
        }
    } else if !st0.initial_contact_made {
        &&& st1.initial_contact_made
        &&& st1.callsign == st0.callsign
        &&& st1.squawk == st0.squawk
        &&& st1.channel == st0.channel
        &&& st1.flight_phase == st0.flight_phase
        &&& st1.last_transmission_ms == st0.last_transmission_ms
        &&& st1.cleared_option == st0.cleared_option
        &&& m1.enroute_timers() == m0.enroute_timers().update(idx, 0)
        &&& m1.pattern_timers() == m0.pattern_timers()
        &&& contact_heard(r, now, idx as usize, st0, plane)
    } else if m0.enroute_timers()[idx] < ENROUTE_CHECKIN_MIN_MS {
        quiet
    } else {
        let checkin = st1 == st0 && m1.enroute_timers() == m0.enroute_timers().update(idx, 0)
            && m1.pattern_timers() == m0.pattern_timers() && checkin_heard(
            r,
            now,
            idx as usize,
            st0,
            plane,
        );
        if m0.enroute_timers()[idx] >= ENROUTE_CHECKIN_MAX_MS {
            checkin
        } else {
            checkin || quiet
        }
    }
}

/// Messages queued during one tick at time `now`: at most one exchange, heard from
/// `now` on, within the longest response delay and readback.
pub open spec fn added_ok(added: Seq<RadioMessage>, now: int) -> bool {
    &&& added.len() <= 3
    &&& forall|i: int|
        0 <= i < added.len() ==> now <= #[trigger] added[i].timestamp_ms < now + RESPONSE_DELAY_MAX_MS
            + READBACK_GAP_MS
}

/// The time of the last exchange moves to `now` exactly when something was queued,
/// and only when the previous exchange started `MIN_GLOBAL_INTERVAL_MS` before.
pub open spec fn added_global(added: Seq<RadioMessage>, last0: int, last1: int, now: int) -> bool {
    &&& added.len() == 0 ==> last1 == last0
    &&& added.len() > 0 ==> last1 == now && last0 + MIN_GLOBAL_INTERVAL_MS <= now
}

/// How one plane's radio state may change during a tick at time `now`, when the last
/// exchange before the tick started at `last_global`: its identity stays, its last
/// call is now or unchanged, and it changes at all only if it was allowed to transmit.
pub open spec fn plane_after_tick(
    st0: AiPlaneAtcState,
    st1: AiPlaneAtcState,
    last_global: int,
    now: int,
) -> bool {
    &&& st1.callsign == st0.callsign
    &&& st1.squawk == st0.squawk
    &&& st1.channel == st0.channel
    &&& (st1.last_transmission_ms == st0.last_transmission_ms || st1.last_transmission_ms == now)
    &&& st1 != st0 ==> st0.last_transmission_ms + MIN_PLANE_INTERVAL_MS <= now && last_global
        + MIN_GLOBAL_INTERVAL_MS <= now
}

/// Delivery during a tick from `m0` to `m1`: the messages due at the new time leave
/// the front of the queue, in order, and the log keeps the last `MAX_LOG_SIZE` of what
/// it held and what was delivered.
pub open spec fn tick_delivers(m0: AtcManager, m1: AtcManager, delivered: Seq<RadioMessage>) -> bool {
    let k = due_count(m0.queue(), m1.now());
    &&& delivered == m0.queue().take(k as int)
    &&& m1.log() == keep_last(m0.log() + delivered, MAX_LOG_SIZE as nat)
}

/// Scheduling during a tick from `m0` to `m1` at the new time `now`, with the planes'
/// radio states going from `s0` to `s1`: the undelivered messages stay at the front
/// of the queue, followed by what was added (see `added_ok` and `added_global`),
/// which is the exchange of a plane that was allowed to transmit or an ambient filler;
/// each plane changes as `plane_after_tick` allows, and a plane that changed without
/// calling made its touch and go; the ambient filler runs as `ambient_turn` says.
pub open spec fn tick_schedules(
    m0: AtcManager,
    m1: AtcManager,
    s0: Seq<AiPlaneAtcState>,
    s1: Seq<AiPlaneAtcState>,
    planes: Seq<PlaneReport>,
) -> bool {
    let now = m1.now();
    let q1 = m0.queue().skip(due_count(m0.queue(), now) as int);
    let added = m1.queue().skip(q1.len() as int);
    &&& m1.queue().len() >= q1.len()
    &&& m1.queue().take(q1.len() as int) == q1
    &&& added_ok(added, now)
    &&& added_global(added, m0.last_global(), m1.last_global(), now)
    &&& added.len() > 0 ==> ambient_heard(added, now) || exists|k: int|
        0 <= k < s0.len() && #[trigger] s1[k].last_transmission_ms == now
            && s0[k].last_transmission_ms != now
    &&& forall|k: int|
        0 <= k < s0.len() && s1[k].last_transmission_ms == now && s0[k].last_transmission_ms != now
            ==> #[trigger] exchange_heard(added, now, k as usize, s0[k], s1[k], planes[k])
    &&& s1.len() == s0.len()
    &&& forall|k: int| 0 <= k < s0.len() ==> #[trigger] plane_after_tick(s0[k], s1[k], m0.last_global(), now)
    &&& forall|k: int|
        0 <= k < s0.len() && s1[k] != s0[k] && !(s1[k].last_transmission_ms == now
            && s0[k].last_transmission_ms != now) ==> #[trigger] touch_and_go_step(s0[k], s1[k])
    &&& ambient_turn(m0, m1, s0, s1, added, now)
}

/// The ambient filler during a tick at time `now`: when no plane spoke, the filler is
/// due and the last exchange started `MIN_GLOBAL_INTERVAL_MS` before, the filler is
/// what was added and the next one is scheduled 30 to 90 s ahead; otherwise the
/// schedule stays, and when no plane spoke nothing was added.
pub open spec fn ambient_turn(
    m0: AtcManager,
    m1: AtcManager,
    s0: Seq<AiPlaneAtcState>,
    s1: Seq<AiPlaneAtcState>,
    added: Seq<RadioMessage>,
    now: int,
) -> bool {
    let planes_quiet = forall|k: int|
        0 <= k < s0.len() ==> !(#[trigger] s1[k].last_transmission_ms == now
            && s0[k].last_transmission_ms != now);
    if planes_quiet && m0.next_ambient() <= now && m0.last_global() + MIN_GLOBAL_INTERVAL_MS <= now {
        &&& ambient_heard(added, now)
        &&& now + AMBIENT_MIN_MS <= m1.next_ambient() < now + AMBIENT_MAX_MS
    } else {
        &&& m1.next_ambient() == m0.next_ambient()
        &&& planes_quiet ==> added.len() == 0
    }
}

/// The pattern leg timer of each plane reported this tick moves on by `dt`
/// (saturating), the others stay; a timer is restarted only by its plane's turn, which
/// changes the plane's radio state.
pub open spec fn timers_after_tick(
    m0: AtcManager,
    m1: AtcManager,
    s0: Seq<AiPlaneAtcState>,
    s1: Seq<AiPlaneAtcState>,
    reported: int,
    dt: u64,
) -> bool {
    &&& m1.pattern_timers().len() == m0.pattern_timers().len()
    &&& m1.enroute_timers().len() == m0.enroute_timers().len()
    &&& forall|k: int|
        0 <= k < m0.pattern_timers().len() ==> #[trigger] m1.pattern_timers()[k] == (if k < reported {
            sat_add(m0.pattern_timers()[k], dt)
        } else {
            m0.pattern_timers()[k]
        }) || (m1.pattern_timers()[k] == 0 && k < s0.len() && s1[k] != s0[k])
    &&& forall|k: int|
        0 <= k < m0.enroute_timers().len() ==> #[trigger] m1.enroute_timers()[k] == m0.enroute_timers()[k]
            || (m1.enroute_timers()[k] == 0 && k < s0.len() && s1[k] != s0[k])
}

/// At the start of a tick from `m0` to the new time `now`, plane `k` (whose radio state
/// was `st`) is allowed to transmit and must speak, with its pattern leg timer moved
/// on by `dt`.
pub open spec fn obliged(m0: AtcManager, st: AiPlaneAtcState, k: int, now: int, dt: u64) -> bool {
    &&& st.last_transmission_ms + MIN_PLANE_INTERVAL_MS <= now
    &&& m0.last_global() + MIN_GLOBAL_INTERVAL_MS <= now
    &&& must_speak(st, sat_add(m0.pattern_timers()[k], dt), m0.enroute_timers()[k])
}

/// Who speaks in a tick: the planes the manager keeps timers for take their turns in
/// order (a plane beyond them takes none), so when no exchange started no such plane
/// was obliged to speak, an obliged plane spoke unless one before it
/// did, and when plane `w` spoke no plane before it was obliged and the planes after
/// it were silent and unchanged.
pub open spec fn turn_order(
    m0: AtcManager,
    m1: AtcManager,
    s0: Seq<AiPlaneAtcState>,
    s1: Seq<AiPlaneAtcState>,
    planes: Seq<PlaneReport>,
    dt: u64,
) -> bool {
    let now = m1.now();
    let n0 = if planes.len() < s0.len() { planes.len() as int } else { s0.len() as int };
    let n = if n0 < m0.plane_count() { n0 } else { m0.plane_count() as int };
    let added = m1.queue().skip(m0.queue().skip(due_count(m0.queue(), now) as int).len() as int);
    &&& added.len() == 0 ==> forall|k: int| 0 <= k < n ==> !#[trigger] obliged(m0, s0[k], k, now, dt)
    &&& forall|k: int|
        0 <= k < n && #[trigger] obliged(m0, s0[k], k, now, dt) ==> exists|w: int|
            0 <= w <= k && #[trigger] s1[w].last_transmission_ms == now && s0[w].last_transmission_ms
                != now
    &&& forall|w: int|
        0 <= w < s0.len() && #[trigger] s1[w].last_transmission_ms == now && s0[w].last_transmission_ms
            != now ==> (forall|k: int| 0 <= k < w ==> !#[trigger] obliged(m0, s0[k], k, now, dt)) && (
        forall|k: int| w < k < s0.len() ==> #[trigger] s1[k] == s0[k])
}

/// The two ambient transmissions of an exchange starting at `now`: the pilot side
/// (`pilot_text`, shown as `pilot_display`) at once and the controller side after
/// `delay`, on NorCal Approach when `on_approach`, on SFO Tower otherwise.
pub fn ambient_messages(
    now: i64,
    delay: u64,
    on_approach: bool,
    pilot_text: String,
    pilot_display: String,
    atc_text: String,
    atc_display: String,
) -> (r: Vec<RadioMessage>)
    requires
        0 <= now,
        now + delay <= i64::MAX,
    ensures
        r@.len() == 2,
        r@[0].timestamp_ms == now,
        r@[1].timestamp_ms == now + delay,
        r@[0].channel == (if on_approach { Channel::Approach } else { Channel::Tower }),
        r@[1].channel == r@[0].channel,
        r@[0].speaker == Speaker::Ambient,
        r@[1].speaker == Speaker::Ambient,
        r@[0].text@ == pilot_text@,
        r@[0].display_speaker@ == pilot_display@,
        r@[1].text@ == atc_text@,
        r@[1].display_speaker@ == atc_display@,
        r@[0].voice_id == 200,
        r@[1].voice_id == 201,
{
    let channel = if on_approach {
        Channel::Approach
    } else {
        Channel::Tower
    };
    let mut r: Vec<RadioMessage> = Vec::new();
    r.push(
        RadioMessage {
            timestamp_ms: now,
            channel,
            speaker: Speaker::Ambient,
            text: pilot_text,
            display_speaker: pilot_display,
            voice_id: 200,
        },
    );
    r.push(
        RadioMessage {
            timestamp_ms: now + delay as i64,
            channel,
            speaker: Speaker::Ambient,
            text: atc_text,
            display_speaker: atc_display,
            voice_id: 201,
        },
    );
    r
}

/// Give the transmissions of an exchange starting at `now` their times: the call at
/// once, the response after `delay`, a readback `READBACK_GAP_MS` after that.
fn stamp(txs: Vec<Transmission>, now: i64, delay: u64) -> (r: Vec<RadioMessage>)
    requires
        0 <= now <= CLOCK_LIMIT_MS,
        delay < RESPONSE_DELAY_MAX_MS,
    ensures
        stamped(r@, txs@, now as int, delay as int),
        forall|i: int|
            0 <= i < r@.len() ==> now <= #[trigger] r@[i].timestamp_ms < now + RESPONSE_DELAY_MAX_MS
                + READBACK_GAP_MS,
{
    let ghost t0 = txs@;
    let mut txs = txs;
    let mut r: Vec<RadioMessage> = Vec::new();
    while txs.len() > 0
        invariant
            r@.len() + txs@.len() == t0.len(),
            txs@ == t0.skip(r@.len() as int),
            0 <= now <= CLOCK_LIMIT_MS,
            delay < RESPONSE_DELAY_MAX_MS,
            forall|i: int| 0 <= i < r@.len() ==> #[trigger] stamped_as(r@[i], t0[i], now as int, delay as int),
            forall|i: int|
                0 <= i < r@.len() ==> now <= #[trigger] r@[i].timestamp_ms < now + RESPONSE_DELAY_MAX_MS
                    + READBACK_GAP_MS,
        decreases txs@.len(),
    {
        let ghost k = r@.len() as int;
        let t = txs.remove(0);
        proof {
            assert(t == t0[k]);
            assert(txs@ =~= t0.skip(k + 1));
        }
        let timestamp_ms: i64 = match t.timing {
            Timing::Now => now,
            Timing::Response => now + delay as i64,
            Timing::Readback => now + delay as i64 + READBACK_GAP_MS,
        };
        r.push(
            RadioMessage {
                timestamp_ms,
                channel: t.channel,
                speaker: t.speaker,
                text: t.text,
                display_speaker: t.display_speaker,
                voice_id: t.voice_id,
            },
        );
    }
    r
}


/// The last `n` elements of `v` (all of them when there are fewer), in order.
pub fn last_n<T: Copy>(v: &Vec<T>, n: usize) -> (r: Vec<T>)
    ensures
        r@ == v@.skip(v@.len() - (if n < v@.len() { n as int } else { v@.len() as int })),
{
    let len = v.len();
    let start = if n < len { len - n } else { 0 };
    let mut r: Vec<T> = Vec::new();
    let mut i: usize = start;
    while i < len
        invariant
            len == v@.len(),
            start <= i <= len,
            r@ == v@.subrange(start as int, i as int),
        decreases len - i,
    {
        r.push(v[i]);
        proof {
            assert(r@ =~= v@.subrange(start as int, i + 1));
        }
        i = i + 1;
    }
    proof {
        assert(v@.subrange(start as int, len as int) =~= v@.skip(start as int));
    }
    r
}

/// The ATC radio scheduler.
pub struct AtcManager {
    /// the Bay Area facilities
    facilities: Vec<AtcFacility>,
    /// scheduled upcoming messages
    message_queue: VecDeque<RadioMessage>,
    /// delivered messages
    message_log: VecDeque<RadioMessage>,
    max_log_size: usize,
    sim_time_ms: i64,
    last_global_transmission_ms: i64,
    next_ambient_ms: i64,
    /// Per-plane phase timers: how long in the current pattern leg.
    pattern_timers_ms: Vec<u64>,
    /// Per-plane en-route check-in timers.
    enroute_timers_ms: Vec<u64>,
    rng: StdRng,
    /// Channel COM1 is auto-tuned to.
    com1: Channel,
}

impl AtcManager {
    /// Messages scheduled and not yet delivered, in delivery order.
    pub closed spec fn queue(&self) -> Seq<RadioMessage> {
        self.message_queue@
    }

    /// Delivered messages, oldest first.
    pub closed spec fn log(&self) -> Seq<RadioMessage> {
        self.message_log@
    }

    /// Simulated time, in milliseconds.
    pub closed spec fn now(&self) -> int {
        self.sim_time_ms as int
    }

    /// Time the last exchange started.
    pub closed spec fn last_global(&self) -> int {
        self.last_global_transmission_ms as int
    }

    /// Time of the next ambient filler exchange.
    pub closed spec fn next_ambient(&self) -> int {
        self.next_ambient_ms as int
    }

    /// Time each plane has spent on its current pattern leg.
    pub closed spec fn pattern_timers(&self) -> Seq<u64> {
        self.pattern_timers_ms@
    }

    /// Time since each plane's last en-route check-in.
    pub closed spec fn enroute_timers(&self) -> Seq<u64> {
        self.enroute_timers_ms@
    }

    /// Channel COM1 is auto-tuned to.
    pub closed spec fn com1_channel(&self) -> Channel {
        self.com1
    }

    /// The ATC facilities the manager knows.
    pub closed spec fn facility_list(&self) -> Seq<AtcFacility> {
        self.facilities@
    }

    /// Number of planes the manager keeps timers for.
    pub closed spec fn plane_count(&self) -> nat {
        self.pattern_timers_ms@.len()
    }

    /// What every operation keeps: the Bay Area facility table, one pattern and one
    /// en-route timer per plane, a log of at most `MAX_LOG_SIZE` messages, a clock
    /// within its limit and the last exchange not after it.
    pub closed spec fn wf(&self) -> bool {
        &&& is_bay_area_table(self.facilities@)
        &&& self.pattern_timers_ms@.len() == self.enroute_timers_ms@.len()
        &&& self.max_log_size == MAX_LOG_SIZE
        &&& self.message_log@.len() <= MAX_LOG_SIZE
        &&& 0 <= self.sim_time_ms <= CLOCK_LIMIT_MS
        &&& -10_000 <= self.last_global_transmission_ms <= self.sim_time_ms
        &&& self.next_ambient_ms <= CLOCK_LIMIT_MS + AMBIENT_MAX_MS
    }

    /// A manager for `num_planes` planes at time zero: plane 0 starts partway through
    /// its downwind leg, the en-route check-ins are staggered, the first ambient
    /// exchange comes 30 to 90 s in, and COM1 is on NorCal Approach.
    pub fn new(num_planes: usize) -> (r: Self)
        requires
            num_planes >= 1,
        ensures
            r.wf(),
            r.queue().len() == 0,
            r.log().len() == 0,
            r.now() == 0,
            r.last_global() == -10_000,
            AMBIENT_MIN_MS <= r.next_ambient() < AMBIENT_MAX_MS,
            r.plane_count() == num_planes,
            r.pattern_timers()[0] == DOWNWIND_CALL_MS,
            forall|i: int| 1 <= i < num_planes ==> r.pattern_timers()[i] == 0,
            forall|i: int| 0 <= i < num_planes ==> r.enroute_timers()[i] == enroute_offset(i),
            r.com1_channel() == Channel::Approach,
            is_bay_area_table(r.facility_list()),
    {
        let mut rng = seeded_rng(ATC_SEED);
        let next_ambient = draw_u64(&mut rng, AMBIENT_MIN_MS, AMBIENT_MAX_MS);
        let mut enroute_timers: Vec<u64> = Vec::new();
        let mut pattern_timers: Vec<u64> = Vec::new();
        let mut i: usize = 0;
        while i < num_planes
            invariant
                i <= num_planes,
                enroute_timers@.len() == i,
                pattern_timers@.len() == i,
                forall|j: int| 0 <= j < i ==> enroute_timers@[j] == enroute_offset(j),
                forall|j: int| 0 <= j < i ==> pattern_timers@[j] == 0,
            decreases num_planes - i,
        {
            let offset: u64 = if i == 0 {
                0
            } else if (i - 1) as u64 > (u64::MAX - 5_000) / 12_000 {
                u64::MAX
            } else {
                5_000 + ((i - 1) as u64) * 12_000
            };
            enroute_timers.push(offset);
            pattern_timers.push(0);
            i = i + 1;
        }
        pattern_timers.set(0, DOWNWIND_CALL_MS);
        AtcManager {
            facilities: build_facilities(),
            message_queue: VecDeque::new(),
            message_log: VecDeque::new(),
            max_log_size: MAX_LOG_SIZE,
            sim_time_ms: 0,
            last_global_transmission_ms: -10_000,
            next_ambient_ms: next_ambient as i64,
            pattern_timers_ms: pattern_timers,
            enroute_timers_ms: enroute_timers,
            rng,
            com1: Channel::Approach,
        }
    }

    /// The ATC facilities of the Bay Area.
    pub fn facilities(&self) -> (r: &Vec<AtcFacility>)
        ensures
            r@ == self.facility_list(),
    {
        &self.facilities
    }

    /// The channel COM1 is tuned to.
    pub fn com1(&self) -> (r: Channel)
        ensures
            r == self.com1_channel(),
    {
        self.com1
    }

    /// Auto-tune COM1: SFO Tower when the player is within about ten nautical miles of
    /// SFO (`near_sfo`), NorCal Approach otherwise.
    pub fn update_com1(&mut self, near_sfo: bool)
        ensures
            final(self).com1_channel() == (if near_sfo { Channel::Tower } else { Channel::Approach }),
            final(self).queue() == old(self).queue(),
            final(self).log() == old(self).log(),
            final(self).now() == old(self).now(),
            final(self).last_global() == old(self).last_global(),
            final(self).next_ambient() == old(self).next_ambient(),
            final(self).pattern_timers() == old(self).pattern_timers(),
            final(self).enroute_timers() == old(self).enroute_timers(),
            final(self).facility_list() == old(self).facility_list(),
            old(self).wf() ==> final(self).wf(),
    {
        self.com1 = if near_sfo { Channel::Tower } else { Channel::Approach };
    }

    /// Get all delivered messages in the log.
    pub fn message_log(&self) -> (r: &VecDeque<RadioMessage>)
        ensures
            r@ == self.log(),
    {
        &self.message_log
    }

    /// Get the most recent message.
    pub fn latest_message(&self) -> (r: Option<&RadioMessage>)
        ensures
            self.log().len() == 0 ==> r.is_none(),
            self.log().len() > 0 ==> r == Some(&self.log().last()),
    {
        let n = self.message_log.len();
        if n == 0 {
            None
        } else {
            Some(&self.message_log[n - 1])
        }
    }

    /// Get the delivered messages heard less than `window_ms` ago, oldest first.
    pub fn recent_messages(&self, window_ms: i64) -> (r: Vec<&RadioMessage>)
        requires
            self.wf(),
        ensures
            r@.map_values(|m: &RadioMessage| *m) == recent_of(self.log(), self.now(), window_ms as int),
    {
        let mut r: Vec<&RadioMessage> = Vec::new();
        let mut i: usize = 0;
        while i < self.message_log.len()
            invariant
                self.wf(),
                i <= self.message_log@.len(),
                r@.map_values(|m: &RadioMessage| *m) == recent_of(
                    self.message_log@.take(i as int),
                    self.sim_time_ms as int,
                    window_ms as int,
                ),
            decreases self.message_log@.len() - i,
        {
            let m = &self.message_log[i];
            proof {
                assert(self.message_log@.take(i + 1).drop_last() =~= self.message_log@.take(i as int));
            }
            let age: i128 = self.sim_time_ms as i128 - m.timestamp_ms as i128;
            if age < window_ms as i128 {
                r.push(m);
                proof {
                    let f = |m: &RadioMessage| *m;
                    assert(r@.map_values(f) =~= r@.drop_last().map_values(f).push(*m));
                }
            }
            i = i + 1;
        }
        proof {
            assert(self.message_log@.take(self.message_log@.len() as int) =~= self.message_log@);
        }
        r
    }

    /// The last `n` delivered messages (all of them when there are fewer), oldest first.
    pub fn latest_messages(&self, n: usize) -> (r: Vec<&RadioMessage>)
        ensures
            r@.map_values(|m: &RadioMessage| *m) == self.log().skip(
                self.log().len() - (if n < self.log().len() { n as int } else { self.log().len() as int }),
            ),
    {
        let len = self.message_log.len();
        let start = if n < len { len - n } else { 0 };
        let mut r: Vec<&RadioMessage> = Vec::new();
        let mut i: usize = start;
        while i < len
            invariant
                len == self.message_log@.len(),
                start <= i <= len,
                r@.map_values(|m: &RadioMessage| *m) == self.message_log@.subrange(start as int, i as int),
            decreases len - i,
        {
            let m = &self.message_log[i];
            let ghost r0 = r@;
            r.push(m);
            proof {
                let f = |m: &RadioMessage| *m;
                assert(r@.map_values(f) =~= r0.map_values(f).push(*m));
                assert(self.message_log@.subrange(start as int, i + 1) =~= self.message_log@.subrange(
                    start as int,
                    i as int,
                ).push(*m));
            }
            i = i + 1;
        }
        proof {
            assert(self.message_log@.subrange(start as int, len as int) =~= self.message_log@.skip(
                start as int,
            ));
        }
        r
    }

    /// Whether plane `plane_idx` may transmit now: at least `MIN_PLANE_INTERVAL_MS`
    /// since its last call and `MIN_GLOBAL_INTERVAL_MS` since the last exchange.
    pub fn can_transmit(&self, plane_idx: usize, atc_states: &Vec<AiPlaneAtcState>) -> (r: bool)
        requires
            plane_idx < atc_states.len(),
        ensures
            r == (self.now() - atc_states@[plane_idx as int].last_transmission_ms >= MIN_PLANE_INTERVAL_MS
                && self.now() - self.last_global() >= MIN_GLOBAL_INTERVAL_MS),
    {
        let state = &atc_states[plane_idx];
        let since_last: i128 = self.sim_time_ms as i128 - state.last_transmission_ms as i128;
        let since_global: i128 = self.sim_time_ms as i128 - self.last_global_transmission_ms as i128;
        since_last >= MIN_PLANE_INTERVAL_MS as i128 && since_global >= MIN_GLOBAL_INTERVAL_MS as i128
    }

    /// Advance every en-route timer by `dt_ms` (saturating).
    pub fn advance_enroute_timers(&mut self, dt_ms: u64)
        requires
            old(self).wf(),
        ensures
            final(self).wf(),
            final(self).enroute_timers().len() == old(self).enroute_timers().len(),
            forall|i: int|
                0 <= i < old(self).enroute_timers().len() ==> #[trigger] final(self).enroute_timers()[i]
                    == sat_add(old(self).enroute_timers()[i], dt_ms),
            final(self).queue() == old(self).queue(),
            final(self).log() == old(self).log(),
            final(self).now() == old(self).now(),
            final(self).last_global() == old(self).last_global(),
            final(self).next_ambient() == old(self).next_ambient(),
            final(self).pattern_timers() == old(self).pattern_timers(),
            final(self).com1_channel() == old(self).com1_channel(),
            final(self).facility_list() == old(self).facility_list(),
    {
        let n = self.enroute_timers_ms.len();
        let mut i: usize = 0;
        while i < n
            invariant
                n == self.enroute_timers_ms@.len(),
                n == old(self).enroute_timers_ms@.len(),
                i <= n,
                forall|j: int| 0 <= j < i ==> #[trigger] self.enroute_timers_ms@[j] == sat_add(
                    old(self).enroute_timers_ms@[j],
                    dt_ms,
                ),
                forall|j: int| i <= j < n ==> #[trigger] self.enroute_timers_ms@[j] == old(self).enroute_timers_ms@[j],
                self.message_queue == old(self).message_queue,
                self.message_log == old(self).message_log,
                self.max_log_size == old(self).max_log_size,
                self.sim_time_ms == old(self).sim_time_ms,
                self.last_global_transmission_ms == old(self).last_global_transmission_ms,
                self.next_ambient_ms == old(self).next_ambient_ms,
                self.pattern_timers_ms == old(self).pattern_timers_ms,
                self.com1 == old(self).com1,
                self.facilities == old(self).facilities,
            decreases n - i,
        {
            let t = self.enroute_timers_ms[i].saturating_add(dt_ms);
            self.enroute_timers_ms.set(i, t);
            i = i + 1;
        }
    }

    /// Drop the oldest log entries until at most `MAX_LOG_SIZE` remain.
    fn trim_log(&mut self)
        requires
            old(self).max_log_size == MAX_LOG_SIZE,
            old(self).message_log@.len() <= MAX_LOG_SIZE + 1,
        ensures
            final(self).message_log@ == keep_last(old(self).message_log@, MAX_LOG_SIZE as nat),
            final(self).message_queue == old(self).message_queue,
            final(self).max_log_size == old(self).max_log_size,
            final(self).sim_time_ms == old(self).sim_time_ms,
            final(self).last_global_transmission_ms == old(self).last_global_transmission_ms,
            final(self).next_ambient_ms == old(self).next_ambient_ms,
            final(self).pattern_timers_ms == old(self).pattern_timers_ms,
            final(self).enroute_timers_ms == old(self).enroute_timers_ms,
            final(self).com1 == old(self).com1,
            final(self).rng == old(self).rng,
            final(self).facilities == old(self).facilities,
    {
        while self.message_log.len() > self.max_log_size
            invariant
                self.max_log_size == MAX_LOG_SIZE,
                keep_last(self.message_log@, MAX_LOG_SIZE as nat) == keep_last(
                    old(self).message_log@,
                    MAX_LOG_SIZE as nat,
                ),
                self.message_log@.len() <= MAX_LOG_SIZE + 1,
                self.message_queue == old(self).message_queue,
                self.sim_time_ms == old(self).sim_time_ms,
                self.last_global_transmission_ms == old(self).last_global_transmission_ms,
                self.next_ambient_ms == old(self).next_ambient_ms,
                self.pattern_timers_ms == old(self).pattern_timers_ms,
                self.enroute_timers_ms == old(self).enroute_timers_ms,
                self.com1 == old(self).com1,
                self.rng == old(self).rng,
                self.facilities == old(self).facilities,
            decreases self.message_log@.len(),
        {
            let ghost before = self.message_log@;
            self.message_log.pop_front();
            proof {
                lemma_keep_last_drop_first(before, MAX_LOG_SIZE as nat);
            }
        }
    }

    /// Deliver the scheduled messages whose time has come, in order, stopping at the
    /// first one still in the future; they go to the log, which keeps only its last
    /// `MAX_LOG_SIZE` entries. Returns copies of the delivered messages.
    fn deliver_due(&mut self) -> (delivered: Vec<RadioMessage>)
        requires
            old(self).wf(),
        ensures
            final(self).wf(),
            delivered@ == old(self).queue().take(due_count(old(self).queue(), old(self).now()) as int),
            final(self).queue() == old(self).queue().skip(due_count(old(self).queue(), old(self).now()) as int),
            final(self).log() == keep_last(old(self).log() + delivered@, MAX_LOG_SIZE as nat),
            final(self).now() == old(self).now(),
            final(self).last_global() == old(self).last_global(),
            final(self).next_ambient() == old(self).next_ambient(),
            final(self).pattern_timers() == old(self).pattern_timers(),
            final(self).enroute_timers() == old(self).enroute_timers(),
            final(self).com1_channel() == old(self).com1_channel(),
            final(self).rng == old(self).rng,
            final(self).facility_list() == old(self).facility_list(),
    {
        let ghost q0 = self.message_queue@;
        let ghost l0 = self.message_log@;
        let ghost now = self.sim_time_ms as int;
        let mut delivered: Vec<RadioMessage> = Vec::new();
        while self.message_queue.len() > 0 && self.message_queue[0].timestamp_ms <= self.sim_time_ms
            invariant
                self.wf(),
                q0 == delivered@ + self.message_queue@,
                due_count(q0, now) == delivered@.len() + due_count(self.message_queue@, now),
                self.message_log@ == keep_last(l0 + delivered@, MAX_LOG_SIZE as nat),
                self.sim_time_ms == now,
                self.last_global_transmission_ms == old(self).last_global_transmission_ms,
                self.next_ambient_ms == old(self).next_ambient_ms,
                self.pattern_timers_ms == old(self).pattern_timers_ms,
                self.enroute_timers_ms == old(self).enroute_timers_ms,
                self.com1 == old(self).com1,
                self.rng == old(self).rng,
                self.facilities == old(self).facilities,
            decreases self.message_queue@.len(),
        {
            let ghost q = self.message_queue@;
            let ghost d = delivered@;
            let msg = self.message_queue.pop_front().unwrap();
            proof {
                assert(self.message_queue@ =~= q.drop_first());
                assert(q0 =~= d.push(msg) + self.message_queue@);
            }
            delivered.push(msg.duplicate());
            self.message_log.push_back(msg);
            proof {
                lemma_keep_last_push(l0 + d, msg, MAX_LOG_SIZE as nat);
                assert(l0 + d.push(msg) =~= (l0 + d).push(msg));
            }
            self.trim_log();
        }
        proof {
            assert(delivered@ =~= q0.take(due_count(q0, now) as int));
            assert(self.message_queue@ =~= q0.skip(due_count(q0, now) as int));
        }
        delivered
    }

    /// Plane `idx`'s turn at the microphone (see `plane_turn`).
    fn generate_for_plane(
        &mut self,
        idx: usize,
        plane: &PlaneReport,
        state: &mut AiPlaneAtcState,
    ) -> (r: Vec<RadioMessage>)
        requires
            old(self).wf(),
            idx < old(self).plane_count(),
        ensures
            final(self).wf(),
            plane_turn(*old(self), *final(self), idx as int, *plane, *old(state), *final(state), r@),
            r@.len() <= 3,
            forall|i: int|
                0 <= i < r@.len() ==> old(self).now() <= #[trigger] r@[i].timestamp_ms < old(self).now()
                    + RESPONSE_DELAY_MAX_MS + READBACK_GAP_MS,
            r@.len() > 0 ==> exchange_heard(r@, old(self).now(), idx, *old(state), *final(state), *plane),
            final(state).callsign == old(state).callsign,
            final(state).squawk == old(state).squawk,
            final(state).channel == old(state).channel,
            final(state).last_transmission_ms == old(state).last_transmission_ms,
            r@.len() == 0 && *final(state) != *old(state) ==> touch_and_go_step(*old(state), *final(state)),
            must_speak(*old(state), old(self).pattern_timers()[idx as int], old(self).enroute_timers()[idx as int])
                ==> r@.len() > 0,
            final(self).pattern_timers() == old(self).pattern_timers() || (final(self).pattern_timers()
                == old(self).pattern_timers().update(idx as int, 0) && *final(state) != *old(state)),
            final(self).enroute_timers() == old(self).enroute_timers() || (final(self).enroute_timers()
                == old(self).enroute_timers().update(idx as int, 0) && (*final(state) != *old(state)
                || r@.len() > 0)),
            final(self).plane_count() == old(self).plane_count(),
            final(self).queue() == old(self).queue(),
            final(self).log() == old(self).log(),
            final(self).now() == old(self).now(),
            final(self).last_global() == old(self).last_global(),
            final(self).next_ambient() == old(self).next_ambient(),
            final(self).com1_channel() == old(self).com1_channel(),
            final(self).facility_list() == old(self).facility_list(),
    {
        if state.flight_phase == FlightPhase::EnRoute {
            self.enroute_turn(idx, plane, state)
        } else {
            self.pattern_turn(idx, state)
        }
    }

    /// The turn of a plane flying the pattern.
    fn pattern_turn(&mut self, idx: usize, state: &mut AiPlaneAtcState) -> (r: Vec<RadioMessage>)
        requires
            old(self).wf(),
            idx < old(self).plane_count(),
            old(state).flight_phase != FlightPhase::EnRoute,
        ensures
            final(self).wf(),
            plane_turn(
                *old(self),
                *final(self),
                idx as int,
                PlaneReport { altitude_hundreds: 0, current_waypoint: 0 },
                *old(state),
                *final(state),
                r@,
            ),
            r@.len() <= 3,
            forall|i: int|
                0 <= i < r@.len() ==> old(self).now() <= #[trigger] r@[i].timestamp_ms < old(self).now()
                    + RESPONSE_DELAY_MAX_MS + READBACK_GAP_MS,
            final(state).callsign == old(state).callsign,
            final(state).squawk == old(state).squawk,
            final(state).channel == old(state).channel,
            final(state).last_transmission_ms == old(state).last_transmission_ms,
            r@.len() == 0 && *final(state) != *old(state) ==> touch_and_go_step(*old(state), *final(state)),
            must_speak(*old(state), old(self).pattern_timers()[idx as int], old(self).enroute_timers()[idx as int])
                ==> r@.len() > 0,
            final(self).pattern_timers() == old(self).pattern_timers() || (final(self).pattern_timers()
                == old(self).pattern_timers().update(idx as int, 0) && *final(state) != *old(state)),
            final(self).enroute_timers() == old(self).enroute_timers() || (final(self).enroute_timers()
                == old(self).enroute_timers().update(idx as int, 0) && (*final(state) != *old(state)
                || r@.len() > 0)),
            r@.len() > 0 ==> pattern_heard(r@, old(self).now(), idx, *old(state), *final(state)),
            final(self).plane_count() == old(self).plane_count(),
            final(self).queue() == old(self).queue(),
            final(self).log() == old(self).log(),
            final(self).now() == old(self).now(),
            final(self).last_global() == old(self).last_global(),
            final(self).next_ambient() == old(self).next_ambient(),
            final(self).com1_channel() == old(self).com1_channel(),
            final(self).facility_list() == old(self).facility_list(),
    {
        let phase = state.flight_phase;
        let timer = self.pattern_timers_ms[idx];
        let call_ms: u64 = match phase {
            FlightPhase::Downwind => DOWNWIND_CALL_MS,
            FlightPhase::Base => BASE_CALL_MS,
            FlightPhase::Final => FINAL_CALL_MS,
            FlightPhase::TouchAndGo => TOUCHANDGO_MS,
            FlightPhase::Crosswind => CROSSWIND_MS,
            FlightPhase::Departure => DEPARTURE_MS,
            FlightPhase::EnRoute => 0,
        };
        if timer < call_ms {
            return Vec::new();
        }
        self.pattern_timers_ms.set(idx, 0);
        let now = self.sim_time_ms;
        let ghost st0 = *state;
        match phase {
            FlightPhase::TouchAndGo => {
                let txs = generate_touchandgo(state);
                let r = stamp(txs, now, 0);
                proof {
                    assert(pattern_exchange(phase, idx, st0, *state, txs@));
                    assert(stamped(r@, txs@, now as int, RESPONSE_DELAY_MIN_MS as int));
                    assert(pattern_heard(r@, now as int, idx, st0, *state));
                }
                r
            },
            _ => {
                let delay = draw_u64(&mut self.rng, RESPONSE_DELAY_MIN_MS, RESPONSE_DELAY_MAX_MS);
                let txs = match phase {
                    FlightPhase::Downwind => generate_downwind(state, idx, &mut self.rng),
                    FlightPhase::Base => generate_base(state, idx),
                    FlightPhase::Final => generate_final(state, idx, &mut self.rng),
                    FlightPhase::Crosswind => generate_crosswind(state, idx),
                    _ => generate_departure(state, idx),
                };
                let r = stamp(txs, now, delay);
                proof {
                    assert(pattern_exchange(phase, idx, st0, *state, txs@));
                    assert(stamped(r@, txs@, now as int, delay as int));
                    assert(pattern_heard(r@, now as int, idx, st0, *state));
                }
                r
            },
        }
    }

    /// The turn of an en-route plane.
    fn enroute_turn(
        &mut self,
        idx: usize,
        plane: &PlaneReport,
        state: &mut AiPlaneAtcState,
    ) -> (r: Vec<RadioMessage>)
        requires
            old(self).wf(),
            idx < old(self).plane_count(),
            old(state).flight_phase == FlightPhase::EnRoute,
        ensures
            final(self).wf(),
            plane_turn(*old(self), *final(self), idx as int, *plane, *old(state), *final(state), r@),
            r@.len() <= 3,
            forall|i: int|
                0 <= i < r@.len() ==> old(self).now() <= #[trigger] r@[i].timestamp_ms < old(self).now()
                    + RESPONSE_DELAY_MAX_MS + READBACK_GAP_MS,
            final(state).callsign == old(state).callsign,
            final(state).squawk == old(state).squawk,
            final(state).channel == old(state).channel,
            final(state).last_transmission_ms == old(state).last_transmission_ms,
            r@.len() == 0 && *final(state) != *old(state) ==> touch_and_go_step(*old(state), *final(state)),
            must_speak(*old(state), old(self).pattern_timers()[idx as int], old(self).enroute_timers()[idx as int])
                ==> r@.len() > 0,
            final(self).pattern_timers() == old(self).pattern_timers() || (final(self).pattern_timers()
                == old(self).pattern_timers().update(idx as int, 0) && *final(state) != *old(state)),
            final(self).enroute_timers() == old(self).enroute_timers() || (final(self).enroute_timers()
                == old(self).enroute_timers().update(idx as int, 0) && (*final(state) != *old(state)
                || r@.len() > 0)),
            r@.len() > 0 ==> exchange_heard(r@, old(self).now(), idx, *old(state), *final(state), *plane),
            final(self).plane_count() == old(self).plane_count(),
            final(self).queue() == old(self).queue(),
            final(self).log() == old(self).log(),
            final(self).now() == old(self).now(),
            final(self).last_global() == old(self).last_global(),
            final(self).next_ambient() == old(self).next_ambient(),
            final(self).com1_channel() == old(self).com1_channel(),
            final(self).facility_list() == old(self).facility_list(),
    {
        let now = self.sim_time_ms;
        if !state.initial_contact_made {
            self.enroute_timers_ms.set(idx, 0);
            let delay = draw_u64(&mut self.rng, RESPONSE_DELAY_MIN_MS, RESPONSE_DELAY_MAX_MS);
            let txs = enroute_initial_contact(state, idx, plane.altitude_hundreds, plane.current_waypoint);
            let r = stamp(txs, now, delay);
            proof {
                assert(stamped(r@, txs@, now as int, delay as int));
                assert(initial_contact_msgs(
                    txs@,
                    idx,
                    state.callsign,
                    state.squawk,
                    plane.altitude_hundreds as int,
                    plane.current_waypoint as int,
                ));
                assert(self.enroute_timers_ms@ == old(self).enroute_timers_ms@.update(idx as int, 0));
                assert(contact_heard(r@, now as int, idx, *old(state), *plane));
            }
            return r;
        }
        let timer = self.enroute_timers_ms[idx];
        if timer < ENROUTE_CHECKIN_MIN_MS {
            return Vec::new();
        }
        if timer < ENROUTE_CHECKIN_MAX_MS && !draw_ratio(&mut self.rng, 1, 50) {
            return Vec::new();
        }
        self.enroute_timers_ms.set(idx, 0);
        let delay = draw_u64(&mut self.rng, RESPONSE_DELAY_MIN_MS, RESPONSE_DELAY_MAX_MS);
        let template = draw_u8(&mut self.rng, 0, 3);
        let mut sector: u32 = 0;
        let mut dist: u32 = 3;
        let mut traffic: i32 = 10;
        if template == 1 {
            sector = draw_u32(&mut self.rng, 0, 12);
            dist = draw_u32(&mut self.rng, 3, 12);
            traffic = draw_i32(&mut self.rng, 10, 50);
        }
        let txs = enroute_checkin(state, idx, plane.altitude_hundreds, template, sector, dist, traffic);
        let r = stamp(txs, now, delay);
        proof {
            assert(stamped(r@, txs@, now as int, delay as int));
            assert(checkin_msgs(
                txs@,
                idx,
                state.callsign,
                plane.altitude_hundreds as int,
                template as int,
                sector as int,
                dist as int,
                traffic as int,
            ));
        }
        r
    }

    /// Append `msgs` to the queue, in order.
    fn enqueue(&mut self, msgs: Vec<RadioMessage>)
        ensures
            final(self).message_queue@ == old(self).message_queue@ + msgs@,
            final(self).message_log == old(self).message_log,
            final(self).max_log_size == old(self).max_log_size,
            final(self).sim_time_ms == old(self).sim_time_ms,
            final(self).last_global_transmission_ms == old(self).last_global_transmission_ms,
            final(self).next_ambient_ms == old(self).next_ambient_ms,
            final(self).pattern_timers_ms == old(self).pattern_timers_ms,
            final(self).enroute_timers_ms == old(self).enroute_timers_ms,
            final(self).com1 == old(self).com1,
            final(self).rng == old(self).rng,
            final(self).facilities == old(self).facilities,
    {
        let ghost m0 = msgs@;
        let mut msgs = msgs;
        let ghost mut k: int = 0;
        while msgs.len() > 0
            invariant
                0 <= k,
                k + msgs@.len() == m0.len(),
                msgs@ == m0.skip(k),
                self.message_queue@ == old(self).message_queue@ + m0.take(k),
                self.message_log == old(self).message_log,
                self.max_log_size == old(self).max_log_size,
                self.sim_time_ms == old(self).sim_time_ms,
                self.last_global_transmission_ms == old(self).last_global_transmission_ms,
                self.next_ambient_ms == old(self).next_ambient_ms,
                self.pattern_timers_ms == old(self).pattern_timers_ms,
                self.enroute_timers_ms == old(self).enroute_timers_ms,
                self.com1 == old(self).com1,
                self.rng == old(self).rng,
                self.facilities == old(self).facilities,
            decreases msgs@.len(),
        {
            let m = msgs.remove(0);
            proof {
                assert(m == m0[k]);
                assert(msgs@ =~= m0.skip(k + 1));
                assert(m0.take(k + 1) =~= m0.take(k).push(m));
            }
            self.message_queue.push_back(m);
            proof {
                k = k + 1;
            }
        }
        proof {
            assert(m0.take(k) =~= m0);
        }
    }

    /// An ambient filler exchange starting now (see `ambient_heard`): the pair and the
    /// response delay are drawn, then whether it is on NorCal Approach (three times in
    /// five) or SFO Tower; the messages are `ambient_messages` for those draws.
    fn generate_ambient(&mut self) -> (r: Vec<RadioMessage>)
        requires
            old(self).wf(),
        ensures
            final(self).wf(),
            ambient_heard(r@, old(self).now()),
            final(self).queue() == old(self).queue(),
            final(self).log() == old(self).log(),
            final(self).now() == old(self).now(),
            final(self).last_global() == old(self).last_global(),
            final(self).next_ambient() == old(self).next_ambient(),
            final(self).pattern_timers() == old(self).pattern_timers(),
            final(self).enroute_timers() == old(self).enroute_timers(),
            final(self).com1_channel() == old(self).com1_channel(),
            final(self).plane_count() == old(self).plane_count(),
            final(self).facility_list() == old(self).facility_list(),
    {
        let (pilot_text, pilot_display, atc_text, atc_display) = generate_ambient_pair(&mut self.rng);
        let delay = draw_u64(&mut self.rng, RESPONSE_DELAY_MIN_MS, RESPONSE_DELAY_MAX_MS);
        let on_approach = draw_ratio(&mut self.rng, 3, 5);
        ambient_messages(self.sim_time_ms, delay, on_approach, pilot_text, pilot_display, atc_text, atc_display)
    }

    /// Advance the ATC system by `dt_ms` of simulated time; call once per frame.
    ///
    /// The clock moves on (stopping at `CLOCK_LIMIT_MS`) and the scheduled messages
    /// that have come due are delivered to the log and returned, for the radio to
    /// speak. Each plane's pattern leg timer moves on. Then each plane, in order, takes
    /// its turn at the microphone (see `plane_turn`) if it is allowed to transmit
    /// (see `can_transmit`); a plane that says something starts a new exchange, which
    /// is queued. A plane beyond the manager's count has no timers and takes no turn. If no exchange started and the ambient filler is due, it is queued
    /// and the next one scheduled 30 to 90 s later. Finally COM1 is auto-tuned.
    ///
    /// At most one exchange starts per tick, none within `MIN_GLOBAL_INTERVAL_MS` of
    /// the previous one, and no plane talks within `MIN_PLANE_INTERVAL_MS` of its last
    /// call.
    pub fn tick(
        &mut self,
        dt_ms: u64,
        planes: &Vec<PlaneReport>,
        atc_states: &mut Vec<AiPlaneAtcState>,
        near_sfo: bool,
    ) -> (delivered: Vec<RadioMessage>)
        requires
            old(self).wf(),
        ensures
            final(self).wf(),
            final(self).plane_count() == old(self).plane_count(),
            final(self).now() == clock_after(old(self).now(), dt_ms as int),
            tick_delivers(*old(self), *final(self), delivered@),
            tick_schedules(*old(self), *final(self), old(atc_states)@, final(atc_states)@, planes@),
            turn_order(*old(self), *final(self), old(atc_states)@, final(atc_states)@, planes@, dt_ms),
            timers_after_tick(
                *old(self),
                *final(self),
                old(atc_states)@,
                final(atc_states)@,
                planes@.len() as int,
                dt_ms,
            ),
            final(self).com1_channel() == (if near_sfo { Channel::Tower } else { Channel::Approach }),
            final(self).facility_list() == old(self).facility_list(),
    {
        let ghost m0 = *self;
        // The clock moves on.
        let room: i64 = CLOCK_LIMIT_MS - self.sim_time_ms;
        if dt_ms as u128 > room as u128 {
            self.sim_time_ms = CLOCK_LIMIT_MS;
        } else {
            self.sim_time_ms = self.sim_time_ms + dt_ms as i64;
        }
        let now = self.sim_time_ms;
        let ghost m_clock = *self;
        // Deliver scheduled messages whose time has arrived.
        let delivered = self.deliver_due();
        let ghost q1 = self.message_queue@;
        let ghost l1 = self.message_log@;
        // Update pattern timers.
        let np = if planes.len() < self.pattern_timers_ms.len() {
            planes.len()
        } else {
            self.pattern_timers_ms.len()
        };
        let mut i: usize = 0;
        while i < np
            invariant
                self.wf(),
                np <= self.pattern_timers_ms@.len(),
                self.pattern_timers_ms@.len() == m0.pattern_timers_ms@.len(),
                i <= np,
                np == (if planes@.len() < m0.pattern_timers_ms@.len() {
                    planes@.len()
                } else {
                    m0.pattern_timers_ms@.len()
                }),
                forall|k: int|
                    0 <= k < m0.pattern_timers_ms@.len() ==> #[trigger] self.pattern_timers_ms@[k] == (if k < i {
                        sat_add(m0.pattern_timers_ms@[k], dt_ms)
                    } else {
                        m0.pattern_timers_ms@[k]
                    }),
                self.enroute_timers_ms@ == m0.enroute_timers_ms@,
                self.message_queue@ == q1,
                self.message_log@ == l1,
                self.sim_time_ms == now,
                self.last_global_transmission_ms == m0.last_global_transmission_ms,
                self.next_ambient_ms == m0.next_ambient_ms,
                self.com1 == m0.com1,
                self.facilities@ == m0.facilities@,
            decreases np - i,
        {
            let t = self.pattern_timers_ms[i].saturating_add(dt_ms);
            self.pattern_timers_ms.set(i, t);
            i = i + 1;
        }
        let ghost p1 = self.pattern_timers_ms@;
        // Each plane's turn.
        // A plane beyond the manager's count has no timers and takes no turn.
        let n0 = if planes.len() < atc_states.len() {
            planes.len()
        } else {
            atc_states.len()
        };
        let n = if n0 < self.pattern_timers_ms.len() {
            n0
        } else {
            self.pattern_timers_ms.len()
        };
        let ghost s0 = atc_states@;
        let ghost mut who: int = 0;
        let mut j: usize = 0;
        while j < n
            invariant
                self.wf(),
                j <= n,
                n <= planes@.len(),
                n <= s0.len(),
                n <= self.plane_count(),
                self.plane_count() == m0.plane_count(),
                self.sim_time_ms == now,
                self.message_log@ == l1,
                self.next_ambient_ms == m0.next_ambient_ms,
                self.com1 == m0.com1,
                self.facilities@ == m0.facilities@,
                self.message_queue@.len() >= q1.len(),
                self.message_queue@.take(q1.len() as int) == q1,
                added_ok(self.message_queue@.skip(q1.len() as int), now as int),
                added_global(
                    self.message_queue@.skip(q1.len() as int),
                    m0.last_global_transmission_ms as int,
                    self.last_global_transmission_ms as int,
                    now as int,
                ),
                atc_states@.len() == s0.len(),
                forall|k: int| j <= k < s0.len() ==> atc_states@[k] == s0[k],
                forall|k: int|
                    0 <= k < j ==> #[trigger] plane_after_tick(
                        s0[k],
                        atc_states@[k],
                        m0.last_global_transmission_ms as int,
                        now as int,
                    ),
                forall|k: int|
                    0 <= k < j && #[trigger] atc_states@[k].last_transmission_ms == now
                        && s0[k].last_transmission_ms != now ==> k == who,
                self.message_queue@.len() > q1.len() ==> {
                    &&& 0 <= who < j
                    &&& atc_states@[who].last_transmission_ms == now
                    &&& s0[who].last_transmission_ms != now
                    &&& exchange_heard(
                        self.message_queue@.skip(q1.len() as int),
                        now as int,
                        who as usize,
                        s0[who],
                        atc_states@[who],
                        planes@[who],
                    )
                },
                self.message_queue@.len() == q1.len() ==> forall|k: int|
                    0 <= k < j ==> !(#[trigger] atc_states@[k].last_transmission_ms == now
                        && s0[k].last_transmission_ms != now),
                forall|k: int|
                    0 <= k < j && atc_states@[k] != s0[k] && !(atc_states@[k].last_transmission_ms == now
                        && s0[k].last_transmission_ms != now) ==> #[trigger] touch_and_go_step(
                        s0[k],
                        atc_states@[k],
                    ),
                self.pattern_timers_ms@.len() == p1.len(),
                self.enroute_timers_ms@.len() == m0.enroute_timers_ms@.len(),
                forall|k: int| 0 <= k < n ==> p1[k] == sat_add(m0.pattern_timers_ms@[k], dt_ms),
                self.message_queue@.len() == q1.len() ==> forall|k: int|
                    0 <= k < j ==> !#[trigger] obliged(m0, s0[k], k, now as int, dt_ms),
                self.message_queue@.len() > q1.len() ==> {
                    &&& forall|k: int| 0 <= k < who ==> !#[trigger] obliged(m0, s0[k], k, now as int, dt_ms)
                    &&& forall|k: int| who < k < s0.len() && k < j ==> #[trigger] atc_states@[k] == s0[k]
                },
                forall|k: int|
                    0 <= k < p1.len() ==> #[trigger] self.pattern_timers_ms@[k] == p1[k] || (
                    self.pattern_timers_ms@[k] == 0 && k < j && atc_states@[k] != s0[k]),
                forall|k: int|
                    0 <= k < m0.enroute_timers_ms@.len() ==> #[trigger] self.enroute_timers_ms@[k]
                        == m0.enroute_timers_ms@[k] || (self.enroute_timers_ms@[k] == 0 && k < j
                        && atc_states@[k] != s0[k]),
            decreases n - j,
        {
            if self.can_transmit(j, atc_states) {
                let mut st = atc_states[j];
                let ghost st0 = st;
                let ghost added0 = self.message_queue@.skip(q1.len() as int);
                let msgs = self.generate_for_plane(j, &planes[j], &mut st);
                if msgs.len() > 0 {
                    let ghost st1 = st;
                    st.last_transmission_ms = now;
                    self.last_global_transmission_ms = now;
                    proof {
                        assert(added0.len() == 0);
                        who = j as int;
                        lemma_exchange_heard_last(msgs@, now as int, j, st0, st1, st, planes@[j as int]);
                    }
                    self.enqueue(msgs);
                    proof {
                        assert(self.message_queue@.skip(q1.len() as int) =~= msgs@);
                    }
                }
                atc_states.set(j, st);
            }
            j = j + 1;
        }
        proof {
            assert forall|k: int|
                0 <= k < n && #[trigger] obliged(m0, s0[k], k, now as int, dt_ms) implies exists|w: int|
                    0 <= w <= k && #[trigger] atc_states@[w].last_transmission_ms == now
                        && s0[w].last_transmission_ms != now by {
                assert(self.message_queue@.len() > q1.len());
                assert(atc_states@[who].last_transmission_ms == now);
            }
        }
        proof {
            assert forall|k: int|
                0 <= k < s0.len() && atc_states@[k].last_transmission_ms == now && s0[k].last_transmission_ms
                    != now implies #[trigger] exchange_heard(
                self.message_queue@.skip(q1.len() as int),
                now as int,
                k as usize,
                s0[k],
                atc_states@[k],
                planes@[k],
            ) by {
                if k >= n {
                    assert(atc_states@[k] == s0[k]);
                }
            }
        }
        // Ambient filler.
        let since_global: i128 = now as i128 - self.last_global_transmission_ms as i128;
        if now >= self.next_ambient_ms && since_global >= MIN_GLOBAL_INTERVAL_MS as i128 {
            let msgs = self.generate_ambient();
            if msgs.len() > 0 {
                self.last_global_transmission_ms = now;
                let ghost before = self.message_queue@;
                self.enqueue(msgs);
                proof {
                    assert(before =~= q1);
                    assert(self.message_queue@.take(q1.len() as int) =~= q1);
                    assert(self.message_queue@.skip(q1.len() as int) =~= msgs@);
                }
            }
            let wait = draw_u64(&mut self.rng, AMBIENT_MIN_MS, AMBIENT_MAX_MS);
            self.next_ambient_ms = now + wait as i64;
        }
        // Auto-tune COM1 based on the player's position.
        self.update_com1(near_sfo);
        delivered
    }
}

/// A manager in a valid state knows the Bay Area facilities, never holds more than
/// `MAX_LOG_SIZE` delivered messages, its clock stays within `[0, CLOCK_LIMIT_MS]` and
/// the last exchange is never in the future; every operation keeps these (see `wf`).
pub proof fn manager_bounds(m: AtcManager)
    requires
        m.wf(),
    ensures
        is_bay_area_table(m.facility_list()),
        m.log().len() <= MAX_LOG_SIZE,
        0 <= m.now() <= CLOCK_LIMIT_MS,
        m.last_global() <= m.now(),
        m.pattern_timers().len() == m.enroute_timers().len(),
{
}

/// No plane talks within `MIN_PLANE_INTERVAL_MS` of its previous call, and no exchange
/// starts within `MIN_GLOBAL_INTERVAL_MS` of the previous one: in a tick from `m0` to
/// `m1` (as `tick` makes it), a plane whose last call changed called at the new time,
/// at least those intervals after its own last call and after the last exchange.
pub proof fn transmissions_are_spaced(
    m0: AtcManager,
    m1: AtcManager,
    s0: Seq<AiPlaneAtcState>,
    s1: Seq<AiPlaneAtcState>,
    planes: Seq<PlaneReport>,
    k: int,
)
    requires
        tick_schedules(m0, m1, s0, s1, planes),
        0 <= k < s0.len(),
        s1[k].last_transmission_ms != s0[k].last_transmission_ms,
    ensures
        s1[k].last_transmission_ms == m1.now(),
        s0[k].last_transmission_ms + MIN_PLANE_INTERVAL_MS <= m1.now(),
        m0.last_global() + MIN_GLOBAL_INTERVAL_MS <= m1.now(),
{
    assert(plane_after_tick(s0[k], s1[k], m0.last_global(), m1.now()));
}

/// At most one plane speaks in a tick: in a tick from `m0` to `m1` (as `tick` makes
/// it), two planes whose last call moved to the new time are the same plane.
pub proof fn one_plane_speaks_per_tick(
    m0: AtcManager,
    m1: AtcManager,
    s0: Seq<AiPlaneAtcState>,
    s1: Seq<AiPlaneAtcState>,
    planes: Seq<PlaneReport>,
    dt: u64,
    a: int,
    b: int,
)
    requires
        turn_order(m0, m1, s0, s1, planes, dt),
        0 <= a < s0.len(),
        0 <= b < s0.len(),
        s1[a].last_transmission_ms == m1.now() && s0[a].last_transmission_ms != m1.now(),
        s1[b].last_transmission_ms == m1.now() && s0[b].last_transmission_ms != m1.now(),
    ensures
        a == b,
{
    if a < b {
        assert(s1[b] == s0[b]);
    } else if b < a {
        assert(s1[a] == s0[a]);
    }
}

/// A plane is cleared for the option at most once per circuit: only its downwind call
/// sets the clearance, with the tower's clearance and the pilot's readback, and only
/// when it was not set; the departure call, which closes the circuit, clears it.
pub proof fn option_cleared_once_per_circuit(
    phase: FlightPhase,
    idx: usize,
    before: AiPlaneAtcState,
    after: AiPlaneAtcState,
    txs: Seq<Transmission>,
)
    requires
        pattern_exchange(phase, idx, before, after, txs),
    ensures
        after.cleared_option && !before.cleared_option ==> phase == FlightPhase::Downwind
            && downwind_msgs(txs, idx, before.callsign, true, 0),
        phase == FlightPhase::Departure ==> !after.cleared_option,
{
}

} // verus!
