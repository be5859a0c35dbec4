use r_flightsim::atc::{
    ambient_messages, last_n,
    AtcManager, PlaneReport, MAX_LOG_SIZE, MIN_GLOBAL_INTERVAL_MS, MIN_PLANE_INTERVAL_MS,
};
use r_flightsim::radio::{build_atc_state, AiPlaneAtcState, Channel, FlightPhase, Speaker};

fn fleet(n: usize) -> (Vec<PlaneReport>, Vec<AiPlaneAtcState>) {
    let planes = (0..n)
        .map(|i| PlaneReport { altitude_hundreds: 35, current_waypoint: i % 4 })
        .collect();
    let states = (0..n).map(build_atc_state).collect();
    (planes, states)
}

#[test]
fn new_manager_starts_quiet_on_norcal() {
    let m = AtcManager::new(5);
    assert_eq!(m.com1(), Channel::Approach);
    assert!(m.message_log().is_empty());
    assert!(m.latest_message().is_none());
    assert!(m.recent_messages(15_000).is_empty());
    let fs = m.facilities();
    assert_eq!(fs.len(), 7);
    assert_eq!(fs[0].name, "NorCal Approach");
    assert_eq!(fs[0].frequency_khz, 135650);
    assert_eq!(fs[1].name, "SFO Tower");
    assert_eq!(fs[1].frequency_khz, 120500);
}

#[test]
fn planes_beyond_the_manager_take_no_turn() {
    // The manager keeps timers for one plane; the second is en route and would
    // otherwise make its initial contact at once.
    let mut m = AtcManager::new(1);
    let (planes, mut states) = fleet(2);
    states[0].flight_phase = FlightPhase::EnRoute;
    states[0].initial_contact_made = true;
    states[1].flight_phase = FlightPhase::EnRoute;
    let delivered = m.tick(0, &planes, &mut states, false);
    assert!(delivered.is_empty());
    let delivered = m.tick(16, &planes, &mut states, false);
    assert!(delivered.is_empty());
    assert!(!states[1].initial_contact_made);
    assert_eq!(states[1].last_transmission_ms, states[0].last_transmission_ms);
    assert!(m.message_log().is_empty());
}

#[test]
fn high_altitude_report_is_spoken() {
    let mut m = AtcManager::new(1);
    let (mut planes, mut states) = fleet(1);
    planes[0].altitude_hundreds = 30_000_000;
    states[0].flight_phase = FlightPhase::EnRoute;
    m.tick(0, &planes, &mut states, false);
    let delivered = m.tick(5_000, &planes, &mut states, false);
    assert!(!delivered.is_empty());
    assert!(delivered[0].text.contains("? thousand"));
}

#[test]
fn pattern_plane_calls_downwind_at_once() {
    let mut m = AtcManager::new(1);
    let (planes, mut states) = fleet(1);
    // Nothing is due yet: the pilot's call is queued at time zero.
    let delivered = m.tick(0, &planes, &mut states, true);
    assert!(delivered.is_empty());
    assert_eq!(states[0].flight_phase, FlightPhase::Base);
    assert_eq!(states[0].last_transmission_ms, 0);
    assert_eq!(m.com1(), Channel::Tower);
    // The next tick delivers the call.
    let delivered = m.tick(16, &planes, &mut states, true);
    assert_eq!(delivered.len(), 1);
    assert_eq!(
        delivered[0].text,
        "San Francisco Tower, Ki-61 niner-seven-bravo, left downwind runway two-eight left"
    );
    assert!(matches!(delivered[0].speaker, Speaker::Pilot(0)));
    assert_eq!(delivered[0].channel, Channel::Tower);
    assert_eq!(m.latest_message().unwrap().text, delivered[0].text);
    // The tower answers within four seconds.
    let delivered = m.tick(4_000, &planes, &mut states, true);
    assert!(!delivered.is_empty());
    assert_eq!(delivered[0].display_speaker, "SFO TWR");
    assert!(delivered[0].text.starts_with("Ki-61 97B, "));
}

#[test]
fn planes_respect_spacing() {
    let mut m = AtcManager::new(5);
    let (planes, mut states) = fleet(5);
    let mut last_start: Option<i64> = None;
    let mut now: i64 = 0;
    for _ in 0..10_000 {
        let before: Vec<i64> = states.iter().map(|s| s.last_transmission_ms).collect();
        m.tick(100, &planes, &mut states, false);
        now += 100;
        let mut talkers = 0;
        for (i, s) in states.iter().enumerate() {
            if s.last_transmission_ms != before[i] {
                talkers += 1;
                assert_eq!(s.last_transmission_ms, now);
                assert!(now - before[i] >= MIN_PLANE_INTERVAL_MS);
                if let Some(t) = last_start {
                    assert!(now - t >= MIN_GLOBAL_INTERVAL_MS);
                }
                last_start = Some(now);
            }
        }
        assert!(talkers <= 1);
        assert!(m.message_log().len() <= MAX_LOG_SIZE);
    }
    // Every en-route plane has made initial contact by now.
    assert!(states.iter().skip(1).all(|s| s.initial_contact_made));
    assert_eq!(m.message_log().len(), MAX_LOG_SIZE);
}

#[test]
fn recent_messages_window() {
    let mut m = AtcManager::new(2);
    let (planes, mut states) = fleet(2);
    for _ in 0..600 {
        m.tick(100, &planes, &mut states, false);
    }
    let all = m.recent_messages(i64::MAX);
    assert_eq!(all.len(), m.message_log().len());
    assert!(m.recent_messages(0).is_empty());
}

#[test]
fn enroute_plane_makes_initial_contact() {
    let mut m = AtcManager::new(2);
    let planes = vec![
        PlaneReport { altitude_hundreds: 15, current_waypoint: 0 },
        PlaneReport { altitude_hundreds: 35, current_waypoint: 2 },
    ];
    let mut states = vec![build_atc_state(0), build_atc_state(1)];
    // Plane 0 talks first; plane 1 must wait for the global interval.
    m.tick(0, &planes, &mut states, false);
    assert!(!states[1].initial_contact_made);
    let mut t = 0;
    while !states[1].initial_contact_made {
        m.tick(500, &planes, &mut states, false);
        t += 500;
        assert!(t <= 10_000);
    }
    let mut heard = Vec::new();
    for _ in 0..20 {
        for msg in m.tick(500, &planes, &mut states, false) {
            heard.push(msg.text);
        }
    }
    assert!(heard.contains(
        &"NorCal Approach, Ki-61 four-two-alpha, three thousand five hundred feet, proceeding direct Golden Gate"
            .to_string()
    ));
    assert!(heard.contains(
        &"Ki-61 42A, NorCal Approach, radar contact, squawk two-four-zero-two".to_string()
    ));
}

#[test]
fn enroute_timers_advance() {
    let mut m = AtcManager::new(3);
    m.advance_enroute_timers(u64::MAX);
    m.advance_enroute_timers(1);
    let (planes, mut states) = fleet(3);
    m.tick(0, &planes, &mut states, false);
}

#[test]
fn latest_messages_are_the_tail_of_the_log() {
    let mut m = AtcManager::new(3);
    let (planes, mut states) = fleet(3);
    for _ in 0..3_000 {
        m.tick(100, &planes, &mut states, false);
    }
    let log: Vec<String> = m.message_log().iter().map(|x| x.text.clone()).collect();
    let last4: Vec<String> = m.latest_messages(4).iter().map(|x| x.text.clone()).collect();
    assert_eq!(last4, log[log.len() - 4..].to_vec());
    assert_eq!(m.latest_messages(1_000).len(), log.len());
    assert!(m.latest_messages(0).is_empty());
}

#[test]
fn last_n_keeps_the_tail() {
    assert_eq!(last_n(&vec![1, 2, 3, 4, 5], 2), vec![4, 5]);
    assert_eq!(last_n(&vec![1, 2], 5), vec![1, 2]);
    assert_eq!(last_n(&Vec::<u8>::new(), 3), Vec::<u8>::new());
}

#[test]
fn option_clearance_once_per_circuit() {
    let mut m = AtcManager::new(1);
    let (planes, mut states) = fleet(1);
    let mut clearances_this_circuit = 0;
    let mut circuits = 0;
    let mut prev = states[0];
    for _ in 0..20_000 {
        m.tick(100, &planes, &mut states, true);
        let now = states[0];
        if now.cleared_option && !prev.cleared_option {
            assert_eq!(prev.flight_phase, FlightPhase::Downwind);
            clearances_this_circuit += 1;
            assert!(clearances_this_circuit <= 1);
        }
        if prev.flight_phase == FlightPhase::Departure && now.flight_phase == FlightPhase::Downwind {
            assert!(!now.cleared_option);
            clearances_this_circuit = 0;
            circuits += 1;
        }
        prev = now;
    }
    assert!(circuits >= 10);
}

#[test]
fn ambient_messages_channel_follows_the_draw() {
    let m = ambient_messages(1_000, 2_500, true, "p".to_string(), "pd".to_string(), "a".to_string(), "ad".to_string());
    assert_eq!(m.len(), 2);
    assert_eq!(m[0].channel, Channel::Approach);
    assert_eq!(m[1].channel, Channel::Approach);
    assert_eq!(m[0].timestamp_ms, 1_000);
    assert_eq!(m[1].timestamp_ms, 3_500);
    assert_eq!(m[0].text, "p");
    assert_eq!(m[0].display_speaker, "pd");
    assert_eq!(m[1].text, "a");
    assert_eq!(m[1].display_speaker, "ad");
    assert!(matches!(m[0].speaker, Speaker::Ambient));
    assert_eq!((m[0].voice_id, m[1].voice_id), (200, 201));
    let m = ambient_messages(0, 1_500, false, "p".to_string(), "pd".to_string(), "a".to_string(), "ad".to_string());
    assert_eq!(m[0].channel, Channel::Tower);
    assert_eq!(m[1].channel, Channel::Tower);
}
