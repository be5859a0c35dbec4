use r_flightsim::ambient::{ambient_callsigns, ambient_exchange_text, generate_ambient_pair};
use r_flightsim::facilities::{build_facilities, facility_by_freq, norcal_index, sfo_index, AtcFacility, FacilityType};
use r_flightsim::radio::{
    build_atc_state, enroute_checkin, enroute_initial_contact, generate_base, generate_crosswind,
    downwind_exchange, final_exchange, generate_departure, generate_downwind, generate_final,
    generate_touchandgo,
    nearest_waypoint_name, number_word_simple, Callsign, Channel, FlightPhase, Speaker, Timing,
};
use rand::rngs::StdRng;
use rand::{Rng, SeedableRng};

#[test]
fn callsign_forms() {
    let cs = Callsign { aircraft_type: "Ki-61", tail_number: "97B", tail_phonetic: "niner-seven-bravo" };
    assert_eq!(cs.full(), "Ki-61 niner-seven-bravo");
    assert_eq!(cs.short(), "niner-seven-bravo");
    assert_eq!(cs.display_short(), "97B");
    assert_eq!(cs.display_full(), "Ki-61 97B");
}

#[test]
fn atc_state_per_plane() {
    let s0 = build_atc_state(0);
    assert_eq!(s0.squawk, 2401);
    assert_eq!(s0.channel, Channel::Tower);
    assert_eq!(s0.flight_phase, FlightPhase::Downwind);
    assert_eq!(s0.callsign.tail_number, "97B");
    let s3 = build_atc_state(3);
    assert_eq!(s3.squawk, 2404);
    assert_eq!(s3.channel, Channel::Approach);
    assert_eq!(s3.flight_phase, FlightPhase::EnRoute);
    assert_eq!(s3.callsign.tail_phonetic, "three-one-delta");
    let s9 = build_atc_state(9);
    assert_eq!(s9.callsign.tail_number, "99X");
    assert!(!s9.initial_contact_made && !s9.cleared_option);
}

#[test]
fn small_number_words_and_waypoints() {
    assert_eq!(number_word_simple(9), "niner");
    assert_eq!(number_word_simple(12), "twelve");
    assert_eq!(number_word_simple(13), "?");
    assert_eq!(nearest_waypoint_name(1), "Emeryville");
    assert_eq!(nearest_waypoint_name(7), "Bay Area");
}

#[test]
fn pattern_circuit_returns_to_downwind() {
    let mut rng = StdRng::seed_from_u64(0xA7C0);
    let mut st = build_atc_state(0);
    let m = generate_downwind(&mut st, 0, &mut rng);
    assert_eq!(st.flight_phase, FlightPhase::Base);
    assert!(m.len() == 2 || m.len() == 3);
    assert_eq!(m[0].text, "San Francisco Tower, Ki-61 niner-seven-bravo, left downwind runway two-eight left");
    assert_eq!(m[0].timing, Timing::Now);
    if m.len() == 3 {
        assert!(st.cleared_option);
        assert_eq!(m[2].text, "Cleared for the option two-eight left, niner-seven-bravo");
        assert_eq!(m[2].timing, Timing::Readback);
    } else {
        assert!(!st.cleared_option);
        assert!(m[1].text.starts_with("Ki-61 97B, number "));
    }
    let m = generate_base(&mut st, 0);
    assert_eq!(st.flight_phase, FlightPhase::Final);
    assert_eq!(m[0].text, "Ki-61 97B, turning base");
    assert_eq!(m[1].text, "Ki-61 97B, roger");
    assert_eq!(m[1].display_speaker, "SFO TWR");
    assert_eq!(m[1].voice_id, 101);
    let m = generate_final(&mut st, 0, &mut rng);
    assert_eq!(st.flight_phase, FlightPhase::TouchAndGo);
    assert_eq!(m.len(), 3);
    assert!(m[1].text.starts_with("Ki-61 97B, cleared touch and go runway two-eight left, wind two-seven-zero at "));
    let m = generate_touchandgo(&mut st);
    assert!(m.is_empty());
    assert_eq!(st.flight_phase, FlightPhase::Crosswind);
    let m = generate_crosswind(&mut st, 0);
    assert_eq!(st.flight_phase, FlightPhase::Departure);
    assert_eq!(
        m[0].text,
        "Ki-61 97B, make left crosswind departure, contact NorCal on thirty-five sixty-five"
    );
    assert_eq!(m[1].text, "Left crosswind, NorCal on thirty-five sixty-five, niner-seven-bravo");
    let m = generate_departure(&mut st, 0);
    assert_eq!(st.flight_phase, FlightPhase::Downwind);
    assert!(!st.cleared_option);
    assert_eq!(m[1].text, "Ki-61 97B, report midfield downwind");
}

#[test]
fn option_is_cleared_at_most_once_per_circuit() {
    for seed in 0..20u64 {
        let mut rng = StdRng::seed_from_u64(seed);
        let mut st = build_atc_state(0);
        st.cleared_option = true;
        let m = generate_downwind(&mut st, 0, &mut rng);
        assert_eq!(m.len(), 2);
        assert!(st.cleared_option);
    }
}

#[test]
fn enroute_first_call_and_checkins() {
    let mut st = build_atc_state(1);
    let m = enroute_initial_contact(&mut st, 1, 15, 1);
    assert!(st.initial_contact_made);
    assert_eq!(
        m[0].text,
        "NorCal Approach, Ki-61 four-two-alpha, one thousand five hundred feet, proceeding direct Emeryville"
    );
    assert_eq!(m[1].text, "Ki-61 42A, NorCal Approach, radar contact, squawk two-four-zero-two");
    match &m[1].speaker {
        Speaker::Controller(name) => assert_eq!(name, "NorCal Approach"),
        _ => panic!("controller expected"),
    }
    assert_eq!(m[0].voice_id, 1);
    let m = enroute_checkin(&st, 1, 20, 0, 0, 0, 0);
    assert_eq!(m[0].text, "NorCal Approach, Ki-61 four-two-alpha, level two thousand");
    assert_eq!(m[1].text, "Ki-61 42A, roger");
    let m = enroute_checkin(&st, 1, 20, 1, 3, 5, 20);
    assert_eq!(m[0].text, "Ki-61 42A, traffic three o'clock, 5 miles, two thousand, type unknown");
    assert_eq!(m[1].text, "Looking for traffic, four-two-alpha");
    let m = enroute_checkin(&st, 1, 20, 2, 0, 0, 0);
    assert_eq!(m[0].text, "Ki-61 42A, altimeter three-zero-one-niner");
    assert_eq!(m[1].text, "three-zero-one-niner, four-two-alpha");
}

#[test]
fn ambient_pool_and_templates() {
    let pool = ambient_callsigns();
    assert_eq!(pool.len(), 12);
    assert_eq!(pool[2].display, "UAL412");
    let (p, pd, c, cd) = ambient_exchange_text(2, 25, 4, 0, 2000, 20, 0, 0);
    assert_eq!(p, "NorCal Approach, United four-twelve heavy, level two thousand five hundred");
    assert_eq!(pd, "UAL412");
    assert_eq!(c, "United four-twelve heavy, NorCal Approach, roger");
    assert_eq!(cd, "NorCal");
    let (p, _, c, _) = ambient_exchange_text(0, 25, 0, 3, 2451, 20, 0, 0);
    assert_eq!(p, "NorCal Approach, Cessna three-two-six-papa-delta, request flight following to Stockton");
    assert_eq!(
        c,
        "Cessna three-two-six-papa-delta, NorCal Approach, squawk two-four-five-one, say altitude"
    );
    let (p, pd, _, _) = ambient_exchange_text(4, 25, 3, 0, 2000, 20, 0, 1);
    assert_eq!(p, "Alaska six-five-one, contact Oakland Tower on one-one-eight-point-three");
    assert_eq!(pd, "NorCal");
    let (p, _, c, _) = ambient_exchange_text(4, 25, 2, 0, 2000, 20, 27, 0);
    assert_eq!(p, "Alaska six-five-one, turn right heading two-seven-zero");
    assert_eq!(c, "Right heading two-seven-zero, Alaska six-five-one");
    let (_, _, c, _) = ambient_exchange_text(4, 25, 1, 0, 2000, 45, 0, 0);
    assert_eq!(c, "Descending four thousand five hundred, Alaska six-five-one");
}

#[test]
fn ambient_pair_follows_the_draws() {
    for seed in 0..30u64 {
        let mut rng = StdRng::seed_from_u64(seed);
        let got = generate_ambient_pair(&mut rng);
        let mut twin = StdRng::seed_from_u64(seed);
        let cs: usize = twin.gen_range(0..12);
        let level: u32 = twin.gen_range(15..80);
        let template: u8 = twin.gen_range(0..5);
        let (mut dest, mut squawk, mut new_alt, mut hdg, mut tower) = (0usize, 2000u16, 20i32, 0i32, 0usize);
        match template {
            0 => {
                dest = twin.gen_range(0..4);
                squawk = twin.gen_range(2000..5000);
            }
            1 => new_alt = twin.gen_range(20..60),
            2 => hdg = twin.gen_range(0..36),
            3 => tower = twin.gen_range(0..5),
            _ => {}
        }
        assert_eq!(got, ambient_exchange_text(cs, level, template, dest, squawk, new_alt, hdg, tower));
    }
}

fn facility(name: &'static str, khz: u32) -> AtcFacility {
    AtcFacility {
        name,
        callsign: name,
        facility_type: FacilityType::Tower,
        frequency_khz: khz,
        airport_ident: None,
        position_microdeg: (0, 0),
        active_runways: Vec::new(),
    }
}

#[test]
fn bay_area_facility_table() {
    let fs = build_facilities();
    assert_eq!(fs.len(), 7);
    let names: Vec<&str> = fs.iter().map(|f| f.name).collect();
    assert_eq!(names, vec!["NorCal Approach", "SFO Tower", "OAK Tower", "SJC Tower", "HWD Tower", "PAO Tower", "SQL Tower"]);
    let calls: Vec<&str> = fs.iter().map(|f| f.callsign).collect();
    assert_eq!(
        calls,
        vec!["NorCal Approach", "San Francisco Tower", "Oakland Tower", "San Jose Tower", "Hayward Tower", "Palo Alto Tower", "San Carlos Tower"]
    );
    let khz: Vec<u32> = fs.iter().map(|f| f.frequency_khz).collect();
    assert_eq!(khz, vec![135650, 120500, 118300, 124000, 120200, 118600, 119200]);
    assert!(fs[0].facility_type == FacilityType::Approach);
    assert!(fs[1..].iter().all(|f| f.facility_type == FacilityType::Tower));
    assert_eq!(fs[0].airport_ident, None);
    assert_eq!(fs[1].airport_ident, Some("KSFO"));
    assert_eq!(fs[6].airport_ident, Some("KSQL"));
    assert_eq!(fs[0].position_microdeg, (37_700_000, -122_200_000));
    assert_eq!(fs[1].position_microdeg, (37_621_300, -122_379_000));
    assert!(fs[0].active_runways.is_empty());
    assert_eq!(fs[1].active_runways.len(), 2);
    assert_eq!(fs[1].active_runways[0].designator, "28L");
    assert_eq!(fs[1].active_runways[1].designator, "28R");
    assert_eq!(fs[1].active_runways[1].heading, 280);
    assert_eq!(fs[5].active_runways[0].designator, "31");
    assert_eq!(fs[5].active_runways[0].heading, 310);
}

#[test]
fn facility_labels_and_lookup() {
    let fs = build_facilities();
    assert_eq!(fs[1].display_short(), "SFO TWR");
    assert_eq!(fs[0].display_short(), "NorCal");
    assert_eq!(fs[6].display_short(), "SQL TWR");
    assert_eq!(facility("Livermore Tower", 118100).display_short(), "Livermore Tower");
    assert_eq!(norcal_index(&fs), 0);
    assert_eq!(sfo_index(&fs), 1);
    let fs = vec![facility("OAK Tower", 118300)];
    assert_eq!(norcal_index(&fs), 0);
    assert_eq!(sfo_index(&fs), 1);
    let fs = vec![facility("OAK Tower", 118300), facility("SJC Tower", 124000), facility("SFO Tower", 120500)];
    assert_eq!(sfo_index(&fs), 2);
    assert!(FacilityType::Tower != FacilityType::Approach);
}

#[test]
fn facility_lookup_by_frequency() {
    let fs = build_facilities();
    assert_eq!(facility_by_freq(&fs, 120500), Some(1));
    assert_eq!(facility_by_freq(&fs, 135655), Some(0));
    assert_eq!(facility_by_freq(&fs, 135660), None);
    assert_eq!(facility_by_freq(&fs, 121500), None);
    assert_eq!(facility_by_freq(&fs, 119200), Some(6));
    let fs = vec![facility("A", 120500), facility("B", 120500)];
    assert_eq!(facility_by_freq(&fs, 120500), Some(0));
    assert_eq!(facility_by_freq(&Vec::new(), 121500), None);
}

#[test]
fn downwind_exchange_for_each_template() {
    let mut st = build_atc_state(0);
    let m = downwind_exchange(&mut st, 0, 0, 2);
    assert_eq!(st.flight_phase, FlightPhase::Base);
    assert!(st.cleared_option);
    assert_eq!(m.len(), 3);
    assert_eq!(m[1].text, "Ki-61 97B, San Francisco Tower, cleared for the option runway two-eight left");
    assert_eq!(m[1].timing, Timing::Response);
    assert_eq!(m[2].text, "Cleared for the option two-eight left, niner-seven-bravo");

    let mut st = build_atc_state(0);
    let m = downwind_exchange(&mut st, 0, 1, 2);
    assert!(!st.cleared_option);
    assert_eq!(m.len(), 2);
    assert_eq!(m[1].text, "Ki-61 97B, number two, follow traffic on base");

    // Already cleared this circuit: template 0 gives a number too.
    let mut st = build_atc_state(0);
    st.cleared_option = true;
    let m = downwind_exchange(&mut st, 0, 0, 3);
    assert!(st.cleared_option);
    assert_eq!(m.len(), 2);
    assert_eq!(m[1].text, "Ki-61 97B, number three, follow traffic on base");
    assert_eq!(m[0].text, "San Francisco Tower, Ki-61 niner-seven-bravo, left downwind runway two-eight left");
}

#[test]
fn final_exchange_reports_the_wind() {
    let mut st = build_atc_state(0);
    st.flight_phase = FlightPhase::Final;
    let m = final_exchange(&mut st, 0, 8);
    assert_eq!(st.flight_phase, FlightPhase::TouchAndGo);
    assert_eq!(m.len(), 3);
    assert_eq!(m[0].text, "Ki-61 97B, short final two-eight left");
    assert_eq!(m[1].text, "Ki-61 97B, cleared touch and go runway two-eight left, wind two-seven-zero at eight");
    assert_eq!(m[2].text, "Cleared touch and go, niner-seven-bravo");
}

#[test]
fn downwind_clears_the_option_for_some_draws() {
    let mut cleared = 0;
    for seed in 0..40u64 {
        let mut rng = StdRng::seed_from_u64(seed);
        let mut st = build_atc_state(0);
        let m = generate_downwind(&mut st, 0, &mut rng);
        if st.cleared_option {
            cleared += 1;
            assert_eq!(m.len(), 3);
        }
    }
    assert!(cleared > 0 && cleared < 40);
}
